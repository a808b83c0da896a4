//! Redeem allocation: a requested redeem amount is split across the
//! liquid, unlocked depositories proportionally to their available
//! liquidity, and the floor-rounding loss is then handed back in input
//! order, so that the allocations sum to the request exactly.

use vstd::arithmetic::div_mod::lemma_div_multiples_vanish;
use vstd::prelude::*;

use crate::error::XxusdError;
use crate::state::safe_u128_to_u64;
use crate::utils::maths::{
    calculate_depositories_sum_value, compute_amount_less_fraction_floor, floor_products_seq,
    fraction_floor, lemma_fraction_floor_le_amount, lemma_sum_floor_products,
    lemma_sum_int_cons, lemma_sum_int_elem, lemma_sum_int_le, lemma_sum_seq_as_int,
    lemma_sum_seq_le, lemma_sum_seq_nonneg, min_int, sum_int, sum_seq,
};

verus! {

/// The per-depository inputs of the redeem calculator.
pub struct DepositoryInfoForRedeemableAmount {
    /// Whether redemptions may currently draw from this depository.
    pub is_liquid: bool,
    /// The depository's target managed amount.
    pub target_redeemable_amount: u64,
    /// The amount the depository currently manages.
    pub redeemable_amount_under_management: u128,
    /// Redemptions from this depository are disallowed before this time.
    pub unlock_time: i64,
}

/// Whether a depository may serve redemptions at `current_time`.
pub open spec fn spec_eligible(d: DepositoryInfoForRedeemableAmount, current_time: i64) -> bool {
    d.is_liquid && current_time >= d.unlock_time
}

/// The liquidity a depository contributes: its managed amount when
/// eligible, nothing otherwise.
pub open spec fn spec_available_amount(
    d: DepositoryInfoForRedeemableAmount,
    current_time: i64,
) -> int {
    if spec_eligible(d, current_time) {
        d.redeemable_amount_under_management as int
    } else {
        0
    }
}

pub open spec fn spec_available_seq(
    infos: Seq<DepositoryInfoForRedeemableAmount>,
    current_time: i64,
) -> Seq<int> {
    infos.map_values(|d: DepositoryInfoForRedeemableAmount| spec_available_amount(d, current_time))
}

pub open spec fn spec_total_available(
    infos: Seq<DepositoryInfoForRedeemableAmount>,
    current_time: i64,
) -> int {
    sum_int(spec_available_seq(infos, current_time))
}

/// The first pass: each depository's liquidity share of the request,
/// rounded down.
pub open spec fn spec_provisional_seq(
    requested: u64,
    infos: Seq<DepositoryInfoForRedeemableAmount>,
    current_time: i64,
) -> Seq<int> {
    spec_available_seq(infos, current_time).map_values(
        |a: int| fraction_floor(requested as int, a, spec_total_available(infos, current_time)),
    )
}

/// The second pass: walking the allocations in order, each is topped up
/// from its remaining headroom until the shortfall is gone.
pub open spec fn spec_patch(allocs: Seq<int>, avails: Seq<int>, shortfall: int) -> Seq<int>
    decreases allocs.len(),
{
    if allocs.len() == 0 {
        allocs
    } else {
        let take = min_int(avails[0] - allocs[0], shortfall);
        seq![allocs[0] + take] + spec_patch(
            allocs.drop_first(),
            avails.drop_first(),
            shortfall - take,
        )
    }
}

/// What is left of the shortfall after the walk of [`spec_patch`].
pub open spec fn spec_patch_rem(allocs: Seq<int>, avails: Seq<int>, shortfall: int) -> int
    decreases allocs.len(),
{
    if allocs.len() == 0 {
        shortfall
    } else {
        let take = min_int(avails[0] - allocs[0], shortfall);
        spec_patch_rem(allocs.drop_first(), avails.drop_first(), shortfall - take)
    }
}

/// The final allocations: the proportional pass corrected for its
/// rounding loss.
pub open spec fn spec_redeem_seq(
    requested: u64,
    infos: Seq<DepositoryInfoForRedeemableAmount>,
    current_time: i64,
) -> Seq<int> {
    let provisional = spec_provisional_seq(requested, infos, current_time);
    spec_patch(
        provisional,
        spec_available_seq(infos, current_time),
        requested - sum_int(provisional),
    )
}

/// The patch walk keeps every allocation between its first-pass value and
/// the depository's liquidity, consumes exactly the shortfall it absorbs,
/// and absorbs all of it whenever the combined headroom suffices.
pub proof fn lemma_patch_props(allocs: Seq<int>, avails: Seq<int>, shortfall: int)
    requires
        allocs.len() == avails.len(),
        shortfall >= 0,
        forall|i: int| 0 <= i < allocs.len() ==> 0 <= #[trigger] allocs[i] <= avails[i],
    ensures
        spec_patch(allocs, avails, shortfall).len() == allocs.len(),
        forall|i: int|
            0 <= i < allocs.len() ==> allocs[i] <= #[trigger] spec_patch(
                allocs,
                avails,
                shortfall,
            )[i] <= avails[i],
        0 <= spec_patch_rem(allocs, avails, shortfall) <= shortfall,
        sum_int(spec_patch(allocs, avails, shortfall)) == sum_int(allocs) + shortfall
            - spec_patch_rem(allocs, avails, shortfall),
        shortfall <= sum_int(avails) - sum_int(allocs) ==> spec_patch_rem(
            allocs,
            avails,
            shortfall,
        ) == 0,
    decreases allocs.len(),
{
    if allocs.len() == 0 {
    } else {
        let take = min_int(avails[0] - allocs[0], shortfall);
        let a1 = allocs.drop_first();
        let v1 = avails.drop_first();
        let patched = spec_patch(allocs, avails, shortfall);
        lemma_patch_props(a1, v1, shortfall - take);
        assert(allocs =~= seq![allocs[0]] + a1);
        assert(avails =~= seq![avails[0]] + v1);
        lemma_sum_int_cons(allocs[0], a1);
        lemma_sum_int_cons(avails[0], v1);
        lemma_sum_int_cons(allocs[0] + take, spec_patch(a1, v1, shortfall - take));
        lemma_sum_int_le(a1, v1);
        assert(patched[0] == allocs[0] + take);
        assert(forall|i: int|
            1 <= i < allocs.len() ==> patched[i] == #[trigger] spec_patch(
                a1,
                v1,
                shortfall - take,
            )[i - 1]);
    }
}

/// The inputs on which the redeem calculator succeeds.
pub open spec fn redeem_inputs_ok(
    requested: u64,
    infos: Seq<DepositoryInfoForRedeemableAmount>,
    current_time: i64,
) -> bool {
    &&& forall|i: int|
        0 <= i < infos.len() && spec_eligible(#[trigger] infos[i], current_time) ==> infos[
            i
        ].redeemable_amount_under_management <= u64::MAX
    &&& spec_total_available(infos, current_time) <= u64::MAX
    &&& spec_total_available(infos, current_time) >= requested
    &&& spec_total_available(infos, current_time) > 0
}

/// Computes, per depository, the slice of the requested redeem it pays.
///
/// Succeeds exactly on the inputs of [`redeem_inputs_ok`]: every eligible
/// depository's managed amount and the combined liquidity must fit in 64
/// bits, and the combined liquidity must be positive and cover the
/// request. The result holds, per depository, the amount of
/// [`spec_redeem_seq`]; the allocations sum to the request exactly.
#[verifier::loop_isolation(false)]
pub fn calculate_depositories_redeemable_amount(
    requested_redeemable_amount: u64,
    depositories_info: &Vec<DepositoryInfoForRedeemableAmount>,
    current_time: i64,
) -> (r: Result<Vec<u64>, XxusdError>)
    ensures
        r is Ok <==> redeem_inputs_ok(requested_redeemable_amount, depositories_info@, current_time),
        r is Ok ==> r->Ok_0@.len() == depositories_info@.len(),
        r is Ok ==> forall|i: int|
            0 <= i < depositories_info@.len() ==> #[trigger] r->Ok_0@[i] == spec_redeem_seq(
                requested_redeemable_amount,
                depositories_info@,
                current_time,
            )[i],
        r is Ok ==> sum_seq(r->Ok_0@) == requested_redeemable_amount,
        (exists|i: int|
            0 <= i < depositories_info@.len() && spec_eligible(
                #[trigger] depositories_info@[i],
                current_time,
            ) && depositories_info@[i].redeemable_amount_under_management > u64::MAX) ==> r
            == Err::<Vec<u64>, XxusdError>(XxusdError::Overflow),
        ({
            let fits = forall|i: int|
                0 <= i < depositories_info@.len() && spec_eligible(
                    #[trigger] depositories_info@[i],
                    current_time,
                ) ==> depositories_info@[i].redeemable_amount_under_management <= u64::MAX;
            let total = spec_total_available(depositories_info@, current_time);
            &&& fits && total > u64::MAX ==> r == Err::<Vec<u64>, XxusdError>(
                XxusdError::MathOverflow,
            )
            &&& fits && total <= u64::MAX && total < requested_redeemable_amount ==> r == Err::<
                Vec<u64>,
                XxusdError,
            >(XxusdError::InsufficientRedeemableAmount)
            &&& fits && total <= u64::MAX && total >= requested_redeemable_amount && total == 0
                ==> r == Err::<Vec<u64>, XxusdError>(XxusdError::DivisionByZero)
        }),
{
    let ghost infos = depositories_info@;
    let n = depositories_info.len();

    // Phase 1: the liquidity each depository can serve right now.
    let mut depositories_available_redeemable_amount: Vec<u64> = Vec::new();
    let mut i: usize = 0;
    while i < n
        invariant
            0 <= i <= n,
            depositories_available_redeemable_amount@.len() == i,
            forall|j: int|
                0 <= j < i ==> #[trigger] depositories_available_redeemable_amount@[j]
                    == spec_available_amount(infos[j], current_time),
            forall|j: int|
                0 <= j < i && spec_eligible(#[trigger] infos[j], current_time) ==> infos[
                    j
                ].redeemable_amount_under_management <= u64::MAX,
        decreases n - i,
    {
        if !depositories_info[i].is_liquid || current_time < depositories_info[i].unlock_time {
            depositories_available_redeemable_amount.push(0);
        } else {
            let available = match safe_u128_to_u64(
                depositories_info[i].redeemable_amount_under_management,
            ) {
                Ok(v) => v,
                Err(e) => {
                    return Err(e);
                },
            };
            depositories_available_redeemable_amount.push(available);
        }
        i = i + 1;
    }

    // Phase 2: the combined liquidity must cover the request.
    proof {
        lemma_sum_seq_as_int(
            depositories_available_redeemable_amount@,
            spec_available_seq(infos, current_time),
        );
        lemma_sum_seq_nonneg(depositories_available_redeemable_amount@);
    }
    let total_available_redeemable_amount = match calculate_depositories_sum_value(
        &depositories_available_redeemable_amount,
    ) {
        Ok(v) => v,
        Err(e) => {
            return Err(e);
        },
    };
    if total_available_redeemable_amount < requested_redeemable_amount {
        return Err(XxusdError::InsufficientRedeemableAmount);
    }
    if total_available_redeemable_amount == 0 {
        return Err(XxusdError::DivisionByZero);
    }

    // Phase 3: each depository pays its liquidity share of the request,
    // rounded down.
    let ghost avail_ints = spec_available_seq(infos, current_time);
    let ghost provisional = spec_provisional_seq(requested_redeemable_amount, infos, current_time);
    let mut depositories_redeemable_amount: Vec<u64> = Vec::new();
    let mut i: usize = 0;
    while i < n
        invariant
            0 <= i <= n,
            depositories_redeemable_amount@.len() == i,
            forall|j: int|
                0 <= j < i ==> #[trigger] depositories_redeemable_amount@[j] == provisional[j],
            forall|j: int|
                0 <= j < i ==> #[trigger] depositories_redeemable_amount@[j]
                    <= depositories_available_redeemable_amount@[j],
        decreases n - i,
    {
        let available_amount = depositories_available_redeemable_amount[i];
        proof {
            lemma_sum_int_elem(avail_ints, i as int);
            lemma_fraction_floor_le_amount(
                requested_redeemable_amount as int,
                available_amount as int,
                total_available_redeemable_amount as int,
            );
            lemma_fraction_floor_le_amount(
                available_amount as int,
                requested_redeemable_amount as int,
                total_available_redeemable_amount as int,
            );
            assert(requested_redeemable_amount as int * available_amount as int
                == available_amount as int * requested_redeemable_amount as int)
                by (nonlinear_arith);
        }
        let provisional_amount = match compute_amount_less_fraction_floor(
            requested_redeemable_amount,
            total_available_redeemable_amount - available_amount,
            total_available_redeemable_amount,
        ) {
            Ok(v) => v,
            Err(e) => {
                proof {
                    assert(false);
                }
                return Err(e);
            },
        };
        depositories_redeemable_amount.push(provisional_amount);
        i = i + 1;
    }

    // Phase 4: the floor rounding has lost at most one unit per
    // depository; hand the loss back in input order.
    proof {
        lemma_sum_seq_as_int(depositories_redeemable_amount@, provisional);
        lemma_sum_seq_nonneg(depositories_redeemable_amount@);
        lemma_sum_seq_le(
            depositories_redeemable_amount@,
            depositories_available_redeemable_amount@,
        );
        assert(provisional =~= floor_products_seq(
            requested_redeemable_amount as int,
            total_available_redeemable_amount as int,
            avail_ints,
        ));
        lemma_sum_floor_products(
            requested_redeemable_amount as int,
            total_available_redeemable_amount as int,
            avail_ints,
        );
        lemma_div_multiples_vanish(
            requested_redeemable_amount as int,
            total_available_redeemable_amount as int,
        );
        assert(requested_redeemable_amount as int * total_available_redeemable_amount as int
            == total_available_redeemable_amount as int * requested_redeemable_amount as int)
            by (nonlinear_arith);
    }
    let total_redeemable_amount = match calculate_depositories_sum_value(
        &depositories_redeemable_amount,
    ) {
        Ok(v) => v,
        Err(e) => {
            proof {
                assert(false);
            }
            return Err(e);
        },
    };
    let mut rounding_errors: u64 = requested_redeemable_amount - total_redeemable_amount;

    let ghost result = spec_redeem_seq(requested_redeemable_amount, infos, current_time);
    proof {
        assert(forall|j: int|
            0 <= j < n ==> #[trigger] avail_ints[j]
                == depositories_available_redeemable_amount@[j] as int);
        assert forall|j: int| 0 <= j < n implies 0 <= #[trigger] provisional[j]
            <= avail_ints[j] by {
            assert(provisional[j] == depositories_redeemable_amount@[j] as int);
        }
        lemma_patch_props(
            provisional,
            avail_ints,
            requested_redeemable_amount as int - sum_int(provisional),
        );
        assert(result.len() == n);
        assert(depositories_redeemable_amount@.skip(0).map_values(|x: u64| x as int)
            =~= provisional);
        assert(avail_ints.skip(0) =~= avail_ints);
        assert(result.skip(0) =~= result);
    }
    let mut i: usize = 0;
    while i < n
        invariant
            0 <= i <= n,
            depositories_redeemable_amount@.len() == n,
            depositories_available_redeemable_amount@.len() == n,
            forall|j: int|
                0 <= j < n ==> #[trigger] depositories_redeemable_amount@[j]
                    <= depositories_available_redeemable_amount@[j],
            forall|j: int|
                0 <= j < i ==> #[trigger] depositories_redeemable_amount@[j] == result[j],
            result.skip(i as int) == spec_patch(
                depositories_redeemable_amount@.skip(i as int).map_values(|x: u64| x as int),
                avail_ints.skip(i as int),
                rounding_errors as int,
            ),
        decreases n - i,
    {
        let ghost suffix = depositories_redeemable_amount@.skip(i as int).map_values(
            |x: u64| x as int,
        );
        let available_amount = depositories_available_redeemable_amount[i];
        let current_alloc = depositories_redeemable_amount[i];
        let depository_remaining_after_redeem = available_amount - current_alloc;
        let depository_rounding_correction = if depository_remaining_after_redeem
            < rounding_errors {
            depository_remaining_after_redeem
        } else {
            rounding_errors
        };
        proof {
            assert(suffix[0] == current_alloc as int);
            assert(avail_ints.skip(i as int)[0] == available_amount as int);
        }
        depositories_redeemable_amount[i] = current_alloc + depository_rounding_correction;
        rounding_errors = rounding_errors - depository_rounding_correction;
        proof {
            assert(depositories_redeemable_amount@.skip(i as int + 1).map_values(
                |x: u64| x as int,
            ) =~= suffix.drop_first());
            assert(avail_ints.skip(i as int + 1) =~= avail_ints.skip(i as int).drop_first());
            assert(result.skip(i as int).drop_first() =~= result.skip(i as int + 1));
            assert((seq![suffix[0] + min_int(
                avail_ints.skip(i as int)[0] - suffix[0],
                rounding_errors as int + depository_rounding_correction as int,
            )] + spec_patch(
                suffix.drop_first(),
                avail_ints.skip(i as int).drop_first(),
                rounding_errors as int,
            )).drop_first() =~= spec_patch(
                suffix.drop_first(),
                avail_ints.skip(i as int).drop_first(),
                rounding_errors as int,
            ));
            assert(result.skip(i as int)[0] == result[i as int]);
        }
        i = i + 1;
    }

    proof {
        lemma_redeem_exactness(requested_redeemable_amount, infos, current_time);
        lemma_sum_seq_as_int(depositories_redeemable_amount@, result);
    }
    Ok(depositories_redeemable_amount)
}

/// Determinism: the calculator's contract pins each entry of its output
/// to a function of the inputs alone — the input-order walk of the patch
/// pass included — so two runs on identical inputs yield identical
/// allocation vectors.
pub proof fn lemma_redeem_calculation_deterministic(
    requested: u64,
    infos: Seq<DepositoryInfoForRedeemableAmount>,
    current_time: i64,
    r1: Seq<u64>,
    r2: Seq<u64>,
)
    requires
        r1.len() == infos.len(),
        forall|i: int|
            0 <= i < infos.len() ==> #[trigger] r1[i] == spec_redeem_seq(
                requested,
                infos,
                current_time,
            )[i],
        r2.len() == infos.len(),
        forall|i: int|
            0 <= i < infos.len() ==> #[trigger] r2[i] == spec_redeem_seq(
                requested,
                infos,
                current_time,
            )[i],
    ensures
        r1 == r2,
{
    assert(r1 =~= r2);
}

/// Exactness: on any input the redeem calculator accepts, the corrected
/// allocations sum to the requested amount exactly, stay within each
/// depository's available liquidity, and draw nothing from a depository
/// that is illiquid or still locked.
pub proof fn lemma_redeem_exactness(
    requested: u64,
    infos: Seq<DepositoryInfoForRedeemableAmount>,
    current_time: i64,
)
    requires
        spec_total_available(infos, current_time) >= requested,
        spec_total_available(infos, current_time) > 0,
    ensures
        spec_redeem_seq(requested, infos, current_time).len() == infos.len(),
        sum_int(spec_redeem_seq(requested, infos, current_time)) == requested,
        forall|i: int|
            0 <= i < infos.len() ==> 0 <= #[trigger] spec_redeem_seq(
                requested,
                infos,
                current_time,
            )[i] <= spec_available_amount(infos[i], current_time),
        forall|i: int|
            0 <= i < infos.len() && !spec_eligible(infos[i], current_time)
                ==> #[trigger] spec_redeem_seq(requested, infos, current_time)[i] == 0,
{
    let total = spec_total_available(infos, current_time);
    let avails = spec_available_seq(infos, current_time);
    let provisional = spec_provisional_seq(requested, infos, current_time);
    assert forall|i: int|
        0 <= i < infos.len() implies 0 <= #[trigger] provisional[i] <= avails[i] by {
        lemma_sum_int_elem(avails, i);
        lemma_fraction_floor_le_amount(avails[i], requested as int, total);
        assert(requested as int * avails[i] == avails[i] * requested as int)
            by (nonlinear_arith);
    }
    assert(provisional =~= floor_products_seq(requested as int, total, avails));
    lemma_sum_floor_products(requested as int, total, avails);
    lemma_div_multiples_vanish(requested as int, total);
    assert(requested as int * total == total * requested as int) by (nonlinear_arith);
    lemma_sum_int_le(provisional, avails);
    let shortfall = requested - sum_int(provisional);
    lemma_patch_props(provisional, avails, shortfall);
}

} // verus!
