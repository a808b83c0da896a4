//! Target allocation: given the circulating supply and each depository's
//! declared weight and hard cap, compute each depository's ideal managed
//! amount, redistributing whatever a saturated depository cannot absorb to
//! those with spare room.

use vstd::prelude::*;

use crate::error::XxusdError;
use crate::state::safe_u128_to_u64;
use crate::utils::maths::{
    calculate_depositories_sum_value, ceil_products_seq, compute_amount_fraction_ceil,
    fraction_ceil, lemma_fraction_ceil_le_amount, lemma_pos_div_ceil_exact,
    lemma_pos_div_ceil_facts, lemma_sum_ceil_products, lemma_sum_int_elem, lemma_sum_int_le,
    lemma_sum_int_linear, lemma_sum_int_nonneg, lemma_sum_int_zero, lemma_sum_seq_as_int,
    lemma_sum_seq_nonneg, min_int, pos_div_ceil, sum_int, sum_seq,
};
use crate::BPS_POWER;

verus! {

/// The per-depository inputs of the target calculator.
pub struct DepositoryInfoForTargetRedeemableAmount {
    /// Desired share of the circulating supply, in basis points.
    pub weight_bps: u16,
    /// Hard ceiling on the amount this depository may manage.
    pub redeemable_amount_under_management_cap: u128,
}

/// The weights of the depositories, as unbounded integers.
pub open spec fn spec_weight_seq(infos: Seq<DepositoryInfoForTargetRedeemableAmount>) -> Seq<
    int,
> {
    infos.map_values(|d: DepositoryInfoForTargetRedeemableAmount| d.weight_bps as int)
}

pub open spec fn spec_weights_sum(infos: Seq<DepositoryInfoForTargetRedeemableAmount>) -> int {
    sum_int(spec_weight_seq(infos))
}

/// A depository's raw target: its weight share of the supply, rounded up so
/// that targets never drift below the intended weight.
pub open spec fn spec_raw_target(
    supply: u64,
    d: DepositoryInfoForTargetRedeemableAmount,
) -> int {
    fraction_ceil(supply as int, d.weight_bps as int, BPS_POWER as int)
}

/// How far a depository's raw target exceeds its cap.
pub open spec fn spec_overflow_amount(
    supply: u64,
    d: DepositoryInfoForTargetRedeemableAmount,
) -> int {
    let raw = spec_raw_target(supply, d);
    let cap = d.redeemable_amount_under_management_cap as int;
    if raw > cap {
        raw - cap
    } else {
        0
    }
}

/// How much room a depository has left under its cap.
pub open spec fn spec_available_amount(
    supply: u64,
    d: DepositoryInfoForTargetRedeemableAmount,
) -> int {
    let raw = spec_raw_target(supply, d);
    let cap = d.redeemable_amount_under_management_cap as int;
    if raw < cap {
        cap - raw
    } else {
        0
    }
}

pub open spec fn spec_overflow_seq(
    supply: u64,
    infos: Seq<DepositoryInfoForTargetRedeemableAmount>,
) -> Seq<int> {
    infos.map_values(|d: DepositoryInfoForTargetRedeemableAmount| spec_overflow_amount(supply, d))
}

pub open spec fn spec_available_seq(
    supply: u64,
    infos: Seq<DepositoryInfoForTargetRedeemableAmount>,
) -> Seq<int> {
    infos.map_values(|d: DepositoryInfoForTargetRedeemableAmount| spec_available_amount(supply, d))
}

pub open spec fn spec_total_overflow(
    supply: u64,
    infos: Seq<DepositoryInfoForTargetRedeemableAmount>,
) -> int {
    sum_int(spec_overflow_seq(supply, infos))
}

pub open spec fn spec_total_available(
    supply: u64,
    infos: Seq<DepositoryInfoForTargetRedeemableAmount>,
) -> int {
    sum_int(spec_available_seq(supply, infos))
}

/// The share of the redistributable overflow a depository with `available`
/// spare room receives, rounded up.
pub open spec fn spec_realloc_amount(
    total_overflow: int,
    total_available: int,
    available: int,
) -> int {
    if total_available > 0 {
        pos_div_ceil(min_int(total_overflow, total_available) * available, total_available)
    } else {
        0
    }
}

/// A depository's final target: raw target, plus its share of everyone
/// else's overflow, minus its own overflow, never above its cap.
pub open spec fn spec_target_amount(
    supply: u64,
    infos: Seq<DepositoryInfoForTargetRedeemableAmount>,
    i: int,
) -> int {
    let d = infos[i];
    let cap = d.redeemable_amount_under_management_cap as int;
    let t = spec_raw_target(supply, d) + spec_realloc_amount(
        spec_total_overflow(supply, infos),
        spec_total_available(supply, infos),
        spec_available_amount(supply, d),
    ) - spec_overflow_amount(supply, d);
    if t > cap {
        cap
    } else {
        t
    }
}

pub open spec fn spec_targets_seq(
    supply: u64,
    infos: Seq<DepositoryInfoForTargetRedeemableAmount>,
) -> Seq<int> {
    Seq::new(infos.len(), |i: int| spec_target_amount(supply, infos, i))
}

/// The inputs on which the target calculator succeeds.
pub open spec fn target_inputs_ok(
    redeemable_circulating_supply: u128,
    infos: Seq<DepositoryInfoForTargetRedeemableAmount>,
) -> bool {
    let supply = redeemable_circulating_supply as u64;
    &&& redeemable_circulating_supply <= u64::MAX
    &&& spec_weights_sum(infos) == BPS_POWER
    &&& forall|i: int|
        0 <= i < infos.len() ==> (#[trigger] infos[i]).redeemable_amount_under_management_cap
            <= u64::MAX
    &&& spec_total_overflow(supply, infos) <= u64::MAX
    &&& spec_total_available(supply, infos) <= u64::MAX
}

/// Computes each depository's target redeemable amount.
///
/// Succeeds exactly on the inputs of [`target_inputs_ok`]: the supply and
/// every cap must fit in 64 bits, the weights must sum to 10000 basis
/// points, and the summed overflow and spare room must fit in 64 bits. The
/// result holds, per depository, the amount of [`spec_target_amount`].
#[verifier::loop_isolation(false)]
pub fn calculate_depositories_target_redeemable_amount(
    redeemable_circulating_supply: u128,
    depositories_info: &Vec<DepositoryInfoForTargetRedeemableAmount>,
) -> (r: Result<Vec<u64>, XxusdError>)
    ensures
        r is Ok <==> target_inputs_ok(redeemable_circulating_supply, depositories_info@),
        r is Ok ==> r->Ok_0@.len() == depositories_info@.len(),
        r is Ok ==> forall|i: int|
            0 <= i < depositories_info@.len() ==> #[trigger] r->Ok_0@[i] == spec_target_amount(
                redeemable_circulating_supply as u64,
                depositories_info@,
                i,
            ),
        r is Ok ==> sum_seq(r->Ok_0@) <= sum_int(spec_caps_seq(depositories_info@)),
        redeemable_circulating_supply > u64::MAX ==> r == Err::<Vec<u64>, XxusdError>(
            XxusdError::Overflow,
        ),
        redeemable_circulating_supply <= u64::MAX && spec_weights_sum(depositories_info@)
            > u64::MAX ==> r == Err::<Vec<u64>, XxusdError>(XxusdError::MathOverflow),
        redeemable_circulating_supply <= u64::MAX && spec_weights_sum(depositories_info@)
            <= u64::MAX && spec_weights_sum(depositories_info@) != BPS_POWER ==> r == Err::<
            Vec<u64>,
            XxusdError,
        >(XxusdError::InvalidDepositoriesWeightBps),
        redeemable_circulating_supply <= u64::MAX && spec_weights_sum(depositories_info@)
            == BPS_POWER && (exists|i: int|
            0 <= i < depositories_info@.len() && (
            #[trigger] depositories_info@[i]).redeemable_amount_under_management_cap > u64::MAX)
            ==> r == Err::<Vec<u64>, XxusdError>(XxusdError::Overflow),
        redeemable_circulating_supply <= u64::MAX && spec_weights_sum(depositories_info@)
            == BPS_POWER && (forall|i: int|
            0 <= i < depositories_info@.len() ==> (
            #[trigger] depositories_info@[i]).redeemable_amount_under_management_cap <= u64::MAX)
            && (spec_total_overflow(redeemable_circulating_supply as u64, depositories_info@)
            > u64::MAX || spec_total_available(
            redeemable_circulating_supply as u64,
            depositories_info@,
        ) > u64::MAX) ==> r == Err::<Vec<u64>, XxusdError>(XxusdError::MathOverflow),
{
    let ghost infos = depositories_info@;
    let n = depositories_info.len();

    // The supply is carried at 64-bit precision; reject anything wider.
    let supply: u64 = match safe_u128_to_u64(redeemable_circulating_supply) {
        Ok(v) => v,
        Err(e) => {
            return Err(e);
        },
    };

    // Check that the weights add up to exactly 100%.
    let mut depositories_weights_bps: Vec<u64> = Vec::new();
    let mut i: usize = 0;
    while i < n
        invariant
            0 <= i <= n,
            n == infos.len(),
            infos == depositories_info@,
            depositories_weights_bps@.len() == i,
            forall|j: int|
                0 <= j < i ==> #[trigger] depositories_weights_bps@[j] == infos[j].weight_bps
                    as u64,
        decreases n - i,
    {
        depositories_weights_bps.push(depositories_info[i].weight_bps as u64);
        i = i + 1;
    }
    proof {
        lemma_sum_seq_as_int(depositories_weights_bps@, spec_weight_seq(infos));
        lemma_sum_seq_nonneg(depositories_weights_bps@);
    }
    let total_weight_bps = match calculate_depositories_sum_value(&depositories_weights_bps) {
        Ok(v) => v,
        Err(e) => {
            return Err(e);
        },
    };
    if total_weight_bps != BPS_POWER {
        return Err(XxusdError::InvalidDepositoriesWeightBps);
    }

    // Every weight is at most the 10000 total, so every raw target fits.
    proof {
        assert forall|j: int| 0 <= j < infos.len() implies (#[trigger] infos[j]).weight_bps
            <= BPS_POWER by {
            lemma_sum_int_elem(spec_weight_seq(infos), j);
        }
    }

    // Phase 1: raw targets from the declared weights.
    let mut depositories_raw_target_redeemable_amount: Vec<u64> = Vec::new();
    let mut i: usize = 0;
    while i < n
        invariant
            0 <= i <= n,
            n == infos.len(),
            infos == depositories_info@,
            forall|j: int|
                0 <= j < infos.len() ==> (#[trigger] infos[j]).weight_bps <= BPS_POWER,
            depositories_raw_target_redeemable_amount@.len() == i,
            forall|j: int|
                0 <= j < i ==> #[trigger] depositories_raw_target_redeemable_amount@[j]
                    == spec_raw_target(supply, infos[j]),
        decreases n - i,
    {
        proof {
            lemma_fraction_ceil_le_amount(
                supply as int,
                infos[i as int].weight_bps as int,
                BPS_POWER as int,
            );
        }
        let raw_target = match compute_amount_fraction_ceil(
            supply,
            depositories_info[i].weight_bps as u64,
            BPS_POWER,
        ) {
            Ok(v) => v,
            Err(e) => {
                proof {
                    assert(false);
                }
                return Err(e);
            },
        };
        depositories_raw_target_redeemable_amount.push(raw_target);
        i = i + 1;
    }

    // Phase 2: caps, overflow above the cap, spare room under it.
    let mut depositories_hard_cap_amount: Vec<u64> = Vec::new();
    let mut i: usize = 0;
    while i < n
        invariant
            0 <= i <= n,
            n == infos.len(),
            infos == depositories_info@,
            depositories_hard_cap_amount@.len() == i,
            forall|j: int|
                0 <= j < i ==> #[trigger] depositories_hard_cap_amount@[j]
                    == infos[j].redeemable_amount_under_management_cap as int,
        decreases n - i,
    {
        let cap = match safe_u128_to_u64(
            depositories_info[i].redeemable_amount_under_management_cap,
        ) {
            Ok(v) => v,
            Err(e) => {
                return Err(e);
            },
        };
        depositories_hard_cap_amount.push(cap);
        i = i + 1;
    }
    proof {
        assert forall|j: int| 0 <= j < infos.len() implies (
        #[trigger] infos[j]).redeemable_amount_under_management_cap <= u64::MAX by {
            assert(depositories_hard_cap_amount@[j]
                == infos[j].redeemable_amount_under_management_cap as int);
        }
    }

    let mut depositories_overflow_amount: Vec<u64> = Vec::new();
    let mut depositories_available_amount: Vec<u64> = Vec::new();
    let mut i: usize = 0;
    while i < n
        invariant
            0 <= i <= n,
            n == infos.len(),
            infos == depositories_info@,
            depositories_raw_target_redeemable_amount@.len() == n,
            depositories_hard_cap_amount@.len() == n,
            forall|j: int|
                0 <= j < n ==> #[trigger] depositories_raw_target_redeemable_amount@[j]
                    == spec_raw_target(supply, infos[j]),
            forall|j: int|
                0 <= j < n ==> #[trigger] depositories_hard_cap_amount@[j]
                    == infos[j].redeemable_amount_under_management_cap as int,
            depositories_overflow_amount@.len() == i,
            depositories_available_amount@.len() == i,
            forall|j: int|
                0 <= j < i ==> #[trigger] depositories_overflow_amount@[j]
                    == spec_overflow_amount(supply, infos[j]),
            forall|j: int|
                0 <= j < i ==> #[trigger] depositories_available_amount@[j]
                    == spec_available_amount(supply, infos[j]),
        decreases n - i,
    {
        let raw_target = depositories_raw_target_redeemable_amount[i];
        let hard_cap = depositories_hard_cap_amount[i];
        if raw_target > hard_cap {
            depositories_overflow_amount.push(raw_target - hard_cap);
            depositories_available_amount.push(0);
        } else if raw_target < hard_cap {
            depositories_overflow_amount.push(0);
            depositories_available_amount.push(hard_cap - raw_target);
        } else {
            depositories_overflow_amount.push(0);
            depositories_available_amount.push(0);
        }
        i = i + 1;
    }

    // Phase 3: combined overflow and combined spare room.
    proof {
        lemma_sum_seq_as_int(depositories_overflow_amount@, spec_overflow_seq(supply, infos));
        lemma_sum_seq_as_int(depositories_available_amount@, spec_available_seq(supply, infos));
        lemma_sum_seq_nonneg(depositories_overflow_amount@);
        lemma_sum_seq_nonneg(depositories_available_amount@);
    }
    let total_overflow_amount = match calculate_depositories_sum_value(
        &depositories_overflow_amount,
    ) {
        Ok(v) => v,
        Err(e) => {
            return Err(e);
        },
    };
    let total_available_amount = match calculate_depositories_sum_value(
        &depositories_available_amount,
    ) {
        Ok(v) => v,
        Err(e) => {
            return Err(e);
        },
    };

    // Phase 4: final target = raw target, plus a share of the combined
    // overflow proportional to this depository's spare room, minus its own
    // overflow, capped at the hard cap.
    let mut depositories_target_redeemable_amount: Vec<u64> = Vec::new();
    let mut i: usize = 0;
    while i < n
        invariant
            0 <= i <= n,
            n == infos.len(),
            infos == depositories_info@,
            depositories_raw_target_redeemable_amount@.len() == n,
            depositories_hard_cap_amount@.len() == n,
            depositories_overflow_amount@.len() == n,
            depositories_available_amount@.len() == n,
            forall|j: int|
                0 <= j < n ==> #[trigger] depositories_raw_target_redeemable_amount@[j]
                    == spec_raw_target(supply, infos[j]),
            forall|j: int|
                0 <= j < n ==> #[trigger] depositories_hard_cap_amount@[j]
                    == infos[j].redeemable_amount_under_management_cap as int,
            forall|j: int|
                0 <= j < n ==> #[trigger] depositories_overflow_amount@[j]
                    == spec_overflow_amount(supply, infos[j]),
            forall|j: int|
                0 <= j < n ==> #[trigger] depositories_available_amount@[j]
                    == spec_available_amount(supply, infos[j]),
            total_overflow_amount == spec_total_overflow(supply, infos),
            total_available_amount == spec_total_available(supply, infos),
            depositories_target_redeemable_amount@.len() == i,
            forall|j: int|
                0 <= j < i ==> #[trigger] depositories_target_redeemable_amount@[j]
                    == spec_target_amount(supply, infos, j),
        decreases n - i,
    {
        let raw_target = depositories_raw_target_redeemable_amount[i];
        let hard_cap = depositories_hard_cap_amount[i];
        let own_overflow = depositories_overflow_amount[i];
        let own_available = depositories_available_amount[i];

        let overflow_amount_reallocated: u64 = if total_available_amount > 0 {
            // Reallocate no more than the room that actually exists.
            let total_amount_reallocatable = if total_overflow_amount < total_available_amount {
                total_overflow_amount
            } else {
                total_available_amount
            };
            proof {
                lemma_fraction_ceil_le_amount(
                    own_available as int,
                    total_amount_reallocatable as int,
                    total_available_amount as int,
                );
                assert(own_available as int * total_amount_reallocatable as int
                    == total_amount_reallocatable as int * own_available as int)
                    by (nonlinear_arith);
            }
            match compute_amount_fraction_ceil(
                total_amount_reallocatable,
                own_available,
                total_available_amount,
            ) {
                Ok(v) => v,
                Err(e) => {
                    proof {
                        assert(false);
                    }
                    return Err(e);
                },
            }
        } else {
            0
        };
        proof {
            if total_available_amount > 0 && own_available == 0 {
                lemma_pos_div_ceil_facts(0, total_available_amount as int);
                assert(min_int(
                    total_overflow_amount as int,
                    total_available_amount as int,
                ) * 0 == 0) by (nonlinear_arith);
            }
        }
        // Own overflow never exceeds the raw target, and the reallocated
        // share never exceeds the spare room, so this arithmetic stays in
        // range.
        let uncapped = raw_target + overflow_amount_reallocated - own_overflow;
        let final_target = if uncapped > hard_cap {
            hard_cap
        } else {
            uncapped
        };
        depositories_target_redeemable_amount.push(final_target);
        i = i + 1;
    }

    proof {
        lemma_targets_within_capacity(supply, infos);
        lemma_sum_seq_as_int(
            depositories_target_redeemable_amount@,
            spec_targets_seq(supply, infos),
        );
    }
    Ok(depositories_target_redeemable_amount)
}

/// The depositories' caps, as unbounded integers.
pub open spec fn spec_caps_seq(infos: Seq<DepositoryInfoForTargetRedeemableAmount>) -> Seq<
    int,
> {
    infos.map_values(
        |d: DepositoryInfoForTargetRedeemableAmount| d.redeemable_amount_under_management_cap
            as int,
    )
}

pub open spec fn spec_raw_seq(
    supply: u64,
    infos: Seq<DepositoryInfoForTargetRedeemableAmount>,
) -> Seq<int> {
    infos.map_values(|d: DepositoryInfoForTargetRedeemableAmount| spec_raw_target(supply, d))
}

pub open spec fn spec_realloc_seq(
    supply: u64,
    infos: Seq<DepositoryInfoForTargetRedeemableAmount>,
) -> Seq<int> {
    infos.map_values(
        |d: DepositoryInfoForTargetRedeemableAmount| spec_realloc_amount(
            spec_total_overflow(supply, infos),
            spec_total_available(supply, infos),
            spec_available_amount(supply, d),
        ),
    )
}

proof fn lemma_totals_nonneg(supply: u64, infos: Seq<DepositoryInfoForTargetRedeemableAmount>)
    ensures
        spec_total_overflow(supply, infos) >= 0,
        spec_total_available(supply, infos) >= 0,
{
    assert forall|i: int| 0 <= i < infos.len() implies #[trigger] spec_overflow_seq(
        supply,
        infos,
    )[i] >= 0 by {}
    assert forall|i: int| 0 <= i < infos.len() implies #[trigger] spec_available_seq(
        supply,
        infos,
    )[i] >= 0 by {}
    lemma_sum_int_nonneg(spec_overflow_seq(supply, infos));
    lemma_sum_int_nonneg(spec_available_seq(supply, infos));
}

/// The cap clamp in the final step is in fact never exercised: the
/// reallocated share never exceeds a depository's spare room, so every
/// target equals raw target plus reallocated share minus own overflow.
pub proof fn lemma_target_unclamped(
    supply: u64,
    infos: Seq<DepositoryInfoForTargetRedeemableAmount>,
    i: int,
)
    requires
        0 <= i < infos.len(),
    ensures
        spec_target_amount(supply, infos, i) == spec_raw_target(supply, infos[i])
            + spec_realloc_amount(
            spec_total_overflow(supply, infos),
            spec_total_available(supply, infos),
            spec_available_amount(supply, infos[i]),
        ) - spec_overflow_amount(supply, infos[i]),
        0 <= spec_target_amount(supply, infos, i),
        spec_target_amount(supply, infos, i) <= infos[i].redeemable_amount_under_management_cap
            as int,
        0 <= spec_realloc_amount(
            spec_total_overflow(supply, infos),
            spec_total_available(supply, infos),
            spec_available_amount(supply, infos[i]),
        ) <= spec_available_amount(supply, infos[i]),
{
    let d = infos[i];
    let cap = d.redeemable_amount_under_management_cap as int;
    let raw = spec_raw_target(supply, d);
    let over = spec_overflow_amount(supply, d);
    let avail = spec_available_amount(supply, d);
    let to = spec_total_overflow(supply, infos);
    let ta = spec_total_available(supply, infos);
    let re = spec_realloc_amount(to, ta, avail);
    lemma_totals_nonneg(supply, infos);
    assert(supply as int * d.weight_bps as int >= 0) by (nonlinear_arith);
    lemma_pos_div_ceil_facts(supply as int * d.weight_bps as int, BPS_POWER as int);
    assert(spec_available_seq(supply, infos)[i] == avail);
    assert forall|j: int| 0 <= j < infos.len() implies #[trigger] spec_available_seq(
        supply,
        infos,
    )[j] >= 0 by {}
    lemma_sum_int_elem(spec_available_seq(supply, infos), i);
    if ta > 0 {
        let m = min_int(to, ta);
        lemma_fraction_ceil_le_amount(avail, m, ta);
        assert(m * avail == avail * m) by (nonlinear_arith);
        if avail == 0 {
            assert(m * avail == 0) by (nonlinear_arith)
                requires
                    avail == 0,
            ;
            lemma_pos_div_ceil_facts(0, ta);
        }
    }
}

/// No target ever exceeds its depository's cap, so the targets sum to at
/// most the combined capacity, whatever the inputs.
pub proof fn lemma_targets_within_capacity(
    supply: u64,
    infos: Seq<DepositoryInfoForTargetRedeemableAmount>,
)
    ensures
        forall|i: int|
            0 <= i < infos.len() ==> #[trigger] spec_target_amount(supply, infos, i)
                <= infos[i].redeemable_amount_under_management_cap as int,
        sum_int(spec_targets_seq(supply, infos)) <= sum_int(spec_caps_seq(infos)),
{
    assert forall|i: int| 0 <= i < infos.len() implies #[trigger] spec_target_amount(
        supply,
        infos,
        i,
    ) <= infos[i].redeemable_amount_under_management_cap as int by {
        lemma_target_unclamped(supply, infos, i);
    }
    assert forall|i: int|
        0 <= i < infos.len() implies #[trigger] spec_targets_seq(supply, infos)[i]
        <= spec_caps_seq(infos)[i] by {
        lemma_target_unclamped(supply, infos, i);
    }
    lemma_sum_int_le(spec_targets_seq(supply, infos), spec_caps_seq(infos));
}

/// The raw targets over-cover the supply by at most one unit per
/// depository: their sum lies in `[supply, supply + n - 1]`.
pub proof fn lemma_raw_targets_cover_supply(
    supply: u64,
    infos: Seq<DepositoryInfoForTargetRedeemableAmount>,
)
    requires
        spec_weights_sum(infos) == BPS_POWER as int,
    ensures
        infos.len() >= 1,
        supply <= sum_int(spec_raw_seq(supply, infos)),
        sum_int(spec_raw_seq(supply, infos)) <= supply + infos.len() - 1,
{
    let weights = spec_weight_seq(infos);
    assert(spec_raw_seq(supply, infos) =~= ceil_products_seq(
        supply as int,
        BPS_POWER as int,
        weights,
    ));
    assert forall|i: int| 0 <= i < weights.len() implies #[trigger] weights[i] >= 0 by {}
    lemma_sum_ceil_products(supply as int, BPS_POWER as int, weights);
    lemma_pos_div_ceil_exact(supply as int, BPS_POWER as int);
}

/// Conservation: when the combined caps leave room for the supply plus the
/// worst-case rounding excess, the final targets cover the whole supply,
/// and they never exceed the combined capacity.
pub proof fn lemma_targets_cover_supply(
    supply: u64,
    infos: Seq<DepositoryInfoForTargetRedeemableAmount>,
)
    requires
        spec_weights_sum(infos) == BPS_POWER as int,
        sum_int(spec_caps_seq(infos)) >= supply + infos.len() - 1,
    ensures
        supply <= sum_int(spec_targets_seq(supply, infos)),
        sum_int(spec_targets_seq(supply, infos)) <= sum_int(spec_caps_seq(infos)),
{
    let raws = spec_raw_seq(supply, infos);
    let overs = spec_overflow_seq(supply, infos);
    let avails = spec_available_seq(supply, infos);
    let caps = spec_caps_seq(infos);
    let reallocs = spec_realloc_seq(supply, infos);
    let targets = spec_targets_seq(supply, infos);
    let to = spec_total_overflow(supply, infos);
    let ta = spec_total_available(supply, infos);
    lemma_totals_nonneg(supply, infos);
    lemma_raw_targets_cover_supply(supply, infos);
    // A depository's overflow is its raw target plus its spare room minus
    // its cap, so the totals satisfy `to - ta == sum(raws) - sum(caps)`.
    assert forall|i: int|
        0 <= i < infos.len() implies #[trigger] overs[i] == raws[i] + avails[i] - caps[i] by {}
    lemma_sum_int_linear(overs, raws, avails, caps);
    assert(to <= ta);
    // Every target is exactly raw + reallocated - own overflow.
    assert forall|i: int|
        0 <= i < infos.len() implies #[trigger] targets[i] == raws[i] + reallocs[i]
        - overs[i] by {
        lemma_target_unclamped(supply, infos, i);
    }
    lemma_sum_int_linear(targets, raws, reallocs, overs);
    // The reallocated shares sum to at least the redistributable overflow.
    if ta > 0 {
        assert(reallocs =~= ceil_products_seq(min_int(to, ta), ta, avails));
        assert forall|i: int| 0 <= i < avails.len() implies #[trigger] avails[i] >= 0 by {}
        lemma_sum_ceil_products(min_int(to, ta), ta, avails);
        lemma_pos_div_ceil_exact(min_int(to, ta), ta);
        assert(sum_int(reallocs) >= min_int(to, ta));
    } else {
        assert forall|i: int| 0 <= i < reallocs.len() implies #[trigger] reallocs[i] == 0 by {}
        lemma_sum_int_zero(reallocs);
    }
    lemma_targets_within_capacity(supply, infos);
}

/// When no depository's raw target exceeds its cap, nothing is
/// redistributed and the targets reproduce the supply to within one unit
/// per extra depository.
pub proof fn lemma_targets_sum_near_supply(
    supply: u64,
    infos: Seq<DepositoryInfoForTargetRedeemableAmount>,
)
    requires
        spec_weights_sum(infos) == BPS_POWER as int,
        forall|i: int|
            0 <= i < infos.len() ==> #[trigger] spec_raw_target(supply, infos[i])
                <= infos[i].redeemable_amount_under_management_cap as int,
    ensures
        supply <= sum_int(spec_targets_seq(supply, infos)),
        sum_int(spec_targets_seq(supply, infos)) <= supply + infos.len() - 1,
{
    let raws = spec_raw_seq(supply, infos);
    let overs = spec_overflow_seq(supply, infos);
    let targets = spec_targets_seq(supply, infos);
    let to = spec_total_overflow(supply, infos);
    let ta = spec_total_available(supply, infos);
    lemma_totals_nonneg(supply, infos);
    lemma_raw_targets_cover_supply(supply, infos);
    assert forall|i: int| 0 <= i < infos.len() implies #[trigger] overs[i] == 0 by {}
    lemma_sum_int_zero(overs);
    assert(to == 0);
    assert forall|i: int| 0 <= i < infos.len() implies #[trigger] targets[i] == raws[i] by {
        lemma_target_unclamped(supply, infos, i);
        let avail = spec_available_amount(supply, infos[i]);
        if ta > 0 {
            assert(min_int(to, ta) == 0);
            assert(min_int(to, ta) * avail == 0) by (nonlinear_arith)
                requires
                    min_int(to, ta) == 0,
            ;
            lemma_pos_div_ceil_facts(0, ta);
        }
    }
    assert(targets =~= raws);
}

/// Determinism: the calculator's contract pins each entry of its output
/// to a function of the inputs alone, so two runs on identical inputs
/// yield identical target vectors.
pub proof fn lemma_target_calculation_deterministic(
    supply: u64,
    infos: Seq<DepositoryInfoForTargetRedeemableAmount>,
    r1: Seq<u64>,
    r2: Seq<u64>,
)
    requires
        r1.len() == infos.len(),
        forall|i: int|
            0 <= i < infos.len() ==> #[trigger] r1[i] == spec_target_amount(supply, infos, i),
        r2.len() == infos.len(),
        forall|i: int|
            0 <= i < infos.len() ==> #[trigger] r2[i] == spec_target_amount(supply, infos, i),
    ensures
        r1 == r2,
{
    assert(r1 =~= r2);
}

/// A depository with a zero weight has a zero raw target: it receives only
/// a share of the redistributed overflow, proportional to its spare room,
/// and nothing at all when it has no room.
pub proof fn lemma_zero_weight_target(
    supply: u64,
    infos: Seq<DepositoryInfoForTargetRedeemableAmount>,
    i: int,
)
    requires
        0 <= i < infos.len(),
        infos[i].weight_bps == 0,
    ensures
        spec_raw_target(supply, infos[i]) == 0,
        spec_target_amount(supply, infos, i) == spec_realloc_amount(
            spec_total_overflow(supply, infos),
            spec_total_available(supply, infos),
            infos[i].redeemable_amount_under_management_cap as int,
        ),
        infos[i].redeemable_amount_under_management_cap == 0 ==> spec_target_amount(
            supply,
            infos,
            i,
        ) == 0,
{
    assert(supply as int * (infos[i].weight_bps as int) == 0) by (nonlinear_arith)
        requires
            infos[i].weight_bps as int == 0,
    ;
    lemma_pos_div_ceil_facts(0, BPS_POWER as int);
    lemma_target_unclamped(supply, infos, i);
}

} // verus!
