//! Mint allocation: a requested mint amount is split across the
//! depositories proportionally to each one's headroom below its target.
//! Floor rounding guarantees the allocations never sum to more than the
//! request; the residual of at most one unit per extra depository is
//! deliberately not redistributed, since under-minting is safe and
//! over-minting is not.

use vstd::arithmetic::div_mod::lemma_div_multiples_vanish;
use vstd::prelude::*;

use crate::error::XxusdError;
use crate::state::safe_u128_to_u64;
use crate::utils::maths::{
    calculate_depositories_sum_value, compute_amount_less_fraction_floor, floor_products_seq,
    fraction_floor, lemma_fraction_floor_le_amount, lemma_sum_floor_products,
    lemma_sum_int_elem, lemma_sum_int_le, lemma_sum_seq_as_int, lemma_sum_seq_nonneg, sum_int,
    sum_seq,
};
use crate::ROUTER_DEPOSITORIES_COUNT;

verus! {

/// The per-depository inputs of the mint calculator.
pub struct DepositoryInfoForMintCollateralAmount {
    /// The depository's target managed amount.
    pub target_redeemable_amount: u64,
    /// The amount the depository currently manages.
    pub redeemable_amount_under_management: u128,
}

/// How much a depository can still take before reaching its target.
pub open spec fn spec_mintable_amount(d: DepositoryInfoForMintCollateralAmount) -> int {
    let target = d.target_redeemable_amount as int;
    let current = d.redeemable_amount_under_management as int;
    if target > current {
        target - current
    } else {
        0
    }
}

pub open spec fn spec_mintable_seq(infos: Seq<DepositoryInfoForMintCollateralAmount>) -> Seq<
    int,
> {
    infos.map_values(|d: DepositoryInfoForMintCollateralAmount| spec_mintable_amount(d))
}

pub open spec fn spec_total_mintable(infos: Seq<DepositoryInfoForMintCollateralAmount>) -> int {
    sum_int(spec_mintable_seq(infos))
}

/// The slice of the requested amount a depository receives: its headroom
/// share, rounded down.
pub open spec fn spec_mint_amount(
    requested: u64,
    infos: Seq<DepositoryInfoForMintCollateralAmount>,
    i: int,
) -> int {
    fraction_floor(requested as int, spec_mintable_amount(infos[i]), spec_total_mintable(infos))
}

pub open spec fn spec_mint_seq(
    requested: u64,
    infos: Seq<DepositoryInfoForMintCollateralAmount>,
) -> Seq<int> {
    Seq::new(infos.len(), |i: int| spec_mint_amount(requested, infos, i))
}

/// The inputs on which the mint calculator succeeds.
pub open spec fn mint_inputs_ok(
    requested: u64,
    infos: Seq<DepositoryInfoForMintCollateralAmount>,
) -> bool {
    &&& infos.len() == ROUTER_DEPOSITORIES_COUNT
    &&& forall|i: int|
        0 <= i < infos.len() ==> (#[trigger] infos[i]).redeemable_amount_under_management
            <= u64::MAX
    &&& spec_total_mintable(infos) <= u64::MAX
    &&& spec_total_mintable(infos) >= requested
    &&& spec_total_mintable(infos) > 0
}

/// Computes, per depository, the slice of the requested mint it takes.
///
/// Succeeds exactly on the inputs of [`mint_inputs_ok`]: the configured
/// depository count, managed amounts and combined headroom that fit in 64
/// bits, and a combined headroom that is positive and covers the request;
/// a request beyond the combined headroom is refused rather than scaled
/// down. The result holds, per depository, the amount of
/// [`spec_mint_amount`].
#[verifier::loop_isolation(false)]
pub fn calculate_depositories_mint_collateral_amount(
    requested_mint_collateral_amount: u64,
    depositories_info: &Vec<DepositoryInfoForMintCollateralAmount>,
) -> (r: Result<Vec<u64>, XxusdError>)
    ensures
        r is Ok <==> mint_inputs_ok(requested_mint_collateral_amount, depositories_info@),
        r is Ok ==> r->Ok_0@.len() == depositories_info@.len(),
        r is Ok ==> forall|i: int|
            0 <= i < depositories_info@.len() ==> #[trigger] r->Ok_0@[i] == spec_mint_amount(
                requested_mint_collateral_amount,
                depositories_info@,
                i,
            ),
        r is Ok ==> sum_seq(r->Ok_0@) <= requested_mint_collateral_amount,
        depositories_info@.len() != ROUTER_DEPOSITORIES_COUNT ==> r == Err::<
            Vec<u64>,
            XxusdError,
        >(XxusdError::InvalidDepositoriesVector),
        depositories_info@.len() == ROUTER_DEPOSITORIES_COUNT && (exists|i: int|
            0 <= i < depositories_info@.len() && (
            #[trigger] depositories_info@[i]).redeemable_amount_under_management > u64::MAX)
            ==> r == Err::<Vec<u64>, XxusdError>(XxusdError::Overflow),
        ({
            let fits = depositories_info@.len() == ROUTER_DEPOSITORIES_COUNT && (forall|i: int|
                0 <= i < depositories_info@.len() ==> (
                #[trigger] depositories_info@[i]).redeemable_amount_under_management <= u64::MAX);
            let total = spec_total_mintable(depositories_info@);
            &&& fits && total > u64::MAX ==> r == Err::<Vec<u64>, XxusdError>(
                XxusdError::MathOverflow,
            )
            &&& fits && total <= u64::MAX && total < requested_mint_collateral_amount ==> r
                == Err::<Vec<u64>, XxusdError>(
                XxusdError::DepositoriesTargetRedeemableAmountReached,
            )
            &&& fits && total <= u64::MAX && total >= requested_mint_collateral_amount && total
                == 0 ==> r == Err::<Vec<u64>, XxusdError>(XxusdError::DivisionByZero)
        }),
{
    let ghost infos = depositories_info@;
    let n = depositories_info.len();
    if n != ROUTER_DEPOSITORIES_COUNT {
        return Err(XxusdError::InvalidDepositoriesVector);
    }

    // Phase 1: per-depository headroom below the target.
    let mut depositories_maximum_mintable_collateral_amount: Vec<u64> = Vec::new();
    let mut i: usize = 0;
    while i < n
        invariant
            0 <= i <= n,
            depositories_maximum_mintable_collateral_amount@.len() == i,
            forall|j: int|
                0 <= j < i ==> #[trigger] depositories_maximum_mintable_collateral_amount@[j]
                    == spec_mintable_amount(infos[j]),
            forall|j: int|
                0 <= j < i ==> (#[trigger] infos[j]).redeemable_amount_under_management
                    <= u64::MAX,
        decreases n - i,
    {
        let current = match safe_u128_to_u64(
            depositories_info[i].redeemable_amount_under_management,
        ) {
            Ok(v) => v,
            Err(e) => {
                return Err(e);
            },
        };
        let target = depositories_info[i].target_redeemable_amount;
        if target <= current {
            depositories_maximum_mintable_collateral_amount.push(0);
        } else {
            depositories_maximum_mintable_collateral_amount.push(target - current);
        }
        i = i + 1;
    }

    // Phase 2: the combined headroom must cover the request.
    proof {
        lemma_sum_seq_as_int(
            depositories_maximum_mintable_collateral_amount@,
            spec_mintable_seq(infos),
        );
        lemma_sum_seq_nonneg(depositories_maximum_mintable_collateral_amount@);
    }
    let total_maximum_mintable_collateral_amount = match calculate_depositories_sum_value(
        &depositories_maximum_mintable_collateral_amount,
    ) {
        Ok(v) => v,
        Err(e) => {
            return Err(e);
        },
    };
    if total_maximum_mintable_collateral_amount < requested_mint_collateral_amount {
        return Err(XxusdError::DepositoriesTargetRedeemableAmountReached);
    }
    if total_maximum_mintable_collateral_amount == 0 {
        return Err(XxusdError::DivisionByZero);
    }

    // Phase 3: each depository takes its headroom share of the request,
    // rounded down.
    let mut depositories_mint_collateral_amount: Vec<u64> = Vec::new();
    let mut i: usize = 0;
    while i < n
        invariant
            0 <= i <= n,
            depositories_mint_collateral_amount@.len() == i,
            forall|j: int|
                0 <= j < i ==> #[trigger] depositories_mint_collateral_amount@[j]
                    == spec_mint_amount(requested_mint_collateral_amount, infos, j),
        decreases n - i,
    {
        let depository_mintable = depositories_maximum_mintable_collateral_amount[i];
        proof {
            lemma_sum_int_elem(spec_mintable_seq(infos), i as int);
            lemma_fraction_floor_le_amount(
                requested_mint_collateral_amount as int,
                depository_mintable as int,
                total_maximum_mintable_collateral_amount as int,
            );
        }
        let other_depositories_maximum_mintable_collateral_amount =
            total_maximum_mintable_collateral_amount - depository_mintable;
        let mint_amount = match compute_amount_less_fraction_floor(
            requested_mint_collateral_amount,
            other_depositories_maximum_mintable_collateral_amount,
            total_maximum_mintable_collateral_amount,
        ) {
            Ok(v) => v,
            Err(e) => {
                proof {
                    assert(false);
                }
                return Err(e);
            },
        };
        depositories_mint_collateral_amount.push(mint_amount);
        i = i + 1;
    }

    proof {
        lemma_mint_allocation_bounds(requested_mint_collateral_amount, infos);
        lemma_sum_seq_as_int(
            depositories_mint_collateral_amount@,
            spec_mint_seq(requested_mint_collateral_amount, infos),
        );
    }
    Ok(depositories_mint_collateral_amount)
}

/// Determinism: the calculator's contract pins each entry of its output
/// to a function of the inputs alone, so two runs on identical inputs
/// yield identical allocation vectors.
pub proof fn lemma_mint_calculation_deterministic(
    requested: u64,
    infos: Seq<DepositoryInfoForMintCollateralAmount>,
    r1: Seq<u64>,
    r2: Seq<u64>,
)
    requires
        r1.len() == infos.len(),
        forall|i: int|
            0 <= i < infos.len() ==> #[trigger] r1[i] == spec_mint_amount(requested, infos, i),
        r2.len() == infos.len(),
        forall|i: int|
            0 <= i < infos.len() ==> #[trigger] r2[i] == spec_mint_amount(requested, infos, i),
    ensures
        r1 == r2,
{
    assert(r1 =~= r2);
}

/// Non-overshoot: on any input the mint calculator accepts, the
/// allocations stay within each depository's headroom and their sum never
/// exceeds the requested amount, falling short of it by at most one unit
/// per extra depository.
pub proof fn lemma_mint_allocation_bounds(
    requested: u64,
    infos: Seq<DepositoryInfoForMintCollateralAmount>,
)
    requires
        spec_total_mintable(infos) >= requested,
        spec_total_mintable(infos) > 0,
    ensures
        forall|i: int|
            0 <= i < infos.len() ==> 0 <= #[trigger] spec_mint_amount(requested, infos, i)
                <= spec_mintable_amount(infos[i]),
        sum_int(spec_mint_seq(requested, infos)) <= requested,
        requested - (if infos.len() > 0 {
            infos.len() - 1
        } else {
            0
        }) <= sum_int(spec_mint_seq(requested, infos)),
{
    let total = spec_total_mintable(infos);
    let parts = spec_mintable_seq(infos);
    assert forall|i: int| 0 <= i < parts.len() implies #[trigger] parts[i] >= 0 by {}
    assert forall|i: int|
        0 <= i < infos.len() implies 0 <= #[trigger] spec_mint_amount(requested, infos, i)
        <= spec_mintable_amount(infos[i]) by {
        lemma_sum_int_elem(parts, i);
        lemma_fraction_floor_le_amount(spec_mintable_amount(infos[i]), requested as int, total);
        assert(requested as int * spec_mintable_amount(infos[i]) == spec_mintable_amount(
            infos[i],
        ) * requested as int) by (nonlinear_arith);
    }
    assert(spec_mint_seq(requested, infos) =~= floor_products_seq(requested as int, total, parts));
    lemma_sum_floor_products(requested as int, total, parts);
    lemma_div_multiples_vanish(requested as int, total);
    assert(requested as int * total == total * requested as int) by (nonlinear_arith);
}

} // verus!
