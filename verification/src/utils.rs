//! Pure computation helpers: checked arithmetic, proportional splits, and
//! the per-depository allocation calculators.

pub mod calculate_depositories_mint_collateral_amount;
pub mod calculate_depositories_redeemable_amount;
pub mod calculate_depositories_target_redeemable_amount;
pub mod maths;
pub mod validate_collateral_amount;
