//! The depository record: the amount a reserve manages, its hard cap and
//! its fee configuration.

use vstd::prelude::*;

verus! {

/// One backing reserve's accounting state.
pub struct KaminoDepository {
    /// The amount the depository currently manages.
    pub redeemable_amount_under_management: u128,
    /// Hard ceiling on the amount the depository may manage.
    pub redeemable_amount_under_management_cap: u128,
    pub minting_fee_in_bps: u16,
    pub redeeming_fee_in_bps: u16,
}

impl KaminoDepository {
    /// Resets the depository to an empty position under the given cap and
    /// fees.
    pub fn initialize(
        &mut self,
        redeemable_amount_under_management_cap: u128,
        minting_fee_in_bps: u16,
        redeeming_fee_in_bps: u16,
    )
        ensures
            final(self).redeemable_amount_under_management == 0,
            final(self).redeemable_amount_under_management_cap
                == redeemable_amount_under_management_cap,
            final(self).minting_fee_in_bps == minting_fee_in_bps,
            final(self).redeeming_fee_in_bps == redeeming_fee_in_bps,
    {
        self.redeemable_amount_under_management = 0;
        self.redeemable_amount_under_management_cap = redeemable_amount_under_management_cap;
        self.minting_fee_in_bps = minting_fee_in_bps;
        self.redeeming_fee_in_bps = redeeming_fee_in_bps;
    }
}

} // verus!
