//! The controller record: the circulating and locked supply counters and
//! the product price list, with the pure update rules the instruction
//! layer applies to them.

use vstd::prelude::*;

use crate::error::XxusdError;
use crate::state::{safe_u128_to_u64, safe_u64_to_u128, Amount};

verus! {

/// The protocol-wide state the core computes against. Storage keys and
/// account plumbing live with the caller.
pub struct Controller {
    pub redeemable_circulating_supply: u64,
    pub kamino_depository_weight_bps: u16,
    pub is_frozen: bool,
    pub product_prices: Vec<(u64, Amount)>,
    pub locked_xxusd_supply: u64,
    pub max_products: u64,
}

/// The index of the first price entry for `product_id`, or `prices.len()`
/// when there is none.
pub open spec fn spec_find_product(prices: Seq<(u64, Amount)>, product_id: u64, i: int) -> int
    decreases prices.len() - i,
{
    if i < 0 || i >= prices.len() {
        prices.len() as int
    } else if prices[i].0 == product_id {
        i
    } else {
        spec_find_product(prices, product_id, i + 1)
    }
}

pub proof fn lemma_find_product_props(prices: Seq<(u64, Amount)>, product_id: u64, i: int)
    requires
        0 <= i <= prices.len(),
    ensures
        i <= spec_find_product(prices, product_id, i) <= prices.len(),
        spec_find_product(prices, product_id, i) < prices.len() ==> prices[spec_find_product(
            prices,
            product_id,
            i,
        )].0 == product_id,
        forall|j: int| i <= j < spec_find_product(prices, product_id, i) ==> prices[j].0
            != product_id,
    decreases prices.len() - i,
{
    if i < prices.len() && prices[i].0 != product_id {
        lemma_find_product_props(prices, product_id, i + 1);
    }
}

impl Controller {
    /// Resets the controller to its configured starting state: empty
    /// supplies, the full weight on the single depository, unfrozen, no
    /// product prices.
    pub fn initialize(&mut self, max_products: u64)
        ensures
            final(self).redeemable_circulating_supply == 0,
            final(self).kamino_depository_weight_bps == 10000,
            final(self).is_frozen == false,
            final(self).product_prices@.len() == 0,
            final(self).locked_xxusd_supply == 0,
            final(self).max_products == max_products,
    {
        self.redeemable_circulating_supply = 0;
        self.kamino_depository_weight_bps = 10000;
        self.is_frozen = false;
        self.product_prices = Vec::new();
        self.locked_xxusd_supply = 0;
        self.max_products = max_products;
    }

    /// The circulating supply, widened for use in allocation math.
    pub fn get_redeemable_circulating_supply(&self) -> (r: u128)
        ensures
            r == self.redeemable_circulating_supply as u128,
    {
        safe_u64_to_u128(self.redeemable_circulating_supply)
    }

    /// Stores a new circulating supply; fails if it does not fit the
    /// 64-bit counter.
    pub fn set_redeemable_circulating_supply(&mut self, amount: u128) -> (r: Result<
        (),
        XxusdError,
    >)
        ensures
            amount <= u64::MAX ==> r == Ok::<(), XxusdError>(())
                && final(self).redeemable_circulating_supply == amount as u64,
            amount > u64::MAX ==> r == Err::<(), XxusdError>(XxusdError::Overflow)
                && *final(self) == *old(self),
            final(self).locked_xxusd_supply == old(self).locked_xxusd_supply,
            final(self).product_prices == old(self).product_prices,
            final(self).is_frozen == old(self).is_frozen,
            final(self).max_products == old(self).max_products,
            final(self).kamino_depository_weight_bps == old(self).kamino_depository_weight_bps,
    {
        match safe_u128_to_u64(amount) {
            Ok(v) => {
                self.redeemable_circulating_supply = v;
                Ok(())
            },
            Err(e) => Err(e),
        }
    }

    /// The locked supply, widened for use in allocation math.
    pub fn get_locked_xxusd_supply(&self) -> (r: u128)
        ensures
            r == self.locked_xxusd_supply as u128,
    {
        safe_u64_to_u128(self.locked_xxusd_supply)
    }

    /// Stores a new locked supply; fails if it does not fit the 64-bit
    /// counter.
    pub fn set_locked_xxusd_supply(&mut self, amount: u128) -> (r: Result<(), XxusdError>)
        ensures
            amount <= u64::MAX ==> r == Ok::<(), XxusdError>(())
                && final(self).locked_xxusd_supply == amount as u64,
            amount > u64::MAX ==> r == Err::<(), XxusdError>(XxusdError::Overflow)
                && *final(self) == *old(self),
            final(self).redeemable_circulating_supply == old(self).redeemable_circulating_supply,
            final(self).product_prices == old(self).product_prices,
            final(self).is_frozen == old(self).is_frozen,
            final(self).max_products == old(self).max_products,
            final(self).kamino_depository_weight_bps == old(self).kamino_depository_weight_bps,
    {
        match safe_u128_to_u64(amount) {
            Ok(v) => {
                self.locked_xxusd_supply = v;
                Ok(())
            },
            Err(e) => Err(e),
        }
    }

    /// Sets or updates one product's price. A zero price or a zero product
    /// id is rejected; a new product is refused once the list is full.
    #[verifier::loop_isolation(false)]
    pub fn set_product_price(&mut self, product_id: u64, price: Amount) -> (r: Result<
        (),
        XxusdError,
    >)
        ensures
            ({
                let k = spec_find_product(old(self).product_prices@, product_id, 0);
                let n = old(self).product_prices@.len() as int;
                &&& price.0 == 0 ==> r == Err::<(), XxusdError>(XxusdError::InvalidProductPrice)
                    && *final(self) == *old(self)
                &&& price.0 > 0 && product_id == 0 ==> r == Err::<(), XxusdError>(
                    XxusdError::InvalidProductId,
                ) && *final(self) == *old(self)
                &&& price.0 > 0 && product_id > 0 && k < n ==> r == Ok::<(), XxusdError>(())
                    && final(self).product_prices@ == old(self).product_prices@.update(
                    k,
                    (product_id, price),
                )
                &&& price.0 > 0 && product_id > 0 && k == n && n < old(self).max_products ==> r
                    == Ok::<(), XxusdError>(())
                    && final(self).product_prices@ == old(self).product_prices@.push(
                    (product_id, price),
                )
                &&& price.0 > 0 && product_id > 0 && k == n && n >= old(self).max_products ==> r
                    == Err::<(), XxusdError>(XxusdError::MaxProductsReached) && *final(self)
                    == *old(self)
            }),
            final(self).redeemable_circulating_supply == old(self).redeemable_circulating_supply,
            final(self).locked_xxusd_supply == old(self).locked_xxusd_supply,
            final(self).is_frozen == old(self).is_frozen,
            final(self).max_products == old(self).max_products,
            final(self).kamino_depository_weight_bps == old(self).kamino_depository_weight_bps,
    {
        if price.value() == 0 {
            return Err(XxusdError::InvalidProductPrice);
        }
        if product_id == 0 {
            return Err(XxusdError::InvalidProductId);
        }
        let ghost prices0 = self.product_prices@;
        let n = self.product_prices.len();
        let mut i: usize = 0;
        while i < n
            invariant
                0 <= i <= n,
                n == prices0.len(),
                *self == *old(self),
                spec_find_product(prices0, product_id, 0) == spec_find_product(
                    prices0,
                    product_id,
                    i as int,
                ),
            decreases n - i,
        {
            if self.product_prices[i].0 == product_id {
                self.product_prices[i] = (product_id, price);
                return Ok(());
            }
            i = i + 1;
        }
        if (self.product_prices.len() as u64) < self.max_products {
            self.product_prices.push((product_id, price));
            Ok(())
        } else {
            Err(XxusdError::MaxProductsReached)
        }
    }

    /// Looks a product's price up by id.
    #[verifier::loop_isolation(false)]
    pub fn get_product_price(&self, product_id: u64) -> (r: Result<Amount, XxusdError>)
        ensures
            ({
                let k = spec_find_product(self.product_prices@, product_id, 0);
                let n = self.product_prices@.len() as int;
                &&& k < n ==> r == Ok::<Amount, XxusdError>(self.product_prices@[k].1)
                &&& k == n ==> r == Err::<Amount, XxusdError>(XxusdError::ProductNotFound)
            }),
    {
        let ghost prices0 = self.product_prices@;
        let n = self.product_prices.len();
        let mut i: usize = 0;
        while i < n
            invariant
                0 <= i <= n,
                n == prices0.len(),
                spec_find_product(prices0, product_id, 0) == spec_find_product(
                    prices0,
                    product_id,
                    i as int,
                ),
            decreases n - i,
        {
            if self.product_prices[i].0 == product_id {
                return Ok(self.product_prices[i].1);
            }
            i = i + 1;
        }
        Err(XxusdError::ProductNotFound)
    }
}

} // verus!
