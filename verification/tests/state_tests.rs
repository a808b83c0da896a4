use xxusd::error::XxusdError;
use xxusd::operations::{process_lock, process_manage_hedging_strategy, process_mint, process_redeem};
use xxusd::state::controller::Controller;
use xxusd::state::hedging_strategy::HedgingStrategy;
use xxusd::state::kamino_depository::KaminoDepository;
use xxusd::state::lock_manager::LockManager;
use xxusd::state::{
    amount_to_u64, i64_to_timestamp, safe_u128_to_u64, safe_u64_to_u128, timestamp_to_i64,
    u64_to_amount, Amount, Timestamp,
};
use xxusd::utils::maths::{
    calculate_depositories_sum_value, checked_add, checked_add_timestamp, checked_as_u64,
    checked_div, checked_mul, checked_sub, checked_sub_timestamp, compute_amount_fraction_ceil,
    compute_amount_less_fraction_floor,
};
use xxusd::utils::validate_collateral_amount::validate_collateral_amount;

#[test]
fn amount_and_timestamp_conversions_round_trip() {
    let amount = u64_to_amount(42);
    assert_eq!(amount_to_u64(amount), 42);
    assert_eq!(amount.to_u128(), 42u128);
    assert_eq!(Amount::from_u128(42u128).unwrap(), amount);
    assert_eq!(Amount::from_u64(42).to_u64(), 42);
    assert_eq!(Amount::new(42).value(), 42);

    let ts = i64_to_timestamp(-7);
    assert_eq!(timestamp_to_i64(ts), -7);
    assert_eq!(Timestamp::new(9).value(), 9);
    assert_eq!(Timestamp::from_u64(9).value(), 9);
    assert_eq!(Timestamp::new(9).to_u64(), 9);

    assert_eq!(safe_u64_to_u128(5), 5u128);
    assert_eq!(safe_u128_to_u64(5u128), Ok(5));
    assert_eq!(
        safe_u128_to_u64(u64::MAX as u128 + 1),
        Err(XxusdError::Overflow)
    );
    assert_eq!(
        Amount::from_u128(u64::MAX as u128 + 1),
        Err(XxusdError::Overflow)
    );
}

#[test]
fn checked_arithmetic_fails_instead_of_wrapping() {
    assert_eq!(
        checked_add(Amount::new(2), Amount::new(3)),
        Ok(Amount::new(5))
    );
    assert_eq!(
        checked_add(Amount::new(u64::MAX), Amount::new(1)),
        Err(XxusdError::MathOverflow)
    );
    assert_eq!(
        checked_sub(Amount::new(5), Amount::new(3)),
        Ok(Amount::new(2))
    );
    assert_eq!(
        checked_sub(Amount::new(3), Amount::new(5)),
        Err(XxusdError::MathOverflow)
    );
    assert_eq!(checked_mul(Amount::new(6), 7), Ok(Amount::new(42)));
    assert_eq!(
        checked_mul(Amount::new(u64::MAX), 2),
        Err(XxusdError::MathOverflow)
    );
    assert_eq!(checked_div(Amount::new(42), 5), Ok(Amount::new(8)));
    assert_eq!(
        checked_div(Amount::new(42), 0),
        Err(XxusdError::MathOverflow)
    );
    assert_eq!(checked_as_u64(Amount::new(11)), Ok(11));
    assert_eq!(
        checked_add_timestamp(Timestamp::new(10), -3),
        Ok(Timestamp::new(7))
    );
    assert_eq!(
        checked_add_timestamp(Timestamp::new(i64::MAX), 1),
        Err(XxusdError::MathOverflow)
    );
    assert_eq!(
        checked_sub_timestamp(Timestamp::new(10), Timestamp::new(3)),
        Ok(7)
    );
    assert_eq!(
        checked_sub_timestamp(Timestamp::new(i64::MIN), Timestamp::new(1)),
        Err(XxusdError::MathOverflow)
    );
}

#[test]
fn sum_value_adds_up_and_rejects_overflow() {
    assert_eq!(calculate_depositories_sum_value(&vec![1, 2, 3]), Ok(6));
    assert_eq!(calculate_depositories_sum_value(&vec![]), Ok(0));
    assert_eq!(
        calculate_depositories_sum_value(&vec![u64::MAX, 1]),
        Err(XxusdError::MathOverflow)
    );
}

#[test]
fn fraction_ceil_rounds_up_and_reports_its_errors() {
    assert_eq!(compute_amount_fraction_ceil(2600, 3000, 10000), Ok(780));
    assert_eq!(compute_amount_fraction_ceil(2600, 2000, 10000), Ok(520));
    // 100 * 1 / 3 rounds up.
    assert_eq!(compute_amount_fraction_ceil(100, 1, 3), Ok(34));
    assert_eq!(
        compute_amount_fraction_ceil(1, 1, 0),
        Err(XxusdError::DivisionByZero)
    );
    assert_eq!(
        compute_amount_fraction_ceil(u64::MAX, 2, 1),
        Err(XxusdError::MathOverflow)
    );
}

#[test]
fn less_fraction_floor_takes_the_complement_share() {
    // 3000 less its 2500/4000 share leaves floor(3000 * 1500 / 4000).
    assert_eq!(compute_amount_less_fraction_floor(3000, 2500, 4000), Ok(1125));
    assert_eq!(compute_amount_less_fraction_floor(100, 0, 3), Ok(100));
    assert_eq!(compute_amount_less_fraction_floor(100, 3, 3), Ok(0));
    assert_eq!(
        compute_amount_less_fraction_floor(100, 4, 3),
        Err(XxusdError::MathOverflow)
    );
    assert_eq!(
        compute_amount_less_fraction_floor(100, 0, 0),
        Err(XxusdError::DivisionByZero)
    );
}

#[test]
fn validate_collateral_amount_checks_value_and_balance() {
    assert_eq!(validate_collateral_amount(100, 50), Ok(()));
    assert_eq!(
        validate_collateral_amount(100, 0),
        Err(XxusdError::InvalidCollateralAmount)
    );
    assert_eq!(
        validate_collateral_amount(30, 50),
        Err(XxusdError::InsufficientCollateralBalance)
    );
}

#[test]
fn controller_tracks_supplies() {
    let mut controller = Controller {
        redeemable_circulating_supply: 7,
        kamino_depository_weight_bps: 0,
        is_frozen: true,
        product_prices: Vec::new(),
        locked_xxusd_supply: 7,
        max_products: 0,
    };
    controller.initialize(100);
    assert_eq!(controller.get_redeemable_circulating_supply(), 0);
    assert_eq!(controller.get_locked_xxusd_supply(), 0);
    assert_eq!(controller.kamino_depository_weight_bps, 10000);
    assert!(!controller.is_frozen);
    assert_eq!(controller.max_products, 100);

    controller.set_redeemable_circulating_supply(123u128).unwrap();
    assert_eq!(controller.get_redeemable_circulating_supply(), 123);
    assert_eq!(
        controller.set_redeemable_circulating_supply(u64::MAX as u128 + 1),
        Err(XxusdError::Overflow)
    );
    controller.set_locked_xxusd_supply(45u128).unwrap();
    assert_eq!(controller.get_locked_xxusd_supply(), 45);
}

#[test]
fn product_prices_are_set_updated_and_looked_up() {
    let mut controller = Controller {
        redeemable_circulating_supply: 0,
        kamino_depository_weight_bps: 10000,
        is_frozen: false,
        product_prices: Vec::new(),
        locked_xxusd_supply: 0,
        max_products: 2,
    };
    assert_eq!(
        controller.set_product_price(1, Amount::new(0)),
        Err(XxusdError::InvalidProductPrice)
    );
    assert_eq!(
        controller.set_product_price(0, Amount::new(10)),
        Err(XxusdError::InvalidProductId)
    );
    controller.set_product_price(1, Amount::new(10)).unwrap();
    controller.set_product_price(2, Amount::new(20)).unwrap();
    assert_eq!(
        controller.set_product_price(3, Amount::new(30)),
        Err(XxusdError::MaxProductsReached)
    );
    // Updating an existing product does not need room.
    controller.set_product_price(1, Amount::new(15)).unwrap();
    assert_eq!(controller.get_product_price(1), Ok(Amount::new(15)));
    assert_eq!(controller.get_product_price(2), Ok(Amount::new(20)));
    assert_eq!(
        controller.get_product_price(3),
        Err(XxusdError::ProductNotFound)
    );
}

#[test]
fn hedging_strategy_deposits_and_withdraws() {
    let mut strategy = HedgingStrategy { deposited_amount: 1 };
    strategy.initialize();
    assert_eq!(strategy.get_deposited_amount().value(), 0);

    let total = process_manage_hedging_strategy(&mut strategy, Amount::new(100), true, 150)
        .unwrap();
    assert_eq!(total.value(), 100);
    assert_eq!(
        process_manage_hedging_strategy(&mut strategy, Amount::new(100), true, 50),
        Err(XxusdError::InsufficientFunds)
    );
    let total = process_manage_hedging_strategy(&mut strategy, Amount::new(30), false, 0)
        .unwrap();
    assert_eq!(total.value(), 70);
    assert_eq!(
        process_manage_hedging_strategy(&mut strategy, Amount::new(100), false, 0),
        Err(XxusdError::InsufficientFunds)
    );
    assert_eq!(
        process_manage_hedging_strategy(&mut strategy, Amount::new(0), true, 10),
        Err(XxusdError::InvalidAmount)
    );
    strategy.set_deposited_amount(Amount::new(9));
    assert_eq!(strategy.get_deposited_amount().value(), 9);
}

#[test]
fn mint_updates_supply_and_depository_one_to_one() {
    let mut controller = Controller {
        redeemable_circulating_supply: 1000,
        kamino_depository_weight_bps: 10000,
        is_frozen: false,
        product_prices: Vec::new(),
        locked_xxusd_supply: 0,
        max_products: 100,
    };
    let mut depository = KaminoDepository {
        redeemable_amount_under_management: 7,
        redeemable_amount_under_management_cap: 7,
        minting_fee_in_bps: 7,
        redeeming_fee_in_bps: 7,
    };
    depository.initialize(10_000, 25, 30);
    assert_eq!(depository.redeemable_amount_under_management, 0);
    assert_eq!(depository.redeemable_amount_under_management_cap, 10_000);
    assert_eq!(depository.minting_fee_in_bps, 25);
    assert_eq!(depository.redeeming_fee_in_bps, 30);
    depository.redeemable_amount_under_management = 500;
    let minted = process_mint(&mut controller, &mut depository, 400, Amount::new(300)).unwrap();
    assert_eq!(minted.value(), 300);
    assert_eq!(controller.redeemable_circulating_supply, 1300);
    assert_eq!(depository.redeemable_amount_under_management, 800);

    assert_eq!(
        process_mint(&mut controller, &mut depository, 400, Amount::new(0)),
        Err(XxusdError::InvalidCollateralAmount)
    );
    assert_eq!(
        process_mint(&mut controller, &mut depository, 100, Amount::new(300)),
        Err(XxusdError::InsufficientCollateral)
    );
}

#[test]
fn redeem_updates_supply_and_depository_one_to_one() {
    let mut controller = Controller {
        redeemable_circulating_supply: 1300,
        kamino_depository_weight_bps: 10000,
        is_frozen: false,
        product_prices: Vec::new(),
        locked_xxusd_supply: 0,
        max_products: 100,
    };
    let mut depository = KaminoDepository {
        redeemable_amount_under_management: 800,
        redeemable_amount_under_management_cap: 10_000,
        minting_fee_in_bps: 0,
        redeeming_fee_in_bps: 0,
    };
    let paid = process_redeem(&mut controller, &mut depository, 300, Amount::new(300)).unwrap();
    assert_eq!(paid.value(), 300);
    assert_eq!(controller.redeemable_circulating_supply, 1000);
    assert_eq!(depository.redeemable_amount_under_management, 500);

    assert_eq!(
        process_redeem(&mut controller, &mut depository, 300, Amount::new(0)),
        Err(XxusdError::InvalidRedeemableAmount)
    );
    assert_eq!(
        process_redeem(&mut controller, &mut depository, 100, Amount::new(300)),
        Err(XxusdError::InsufficientRedeemableBalance)
    );
    // Redeeming more than the depository manages fails on the checked
    // subtraction.
    assert_eq!(
        process_redeem(&mut controller, &mut depository, 900, Amount::new(900)),
        Err(XxusdError::MathOverflow)
    );
}

#[test]
fn lock_appends_a_lock_and_raises_the_totals() {
    let mut lock_manager = LockManager {
        total_locked_amount: 0,
        locks: Vec::new(),
    };
    lock_manager.initialize();
    let mut controller = Controller {
        redeemable_circulating_supply: 0,
        kamino_depository_weight_bps: 10000,
        is_frozen: false,
        product_prices: Vec::new(),
        locked_xxusd_supply: 0,
        max_products: 100,
    };
    process_lock(
        &mut lock_manager,
        &mut controller,
        500,
        Amount::new(200),
        Timestamp::new(1000),
        Timestamp::new(864_000),
    )
    .unwrap();
    assert_eq!(lock_manager.total_locked_amount, 200);
    assert_eq!(lock_manager.get_total_locked_amount().value(), 200);
    lock_manager.set_total_locked_amount(Amount::new(250));
    assert_eq!(lock_manager.get_total_locked_amount().value(), 250);
    lock_manager.set_total_locked_amount(Amount::new(200));
    assert_eq!(lock_manager.locks.len(), 1);
    assert_eq!(lock_manager.locks[0].amount.value(), 200);
    assert_eq!(lock_manager.locks[0].lock_time.value(), 1000);
    assert_eq!(controller.locked_xxusd_supply, 200);

    assert_eq!(
        process_lock(
            &mut lock_manager,
            &mut controller,
            500,
            Amount::new(0),
            Timestamp::new(1000),
            Timestamp::new(864_000),
        ),
        Err(XxusdError::InvalidCollateralAmount)
    );
    assert_eq!(
        process_lock(
            &mut lock_manager,
            &mut controller,
            500,
            Amount::new(10),
            Timestamp::new(1000),
            Timestamp::new(0),
        ),
        Err(XxusdError::InvalidLockPeriod)
    );
    assert_eq!(
        process_lock(
            &mut lock_manager,
            &mut controller,
            5,
            Amount::new(10),
            Timestamp::new(1000),
            Timestamp::new(864_000),
        ),
        Err(XxusdError::InsufficientBalance)
    );
}
