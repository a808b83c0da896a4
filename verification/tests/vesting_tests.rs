use xxusd::error::XxusdError;
use xxusd::operations::process_release;
use xxusd::release::{apply_release, calculate_releasable_amount, compute_releasable};
use xxusd::state::controller::Controller;
use xxusd::state::lock_manager::{Lock, LockManager};
use xxusd::state::{Amount, Timestamp};

#[test]
fn releasable_after_three_whole_days() {
    // A lock of 1000 vesting over 864000 seconds (ten days), computed
    // after exactly three whole days: floor(3 * 1000 / 10) = 300.
    let lock = Lock {
        amount: Amount::new(1000),
        lock_time: Timestamp::new(0),
        lock_period: Timestamp::new(864_000),
    };
    let (releasable, days_passed) = compute_releasable(&lock, Timestamp::new(259_200)).unwrap();
    assert_eq!(releasable.value(), 300);
    assert_eq!(days_passed, 3);
}

#[test]
fn releasable_is_capped_at_the_locked_amount() {
    // After twenty days of a ten-day period, only the remaining amount
    // itself can come out.
    let lock = Lock {
        amount: Amount::new(1000),
        lock_time: Timestamp::new(0),
        lock_period: Timestamp::new(864_000),
    };
    let (releasable, days_passed) = compute_releasable(&lock, Timestamp::new(1_728_000))
        .unwrap();
    assert_eq!(releasable.value(), 1000);
    assert_eq!(days_passed, 20);
}

#[test]
fn release_before_a_whole_day_is_refused() {
    let lock = Lock {
        amount: Amount::new(1000),
        lock_time: Timestamp::new(0),
        lock_period: Timestamp::new(864_000),
    };
    let result = compute_releasable(&lock, Timestamp::new(86_399));
    assert_eq!(result, Err(XxusdError::InsufficientReleasableAmount));
}

#[test]
fn release_with_nonpositive_period_is_refused() {
    let lock = Lock {
        amount: Amount::new(1000),
        lock_time: Timestamp::new(0),
        lock_period: Timestamp::new(0),
    };
    let result = compute_releasable(&lock, Timestamp::new(86_400));
    assert_eq!(result, Err(XxusdError::InvalidLockPeriod));
}

#[test]
fn release_with_period_under_a_day_is_refused() {
    let lock = Lock {
        amount: Amount::new(1000),
        lock_time: Timestamp::new(0),
        lock_period: Timestamp::new(3600),
    };
    let result = compute_releasable(&lock, Timestamp::new(172_800));
    assert_eq!(result, Err(XxusdError::DivisionByZero));
}

#[test]
fn release_with_checkpoint_in_the_future_is_refused() {
    let lock = Lock {
        amount: Amount::new(1000),
        lock_time: Timestamp::new(500_000),
        lock_period: Timestamp::new(864_000),
    };
    let result = compute_releasable(&lock, Timestamp::new(400_000));
    assert_eq!(result, Err(XxusdError::MathOverflow));
}

#[test]
fn releasable_uses_the_first_still_active_lock() {
    let lock_manager = LockManager {
        total_locked_amount: 1000,
        locks: vec![
            Lock {
                amount: Amount::new(0),
                lock_time: Timestamp::new(0),
                lock_period: Timestamp::new(864_000),
            },
            Lock {
                amount: Amount::new(1000),
                lock_time: Timestamp::new(0),
                lock_period: Timestamp::new(864_000),
            },
        ],
    };
    let (releasable, days_passed) = calculate_releasable_amount(
        &lock_manager,
        Timestamp::new(259_200),
    )
    .unwrap();
    assert_eq!(releasable.value(), 300);
    assert_eq!(days_passed, 3);
}

#[test]
fn releasable_without_any_active_lock_is_refused() {
    let lock_manager = LockManager {
        total_locked_amount: 0,
        locks: vec![Lock {
            amount: Amount::new(0),
            lock_time: Timestamp::new(0),
            lock_period: Timestamp::new(864_000),
        }],
    };
    let result = calculate_releasable_amount(&lock_manager, Timestamp::new(259_200));
    assert_eq!(result, Err(XxusdError::LockNotFound));
}

#[test]
fn apply_release_moves_the_checkpoint_and_totals() {
    let mut lock_manager = LockManager {
        total_locked_amount: 1000,
        locks: vec![Lock {
            amount: Amount::new(1000),
            lock_time: Timestamp::new(0),
            lock_period: Timestamp::new(864_000),
        }],
    };
    apply_release(&mut lock_manager, Amount::new(300), Timestamp::new(259_200)).unwrap();
    assert_eq!(lock_manager.total_locked_amount, 700);
    assert_eq!(lock_manager.locks[0].amount.value(), 700);
    assert_eq!(lock_manager.locks[0].lock_time.value(), 259_200);
    assert_eq!(lock_manager.locks[0].lock_period.value(), 864_000);
}

#[test]
fn repeated_releases_never_exceed_the_original_amount() {
    // Release after three days, then again four days later: day counting
    // restarts at each release, so the second release is
    // floor(4 * 700 / 10) = 280, and the running amounts only shrink.
    let mut lock_manager = LockManager {
        total_locked_amount: 1000,
        locks: vec![Lock {
            amount: Amount::new(1000),
            lock_time: Timestamp::new(0),
            lock_period: Timestamp::new(864_000),
        }],
    };
    let mut controller = Controller {
        redeemable_circulating_supply: 0,
        kamino_depository_weight_bps: 10000,
        is_frozen: false,
        product_prices: Vec::new(),
        locked_xxusd_supply: 1000,
        max_products: 100,
    };

    let first = process_release(&mut lock_manager, &mut controller, Timestamp::new(259_200))
        .unwrap();
    assert_eq!(first.value(), 300);
    assert_eq!(lock_manager.locks[0].amount.value(), 700);
    assert_eq!(controller.locked_xxusd_supply, 700);

    let second = process_release(&mut lock_manager, &mut controller, Timestamp::new(604_800))
        .unwrap();
    assert_eq!(second.value(), 280);
    assert_eq!(lock_manager.locks[0].amount.value(), 420);
    assert_eq!(lock_manager.total_locked_amount, 420);
    assert_eq!(controller.locked_xxusd_supply, 420);

    assert!(first.value() + second.value() <= 1000);
}

#[test]
fn release_computation_is_deterministic() {
    let lock = Lock {
        amount: Amount::new(987),
        lock_time: Timestamp::new(123),
        lock_period: Timestamp::new(1_728_000),
    };
    let first = compute_releasable(&lock, Timestamp::new(700_000));
    let second = compute_releasable(&lock, Timestamp::new(700_000));
    assert_eq!(first, second);
}
