use xxusd::error::XxusdError;
use xxusd::utils::calculate_depositories_mint_collateral_amount::{
    calculate_depositories_mint_collateral_amount, DepositoryInfoForMintCollateralAmount,
};
use xxusd::utils::calculate_depositories_redeemable_amount::{
    calculate_depositories_redeemable_amount, DepositoryInfoForRedeemableAmount,
};
use xxusd::utils::calculate_depositories_target_redeemable_amount::{
    calculate_depositories_target_redeemable_amount, DepositoryInfoForTargetRedeemableAmount,
};

#[test]
fn test_calculate_depositories_redeemable_amount() {
    let depositories_info = vec![
        DepositoryInfoForRedeemableAmount {
            is_liquid: true,
            target_redeemable_amount: 1000,
            redeemable_amount_under_management: 1500,
            unlock_time: 100,
        },
        DepositoryInfoForRedeemableAmount {
            is_liquid: true,
            target_redeemable_amount: 2000,
            redeemable_amount_under_management: 2500,
            unlock_time: 200,
        },
        DepositoryInfoForRedeemableAmount {
            is_liquid: true,
            target_redeemable_amount: 3000,
            redeemable_amount_under_management: 3500,
            unlock_time: 300,
        },
    ];

    let current_time = 250;
    let requested_redeemable_amount = 3000;

    // The third depository is still locked at time 250, so the available
    // liquidity is [1500, 2500, 0] and the request is split
    // proportionally: floor(3000 * 1500 / 4000) and floor(3000 * 2500 /
    // 4000), which divide exactly.
    let result = calculate_depositories_redeemable_amount(
        requested_redeemable_amount,
        &depositories_info,
        current_time,
    )
    .unwrap();

    assert_eq!(result.len(), 3);
    assert_eq!(result[0], 1125);
    assert_eq!(result[1], 1875);
    assert_eq!(result[2], 0);
}

#[test]
fn target_redistributes_overflow_to_depositories_with_room() {
    let depositories_info = vec![
        DepositoryInfoForTargetRedeemableAmount {
            weight_bps: 5000,
            redeemable_amount_under_management_cap: 1000,
        },
        DepositoryInfoForTargetRedeemableAmount {
            weight_bps: 3000,
            redeemable_amount_under_management_cap: 1000,
        },
        DepositoryInfoForTargetRedeemableAmount {
            weight_bps: 2000,
            redeemable_amount_under_management_cap: 1000,
        },
    ];

    // Raw targets are [1300, 780, 520]; the first overflows its cap by
    // 300, which is redistributed over the spare room [0, 220, 480] with
    // ceiling rounding: ceil(300 * 220 / 700) = 95 and
    // ceil(300 * 480 / 700) = 206.
    let result = calculate_depositories_target_redeemable_amount(2600, &depositories_info)
        .unwrap();
    assert_eq!(result, vec![1000, 875, 726]);

    // Conservation: the total stays within the combined caps and covers
    // the supply.
    let total: u64 = result.iter().sum();
    assert!(total <= 3000);
    assert!(total >= 2600);
}

#[test]
fn target_without_overflow_tracks_supply_to_a_unit_per_depository() {
    let depositories_info = vec![
        DepositoryInfoForTargetRedeemableAmount {
            weight_bps: 3333,
            redeemable_amount_under_management_cap: 1_000_000,
        },
        DepositoryInfoForTargetRedeemableAmount {
            weight_bps: 3333,
            redeemable_amount_under_management_cap: 1_000_000,
        },
        DepositoryInfoForTargetRedeemableAmount {
            weight_bps: 3334,
            redeemable_amount_under_management_cap: 1_000_000,
        },
    ];

    let result = calculate_depositories_target_redeemable_amount(1000, &depositories_info)
        .unwrap();
    // Each raw target is rounded up and no cap binds.
    assert_eq!(result, vec![334, 334, 334]);
    let total: u64 = result.iter().sum();
    assert!(total >= 1000 && total <= 1002);
}

#[test]
fn target_rejects_weights_not_summing_to_ten_thousand() {
    let depositories_info = vec![
        DepositoryInfoForTargetRedeemableAmount {
            weight_bps: 5000,
            redeemable_amount_under_management_cap: 1000,
        },
        DepositoryInfoForTargetRedeemableAmount {
            weight_bps: 4000,
            redeemable_amount_under_management_cap: 1000,
        },
    ];
    let result = calculate_depositories_target_redeemable_amount(100, &depositories_info);
    assert_eq!(result, Err(XxusdError::InvalidDepositoriesWeightBps));
}

#[test]
fn target_rejects_supply_wider_than_64_bits() {
    let depositories_info = vec![DepositoryInfoForTargetRedeemableAmount {
        weight_bps: 10000,
        redeemable_amount_under_management_cap: 1000,
    }];
    let result = calculate_depositories_target_redeemable_amount(
        u64::MAX as u128 + 1,
        &depositories_info,
    );
    assert_eq!(result, Err(XxusdError::Overflow));
}

#[test]
fn target_zero_weight_gets_nothing_without_overflow() {
    let depositories_info = vec![
        DepositoryInfoForTargetRedeemableAmount {
            weight_bps: 10000,
            redeemable_amount_under_management_cap: 1_000_000,
        },
        DepositoryInfoForTargetRedeemableAmount {
            weight_bps: 0,
            redeemable_amount_under_management_cap: 1_000_000,
        },
    ];
    let result = calculate_depositories_target_redeemable_amount(100, &depositories_info)
        .unwrap();
    assert_eq!(result, vec![100, 0]);
}

#[test]
fn target_zero_weight_receives_overflow_only_with_room() {
    // The first depository overflows by 50; the zero-weight depository
    // has room, so the overflow lands there.
    let depositories_info = vec![
        DepositoryInfoForTargetRedeemableAmount {
            weight_bps: 10000,
            redeemable_amount_under_management_cap: 50,
        },
        DepositoryInfoForTargetRedeemableAmount {
            weight_bps: 0,
            redeemable_amount_under_management_cap: 1000,
        },
    ];
    let result = calculate_depositories_target_redeemable_amount(100, &depositories_info)
        .unwrap();
    assert_eq!(result, vec![50, 50]);

    // With no room anywhere, a zero-weight depository gets nothing.
    let depositories_info = vec![
        DepositoryInfoForTargetRedeemableAmount {
            weight_bps: 10000,
            redeemable_amount_under_management_cap: 50,
        },
        DepositoryInfoForTargetRedeemableAmount {
            weight_bps: 0,
            redeemable_amount_under_management_cap: 0,
        },
    ];
    let result = calculate_depositories_target_redeemable_amount(100, &depositories_info)
        .unwrap();
    assert_eq!(result, vec![50, 0]);
}

#[test]
fn target_redistribution_rounds_each_share_up() {
    // A tiny supply with a lopsided weight: the first depository's raw
    // target of 10 overflows its cap of 2 by 8, and the two receivers'
    // shares ceil(8 * 998 / 1997) = 4 and ceil(8 * 999 / 1997) = 5 both
    // round up, so the final targets over-cover the supply slightly.
    let depositories_info = vec![
        DepositoryInfoForTargetRedeemableAmount {
            weight_bps: 9998,
            redeemable_amount_under_management_cap: 2,
        },
        DepositoryInfoForTargetRedeemableAmount {
            weight_bps: 1,
            redeemable_amount_under_management_cap: 999,
        },
        DepositoryInfoForTargetRedeemableAmount {
            weight_bps: 1,
            redeemable_amount_under_management_cap: 1000,
        },
    ];
    let result = calculate_depositories_target_redeemable_amount(10, &depositories_info)
        .unwrap();
    assert_eq!(result, vec![2, 5, 6]);
}

#[test]
fn target_calculation_is_deterministic() {
    let depositories_info = vec![
        DepositoryInfoForTargetRedeemableAmount {
            weight_bps: 7001,
            redeemable_amount_under_management_cap: 900,
        },
        DepositoryInfoForTargetRedeemableAmount {
            weight_bps: 2999,
            redeemable_amount_under_management_cap: 5000,
        },
    ];
    let first = calculate_depositories_target_redeemable_amount(1234, &depositories_info);
    let second = calculate_depositories_target_redeemable_amount(1234, &depositories_info);
    assert_eq!(first, second);
}

#[test]
fn mint_splits_by_headroom_and_never_overshoots() {
    let depositories_info = vec![
        DepositoryInfoForMintCollateralAmount {
            target_redeemable_amount: 1000,
            redeemable_amount_under_management: 500,
        },
        DepositoryInfoForMintCollateralAmount {
            target_redeemable_amount: 2000,
            redeemable_amount_under_management: 1500,
        },
        DepositoryInfoForMintCollateralAmount {
            target_redeemable_amount: 3000,
            redeemable_amount_under_management: 3000,
        },
    ];

    // Headroom is [500, 500, 0], total 1000; floor(999 * 500 / 1000)
    // twice.
    let result = calculate_depositories_mint_collateral_amount(999, &depositories_info)
        .unwrap();
    assert_eq!(result, vec![499, 499, 0]);
    let total: u64 = result.iter().sum();
    assert!(total <= 999);
    assert!(total >= 999 - 2);
}

#[test]
fn mint_rejects_request_beyond_total_headroom() {
    let depositories_info = vec![
        DepositoryInfoForMintCollateralAmount {
            target_redeemable_amount: 1000,
            redeemable_amount_under_management: 500,
        },
        DepositoryInfoForMintCollateralAmount {
            target_redeemable_amount: 2000,
            redeemable_amount_under_management: 1500,
        },
        DepositoryInfoForMintCollateralAmount {
            target_redeemable_amount: 3000,
            redeemable_amount_under_management: 3000,
        },
    ];
    let result = calculate_depositories_mint_collateral_amount(1001, &depositories_info);
    assert_eq!(
        result,
        Err(XxusdError::DepositoriesTargetRedeemableAmountReached)
    );
}

#[test]
fn mint_rejects_wrong_depository_count() {
    let depositories_info = vec![DepositoryInfoForMintCollateralAmount {
        target_redeemable_amount: 1000,
        redeemable_amount_under_management: 0,
    }];
    let result = calculate_depositories_mint_collateral_amount(10, &depositories_info);
    assert_eq!(result, Err(XxusdError::InvalidDepositoriesVector));
}

#[test]
fn mint_rejects_zero_total_headroom() {
    let depositories_info = vec![
        DepositoryInfoForMintCollateralAmount {
            target_redeemable_amount: 100,
            redeemable_amount_under_management: 100,
        },
        DepositoryInfoForMintCollateralAmount {
            target_redeemable_amount: 100,
            redeemable_amount_under_management: 200,
        },
        DepositoryInfoForMintCollateralAmount {
            target_redeemable_amount: 0,
            redeemable_amount_under_management: 0,
        },
    ];
    let result = calculate_depositories_mint_collateral_amount(0, &depositories_info);
    assert_eq!(result, Err(XxusdError::DivisionByZero));
}

#[test]
fn mint_calculation_is_deterministic() {
    let depositories_info = vec![
        DepositoryInfoForMintCollateralAmount {
            target_redeemable_amount: 777,
            redeemable_amount_under_management: 3,
        },
        DepositoryInfoForMintCollateralAmount {
            target_redeemable_amount: 999,
            redeemable_amount_under_management: 123,
        },
        DepositoryInfoForMintCollateralAmount {
            target_redeemable_amount: 50,
            redeemable_amount_under_management: 0,
        },
    ];
    let first = calculate_depositories_mint_collateral_amount(555, &depositories_info);
    let second = calculate_depositories_mint_collateral_amount(555, &depositories_info);
    assert_eq!(first, second);
}

#[test]
fn redeem_pays_exactly_the_request_from_equal_liquidity() {
    let depositories_info = vec![
        DepositoryInfoForRedeemableAmount {
            is_liquid: true,
            target_redeemable_amount: 1500,
            redeemable_amount_under_management: 1500,
            unlock_time: 0,
        },
        DepositoryInfoForRedeemableAmount {
            is_liquid: true,
            target_redeemable_amount: 1500,
            redeemable_amount_under_management: 1500,
            unlock_time: 0,
        },
    ];
    let result = calculate_depositories_redeemable_amount(3000, &depositories_info, 100)
        .unwrap();
    assert_eq!(result, vec![1500, 1500]);
}

#[test]
fn redeem_rejects_request_beyond_unlocked_liquidity() {
    let depositories_info = vec![
        DepositoryInfoForRedeemableAmount {
            is_liquid: true,
            target_redeemable_amount: 1500,
            redeemable_amount_under_management: 1500,
            unlock_time: 0,
        },
        DepositoryInfoForRedeemableAmount {
            is_liquid: true,
            target_redeemable_amount: 2500,
            redeemable_amount_under_management: 2500,
            unlock_time: 1000,
        },
    ];
    // The second depository is locked until time 1000, so only 1500 is
    // available against a request of 3000.
    let result = calculate_depositories_redeemable_amount(3000, &depositories_info, 500);
    assert_eq!(result, Err(XxusdError::InsufficientRedeemableAmount));
}

#[test]
fn redeem_hands_rounding_loss_back_in_input_order() {
    let depositories_info = vec![
        DepositoryInfoForRedeemableAmount {
            is_liquid: true,
            target_redeemable_amount: 0,
            redeemable_amount_under_management: 1000,
            unlock_time: 0,
        },
        DepositoryInfoForRedeemableAmount {
            is_liquid: true,
            target_redeemable_amount: 0,
            redeemable_amount_under_management: 1000,
            unlock_time: 0,
        },
        DepositoryInfoForRedeemableAmount {
            is_liquid: true,
            target_redeemable_amount: 0,
            redeemable_amount_under_management: 1000,
            unlock_time: 0,
        },
    ];
    // The proportional pass gives floor(1000 / 3) = 333 to each; the
    // missing unit goes to the first depository, which has headroom.
    let result = calculate_depositories_redeemable_amount(1000, &depositories_info, 0)
        .unwrap();
    assert_eq!(result, vec![334, 333, 333]);
    let total: u64 = result.iter().sum();
    assert_eq!(total, 1000);
}

#[test]
fn redeem_ignores_illiquid_depositories() {
    let depositories_info = vec![
        DepositoryInfoForRedeemableAmount {
            is_liquid: false,
            target_redeemable_amount: 0,
            redeemable_amount_under_management: 5000,
            unlock_time: 0,
        },
        DepositoryInfoForRedeemableAmount {
            is_liquid: true,
            target_redeemable_amount: 0,
            redeemable_amount_under_management: 400,
            unlock_time: 0,
        },
    ];
    let result = calculate_depositories_redeemable_amount(400, &depositories_info, 0)
        .unwrap();
    assert_eq!(result, vec![0, 400]);
}

#[test]
fn redeem_rejects_zero_total_liquidity() {
    let depositories_info = vec![DepositoryInfoForRedeemableAmount {
        is_liquid: false,
        target_redeemable_amount: 0,
        redeemable_amount_under_management: 100,
        unlock_time: 0,
    }];
    let result = calculate_depositories_redeemable_amount(0, &depositories_info, 0);
    assert_eq!(result, Err(XxusdError::DivisionByZero));
}

#[test]
fn redeem_calculation_is_deterministic() {
    let depositories_info = vec![
        DepositoryInfoForRedeemableAmount {
            is_liquid: true,
            target_redeemable_amount: 0,
            redeemable_amount_under_management: 321,
            unlock_time: 7,
        },
        DepositoryInfoForRedeemableAmount {
            is_liquid: true,
            target_redeemable_amount: 0,
            redeemable_amount_under_management: 654,
            unlock_time: 9,
        },
    ];
    let first = calculate_depositories_redeemable_amount(100, &depositories_info, 50);
    let second = calculate_depositories_redeemable_amount(100, &depositories_info, 50);
    assert_eq!(first, second);
}
