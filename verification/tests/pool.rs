use amm::contexts::deposit::{isqrt, Deposit};
use amm::contexts::initialize::Initialize;
use amm::contexts::swap::Swap;
use amm::contexts::withdraw::Withdraw;
use amm::error::AmmError;
use amm::helpers::calculate_swap_output;
use amm::state::{Config, Side, TokenInstruction};

fn minted(plan: &[TokenInstruction]) -> u64 {
    match plan[2] {
        TokenInstruction::MintLp { amount } => amount,
        _ => panic!("third call of a deposit mints LP tokens"),
    }
}

fn paid_out(plan: &[TokenInstruction], index: usize) -> u64 {
    match plan[index] {
        TokenInstruction::TransferFromVault { amount, .. } => amount,
        _ => panic!("expected a transfer out of a vault"),
    }
}

#[test]
fn swap_output_with_fee() {
    // 1000 in, 3% fee: 997 reach the curve; 10000 * 997 / 10997 = 906
    assert_eq!(calculate_swap_output(1000, 10000, 10000, 30), Ok(906));
}

#[test]
fn swap_output_without_fee() {
    assert_eq!(calculate_swap_output(1000, 10000, 10000, 0), Ok(909));
}

#[test]
fn swap_output_full_fee_is_zero() {
    assert_eq!(calculate_swap_output(1000, 10000, 10000, 10000), Ok(0));
}

#[test]
fn swap_output_at_the_limits() {
    assert_eq!(
        calculate_swap_output(u64::MAX, u64::MAX, u64::MAX, 0),
        Ok(9223372036854775807)
    );
}

#[test]
fn swap_output_refuses_zero_input() {
    assert_eq!(calculate_swap_output(0, 10000, 10000, 30), Err(AmmError::ZeroAmount));
}

#[test]
fn swap_output_refuses_empty_pool() {
    assert_eq!(calculate_swap_output(10, 0, 10000, 30), Err(AmmError::PoolEmpty));
    assert_eq!(calculate_swap_output(10, 10000, 0, 30), Err(AmmError::PoolEmpty));
}

#[test]
fn swap_output_refusals_come_before_the_fee() {
    assert_eq!(calculate_swap_output(0, 10000, 10000, 20000), Err(AmmError::ZeroAmount));
    assert_eq!(calculate_swap_output(10, 0, 10000, 20000), Err(AmmError::PoolEmpty));
    let ctx = Swap { fee: 20000, vault_x_amount: 10000, vault_y_amount: 0 };
    assert_eq!(ctx.swap(0, 0, true), Err(AmmError::ZeroAmount));
    assert_eq!(ctx.swap(5, 0, true), Err(AmmError::PoolEmpty));
}

#[test]
fn fee_is_checked_only_when_taken() {
    let bad = Swap { fee: 10001, vault_x_amount: 10000, vault_y_amount: 10000 };
    assert!(!bad.can_take_fee(1, true));
    assert!(bad.can_take_fee(0, true));
    let empty = Swap { fee: 10001, vault_x_amount: 10000, vault_y_amount: 0 };
    assert!(empty.can_take_fee(1, false));
    let good = Swap { fee: 10000, vault_x_amount: 10000, vault_y_amount: 10000 };
    assert!(good.can_take_fee(1, true));
}

#[test]
fn swap_output_grows_with_input_and_shrinks_with_fee() {
    assert_eq!(calculate_swap_output(999, 10000, 10000, 30), Ok(905));
    assert_eq!(calculate_swap_output(2000, 10000, 10000, 30), Ok(1662));
    assert_eq!(calculate_swap_output(1000, 10000, 10000, 100), Ok(900));
}

#[test]
fn isqrt_values() {
    assert_eq!(isqrt(0), Some(0));
    assert_eq!(isqrt(1), Some(1));
    assert_eq!(isqrt(15), Some(3));
    assert_eq!(isqrt(16), Some(4));
    assert_eq!(isqrt(17), Some(4));
    assert_eq!(isqrt(u128::MAX - 1), Some(u64::MAX as u128));
}

#[test]
fn first_deposit_mints_square_root() {
    let ctx = Deposit { lp_supply: 0, vault_x_amount: 0, vault_y_amount: 0 };
    let plan = ctx.deposit(100, 400, 0).unwrap();
    assert_eq!(
        plan,
        vec![
            TokenInstruction::TransferToVault { side: Side::X, amount: 100 },
            TokenInstruction::TransferToVault { side: Side::Y, amount: 400 },
            TokenInstruction::MintLp { amount: 200 },
        ]
    );
    assert_eq!(minted(&ctx.deposit(2, 3, 0).unwrap()), 2);
}

#[test]
fn later_deposit_mints_smaller_share() {
    let ctx = Deposit { lp_supply: 100, vault_x_amount: 1000, vault_y_amount: 2000 };
    // 50 * 100 / 1000 = 5, 200 * 100 / 2000 = 10
    assert_eq!(minted(&ctx.deposit(50, 200, 0).unwrap()), 5);
    assert_eq!(minted(&ctx.deposit(50, 200, 5).unwrap()), 5);
}

#[test]
fn deposit_refusals() {
    let ctx = Deposit { lp_supply: 100, vault_x_amount: 1000, vault_y_amount: 2000 };
    assert_eq!(ctx.deposit(0, 200, 0), Err(AmmError::ZeroAmount));
    assert_eq!(ctx.deposit(50, 0, 0), Err(AmmError::ZeroAmount));
    assert_eq!(ctx.deposit(50, 200, 6), Err(AmmError::SlippageExceeded));
    let drained = Deposit { lp_supply: 100, vault_x_amount: 0, vault_y_amount: 2000 };
    assert_eq!(drained.deposit(50, 200, 0), Err(AmmError::Overflow));
    let drained_y = Deposit { lp_supply: 100, vault_x_amount: 1000, vault_y_amount: 0 };
    assert_eq!(drained_y.deposit(50, 200, 0), Err(AmmError::Overflow));
}

#[test]
fn deposit_refuses_share_above_u64() {
    // 4 * 2^63 / 1 = 2^65 does not fit in 64 bits
    let ctx = Deposit { lp_supply: 1u64 << 63, vault_x_amount: 1, vault_y_amount: 1 };
    assert_eq!(ctx.deposit(4, 4, 0), Err(AmmError::Overflow));
    let huge = Deposit { lp_supply: u64::MAX, vault_x_amount: 1, vault_y_amount: 1 };
    assert_eq!(huge.deposit(u64::MAX, u64::MAX, 0), Err(AmmError::Overflow));
    // the smaller share decides: 1 * 2^63 / 1 fits, 4 * 2^63 / 1 does not
    assert_eq!(minted(&ctx.deposit(1, 4, 0).unwrap()), 1u64 << 63);
}

#[test]
fn withdraw_refuses_share_above_u64() {
    // burning twice the supply of a full vault: 2 * (2^64 - 1) / 1
    let ctx = Withdraw { lp_supply: 1, vault_x_amount: u64::MAX, vault_y_amount: 1 };
    assert_eq!(ctx.withdraw(2, 0, 0), Err(AmmError::Overflow));
    let ctx_y = Withdraw { lp_supply: 1, vault_x_amount: 1, vault_y_amount: u64::MAX };
    assert_eq!(ctx_y.withdraw(2, 0, 0), Err(AmmError::Overflow));
    // burning more than the supply still pays a share that fits
    let small = Withdraw { lp_supply: 2, vault_x_amount: 10, vault_y_amount: 20 };
    let plan = small.withdraw(3, 0, 0).unwrap();
    assert_eq!(paid_out(&plan, 1), 15);
    assert_eq!(paid_out(&plan, 2), 30);
}

#[test]
fn withdraw_pays_proportional_share() {
    let ctx = Withdraw { lp_supply: 100, vault_x_amount: 1000, vault_y_amount: 2000 };
    let plan = ctx.withdraw(10, 100, 200).unwrap();
    assert_eq!(
        plan,
        vec![
            TokenInstruction::BurnLp { amount: 10 },
            TokenInstruction::TransferFromVault { side: Side::X, amount: 100 },
            TokenInstruction::TransferFromVault { side: Side::Y, amount: 200 },
        ]
    );
}

#[test]
fn withdraw_whole_supply_empties_vaults() {
    let ctx = Withdraw { lp_supply: 7, vault_x_amount: 1001, vault_y_amount: 13 };
    let plan = ctx.withdraw(7, 0, 0).unwrap();
    assert_eq!(paid_out(&plan, 1), 1001);
    assert_eq!(paid_out(&plan, 2), 13);
}

#[test]
fn withdraw_rounds_down() {
    let ctx = Withdraw { lp_supply: 3, vault_x_amount: 10, vault_y_amount: 11 };
    let plan = ctx.withdraw(1, 0, 0).unwrap();
    assert_eq!(paid_out(&plan, 1), 3);
    assert_eq!(paid_out(&plan, 2), 3);
}

#[test]
fn withdraw_refusals() {
    let ctx = Withdraw { lp_supply: 100, vault_x_amount: 1000, vault_y_amount: 2000 };
    assert_eq!(ctx.withdraw(0, 0, 0), Err(AmmError::ZeroAmount));
    assert_eq!(ctx.withdraw(10, 101, 0), Err(AmmError::SlippageExceeded));
    assert_eq!(ctx.withdraw(10, 0, 201), Err(AmmError::SlippageExceeded));
    let empty = Withdraw { lp_supply: 0, vault_x_amount: 1000, vault_y_amount: 2000 };
    assert_eq!(empty.withdraw(10, 0, 0), Err(AmmError::PoolEmpty));
}

#[test]
fn swap_x_for_y() {
    let ctx = Swap { fee: 30, vault_x_amount: 10000, vault_y_amount: 10000 };
    assert_eq!(
        ctx.swap(1000, 906, true).unwrap(),
        vec![
            TokenInstruction::TransferToVault { side: Side::X, amount: 1000 },
            TokenInstruction::TransferFromVault { side: Side::Y, amount: 906 },
        ]
    );
}

#[test]
fn swap_y_for_x_uses_y_as_input_reserve() {
    let ctx = Swap { fee: 30, vault_x_amount: 20000, vault_y_amount: 10000 };
    // 20000 * 997 / (10000 + 997) = 1813
    assert_eq!(
        ctx.swap(1000, 0, false).unwrap(),
        vec![
            TokenInstruction::TransferToVault { side: Side::Y, amount: 1000 },
            TokenInstruction::TransferFromVault { side: Side::X, amount: 1813 },
        ]
    );
}

#[test]
fn swap_refusals() {
    let ctx = Swap { fee: 30, vault_x_amount: 10000, vault_y_amount: 10000 };
    assert_eq!(ctx.swap(0, 0, true), Err(AmmError::ZeroAmount));
    assert_eq!(ctx.swap(1000, 907, true), Err(AmmError::SlippageExceeded));
    let empty = Swap { fee: 30, vault_x_amount: 10000, vault_y_amount: 0 };
    assert_eq!(empty.swap(1000, 0, true), Err(AmmError::PoolEmpty));
}

#[test]
fn swap_keeps_product_of_reserves() {
    let ctx = Swap { fee: 30, vault_x_amount: 10000, vault_y_amount: 10000 };
    let out = paid_out(&ctx.swap(1000, 0, true).unwrap(), 1);
    let after_x = 10000u128 + 1000;
    let after_y = 10000u128 - out as u128;
    assert!(after_x * after_y >= 10000u128 * 10000);
}

#[test]
fn swap_round_trip_gains_nothing() {
    let ctx = Swap { fee: 30, vault_x_amount: 10000, vault_y_amount: 10000 };
    let out = paid_out(&ctx.swap(1000, 0, true).unwrap(), 1);
    assert_eq!(out, 906);
    let next = Swap { fee: 30, vault_x_amount: 11000, vault_y_amount: 10000 - out };
    let back = paid_out(&next.swap(out, 0, false).unwrap(), 1);
    assert_eq!(back, 993);
    assert!(back <= 1000);
}

#[test]
fn deposit_then_withdraw_gains_nothing() {
    let ctx = Deposit { lp_supply: 100, vault_x_amount: 1000, vault_y_amount: 2000 };
    let lp = minted(&ctx.deposit(57, 230, 0).unwrap());
    assert_eq!(lp, 5);
    let after = Withdraw { lp_supply: 100 + lp, vault_x_amount: 1057, vault_y_amount: 2230 };
    let plan = after.withdraw(lp, 0, 0).unwrap();
    assert!(paid_out(&plan, 1) <= 57);
    assert!(paid_out(&plan, 2) <= 230);
}

#[test]
fn deposit_then_withdraw_on_fresh_pool_pays_back_exactly() {
    let ctx = Deposit { lp_supply: 0, vault_x_amount: 0, vault_y_amount: 0 };
    let lp = minted(&ctx.deposit(37, 1000, 0).unwrap());
    assert_eq!(lp, 192);
    let after = Withdraw { lp_supply: lp, vault_x_amount: 37, vault_y_amount: 1000 };
    let plan = after.withdraw(lp, 0, 0).unwrap();
    assert_eq!(paid_out(&plan, 1), 37);
    assert_eq!(paid_out(&plan, 2), 1000);
}

#[test]
fn first_depositor_takes_earlier_vault_balance() {
    // tokens sent to the vaults before any LP token exists go to the first depositor
    let ctx = Deposit { lp_supply: 0, vault_x_amount: 500, vault_y_amount: 0 };
    let lp = minted(&ctx.deposit(100, 100, 0).unwrap());
    assert_eq!(lp, 100);
    let after = Withdraw { lp_supply: lp, vault_x_amount: 600, vault_y_amount: 100 };
    let plan = after.withdraw(lp, 0, 0).unwrap();
    assert_eq!(paid_out(&plan, 1), 600);
}

#[test]
fn initialize_checks_fee() {
    let ctx = Initialize { mint_x: [1; 32], mint_y: [2; 32], config_bump: 254, lp_bump: 253 };
    assert!(matches!(ctx.initialize(7, 10001), Err(AmmError::InvalidFee)));
    let config = ctx.initialize(7, 10000).unwrap();
    assert_eq!(config.seed, 7);
    assert_eq!(config.fee, 10000);
    assert_eq!(config.mint_x, [1; 32]);
    assert_eq!(config.mint_y, [2; 32]);
    assert_eq!(config.bump, 254);
    assert_eq!(config.lp_bump, 253);
    assert_eq!(amm::initialize(&ctx, 1, 300).unwrap().fee, 300);
}

#[test]
fn config_space_and_seeds() {
    assert_eq!(Config::LEN, 84);
    let config = Config {
        seed: 0x0102030405060708,
        fee: 300,
        mint_x: [3; 32],
        mint_y: [4; 32],
        lp_bump: 9,
        bump: 250,
    };
    let seeds = config.signer_seeds();
    assert_eq!(seeds.len(), 5);
    assert_eq!(seeds[0], b"amm".to_vec());
    assert_eq!(seeds[1], vec![3u8; 32]);
    assert_eq!(seeds[2], vec![4u8; 32]);
    assert_eq!(seeds[3], vec![8u8, 7, 6, 5, 4, 3, 2, 1]);
    assert_eq!(seeds[4], vec![250u8]);
}

#[test]
fn error_messages() {
    assert_eq!(AmmError::InvalidFee.message(), "Fee must be between 0 and 10000 basis points");
    assert_eq!(AmmError::ZeroAmount.message(), "Amount must be greater than zero");
    assert_eq!(AmmError::SlippageExceeded.message(), "Slippage tolerance exceeded");
    assert_eq!(AmmError::PoolEmpty.message(), "Pool reserves are zero");
    assert_eq!(AmmError::Overflow.message(), "Overflow occurred during calculation");
}

#[test]
fn program_entry_points_forward() {
    let d = Deposit { lp_supply: 0, vault_x_amount: 0, vault_y_amount: 0 };
    assert_eq!(minted(&amm::deposit(&d, 9, 4, 6).unwrap()), 6);
    let w = Withdraw { lp_supply: 6, vault_x_amount: 9, vault_y_amount: 4 };
    assert_eq!(paid_out(&amm::withdraw(&w, 3, 0, 0).unwrap(), 1), 4);
    let s = Swap { fee: 0, vault_x_amount: 100, vault_y_amount: 100 };
    assert_eq!(paid_out(&amm::swap(&s, 100, 0, true).unwrap(), 1), 50);
}
