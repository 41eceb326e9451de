use faktor::errors::ErrorCode;
use faktor::schedule::{check_process_at, num_transfers, total_amount, transfer_fee, ONE_MINUTE};
use faktor::state::Config;

fn config(program: u64, distributor: u64) -> Config {
    Config { transfer_fee_program: program, transfer_fee_distributor: distributor, nonce: 0 }
}

#[test]
fn payment_made_once_has_one_transfer() {
    assert_eq!(num_transfers(0, 1000, 1000), Ok(1));
    assert_eq!(num_transfers(0, 0, 0), Ok(1));
    assert_eq!(num_transfers(0, u64::MAX, u64::MAX), Ok(1));
}

#[test]
fn payment_made_once_must_start_and_end_together() {
    assert_eq!(num_transfers(0, 1000, 1001), Err(ErrorCode::InvalidChronology));
    assert_eq!(num_transfers(0, 1001, 1000), Err(ErrorCode::InvalidChronology));
}

#[test]
fn recurring_payment_counts_whole_intervals() {
    assert_eq!(num_transfers(300, 1000, 1700), Ok(2));
    assert_eq!(num_transfers(300, 1000, 1600), Ok(2));
    assert_eq!(num_transfers(300, 1000, 1599), Ok(1));
    assert_eq!(num_transfers(300, 1000, 1000), Ok(0));
    assert_eq!(num_transfers(1, 0, u64::MAX), Ok(u64::MAX));
}

#[test]
fn recurring_payment_must_not_end_before_it_starts() {
    assert_eq!(num_transfers(300, 1700, 1000), Err(ErrorCode::InvalidChronology));
}

#[test]
fn fee_is_both_shares_for_each_transfer() {
    let c = config(5, 7);
    assert_eq!(transfer_fee(2, &c), Some(24));
    assert_eq!(transfer_fee(1, &c), Some(12));
    assert_eq!(transfer_fee(0, &c), Some(0));
    let n = num_transfers(300, 1000, 1700).unwrap();
    assert_eq!(transfer_fee(n, &c), Some(2 * (5 + 7)));
}

#[test]
fn fee_beyond_any_balance_is_none() {
    assert_eq!(transfer_fee(1, &config(u64::MAX, 1)), None);
    assert_eq!(transfer_fee(2, &config(u64::MAX / 2, 1)), None);
    assert_eq!(transfer_fee(1, &config(u64::MAX - 1, 1)), Some(u64::MAX));
    assert_eq!(transfer_fee(0, &config(u64::MAX, u64::MAX)), Some(0));
    assert_eq!(transfer_fee(u64::MAX, &config(1, 0)), Some(u64::MAX));
    assert_eq!(transfer_fee(u64::MAX, &config(1, 1)), None);
}

#[test]
fn total_amount_is_amount_for_each_transfer() {
    assert_eq!(total_amount(2, 50), Some(100));
    assert_eq!(total_amount(0, u64::MAX), Some(0));
    assert_eq!(total_amount(2, u64::MAX), None);
    assert_eq!(total_amount(u64::MAX, u64::MAX), None);
    assert_eq!(total_amount(1, u64::MAX), Some(u64::MAX));
}

#[test]
fn time_bucket_starts_on_a_full_minute() {
    assert_eq!(ONE_MINUTE, 60);
    assert_eq!(check_process_at(120, 100), Ok(()));
    assert_eq!(check_process_at(121, 100), Err(ErrorCode::InvalidProcessAtIntraMinute));
    assert_eq!(check_process_at(59, 0), Err(ErrorCode::InvalidProcessAtIntraMinute));
}

#[test]
fn time_bucket_lies_in_the_future() {
    assert_eq!(check_process_at(120, 120), Err(ErrorCode::InvalidProcessAtPast));
    assert_eq!(check_process_at(120, 121), Err(ErrorCode::InvalidProcessAtPast));
    assert_eq!(check_process_at(120, 119), Ok(()));
    assert_eq!(check_process_at(0, 0), Err(ErrorCode::InvalidProcessAtPast));
    assert_eq!(check_process_at(0, -1), Ok(()));
    assert_eq!(check_process_at(60, i64::MAX), Err(ErrorCode::InvalidProcessAtPast));
}

#[test]
fn minute_is_checked_before_the_time() {
    assert_eq!(check_process_at(61, 1000), Err(ErrorCode::InvalidProcessAtIntraMinute));
}
