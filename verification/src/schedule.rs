//! The rules of time and fees: when a payment's dates are in order, how many
//! transfers it makes, what they cost, and which time buckets may be opened.

use vstd::prelude::*;
use crate::errors::ErrorCode;
use crate::state::Config;

verus! {

/// The length of a time bucket, in seconds.
pub const ONE_MINUTE: u64 = 60;

/// Whether the dates of a payment are in order: a payment made once starts
/// and ends at the same time; a recurring one does not end before it starts.
pub open spec fn chronological(recurrence_interval: u64, start_at: u64, end_at: u64) -> bool {
    if recurrence_interval == 0 {
        start_at == end_at
    } else {
        start_at <= end_at
    }
}

/// How many transfers a payment with dates in order makes: one if it is made
/// once, else as many as whole intervals fit from its start to its end.
pub open spec fn spec_num_transfers(recurrence_interval: u64, start_at: u64, end_at: u64) -> nat {
    if recurrence_interval == 0 {
        1
    } else {
        ((end_at - start_at) / (recurrence_interval as int)) as nat
    }
}

/// What the transfers of a payment cost: for each, the share of the
/// distributor and the share of the program.
pub open spec fn spec_transfer_fee(num_transfers: nat, config: Config) -> nat {
    (num_transfers * (config.transfer_fee_distributor + config.transfer_fee_program)) as nat
}

/// Whether a time bucket may be opened at `process_at` when the time is
/// `now`: it starts on a full minute and lies in the future.
pub open spec fn spec_check_process_at(process_at: u64, now: i64) -> Result<(), ErrorCode> {
    if process_at % ONE_MINUTE != 0 {
        Err(ErrorCode::InvalidProcessAtIntraMinute)
    } else if process_at <= now {
        Err(ErrorCode::InvalidProcessAtPast)
    } else {
        Ok(())
    }
}

/// The number of transfers of a payment, or `InvalidChronology` if its dates
/// are not in order.
pub fn num_transfers(recurrence_interval: u64, start_at: u64, end_at: u64) -> (r: Result<
    u64,
    ErrorCode,
>)
    ensures
        chronological(recurrence_interval, start_at, end_at) ==> r is Ok && r->Ok_0
            == spec_num_transfers(recurrence_interval, start_at, end_at),
        !chronological(recurrence_interval, start_at, end_at) ==> r == Err::<u64, ErrorCode>(
            ErrorCode::InvalidChronology,
        ),
{
    if recurrence_interval == 0 {
        if start_at == end_at {
            Ok(1)
        } else {
            Err(ErrorCode::InvalidChronology)
        }
    } else {
        if start_at <= end_at {
            let n: u64 = (end_at - start_at) / recurrence_interval;
            Ok(n)
        } else {
            Err(ErrorCode::InvalidChronology)
        }
    }
}

/// The fee of `num_transfers` transfers, or `None` if it is more than any
/// balance can hold.
pub fn transfer_fee(num_transfers: u64, config: &Config) -> (fee: Option<u64>)
    ensures
        match fee {
            Some(f) => f == spec_transfer_fee(num_transfers as nat, *config),
            None => spec_transfer_fee(num_transfers as nat, *config) > u64::MAX,
        },
{
    let each: u128 = config.transfer_fee_distributor as u128 + config.transfer_fee_program as u128;
    times(num_transfers, each)
}

/// What a payment may move in all: `amount` for each of its transfers, or
/// `None` if that is more than any balance can hold.
pub fn total_amount(num_transfers: u64, amount: u64) -> (total: Option<u64>)
    ensures
        match total {
            Some(t) => t == num_transfers * amount,
            None => num_transfers * amount > u64::MAX,
        },
{
    times(num_transfers, amount as u128)
}

/// `n` times `each`, where that fits in 64 bits.
fn times(n: u64, each: u128) -> (product: Option<u64>)
    requires
        each <= 2 * u64::MAX,
    ensures
        match product {
            Some(p) => p == n * each,
            None => n * each > u64::MAX,
        },
{
    if n == 0 {
        assert(n * each == 0) by (nonlinear_arith)
            requires
                n == 0,
        ;
        return Some(0);
    }
    if each > u64::MAX as u128 {
        assert(n * each > u64::MAX) by (nonlinear_arith)
            requires
                n >= 1,
                each > u64::MAX,
        ;
        return None;
    }
    assert(n * each <= u64::MAX * u64::MAX) by (nonlinear_arith)
        requires
            n <= u64::MAX,
            each <= u64::MAX,
    ;
    let product: u128 = n as u128 * each;
    if product > u64::MAX as u128 {
        None
    } else {
        Some(product as u64)
    }
}

/// Whether a time bucket may be opened at `process_at` when the time is `now`.
pub fn check_process_at(process_at: u64, now: i64) -> (r: Result<(), ErrorCode>)
    ensures
        r == spec_check_process_at(process_at, now),
{
    if process_at % ONE_MINUTE != 0 {
        Err(ErrorCode::InvalidProcessAtIntraMinute)
    } else if now >= 0 && process_at <= now as u64 {
        Err(ErrorCode::InvalidProcessAtPast)
    } else {
        Ok(())
    }
}

} // verus!
