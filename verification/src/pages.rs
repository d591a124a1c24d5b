//! Listing the pages of a browser under a time limit and a cancellation signal.
//!
//! A worker does the listing. The caller meanwhile polls: it looks at the signal and the
//! deadline, waits a little for the worker, and looks again. Times are in nanoseconds.

use crate::failure::Failure;
use vstd::prelude::*;
use vstd::string::*;

verus! {

/// How long a listing may take unless told otherwise: half a minute.
pub const DEFAULT_PAGES_TIMEOUT_MS: u64 = 30_000;

/// The longest wait between two looks at the signal: five milliseconds.
pub const CANCEL_POLL_NANOS: u64 = 5_000_000;

/// How a listing begins.
#[derive(Debug)]
pub enum Listing {
    /// There is no signal to watch: list the pages directly.
    Direct,
    /// The listing fails at once.
    Refused(Failure),
    /// A worker lists the pages; `timeout_ms` is the limit that a timeout reports.
    Polled { timeout_ms: u64 },
}

/// The limit that a timeout reports: whole milliseconds, as far as they fit.
pub open spec fn reported_millis(timeout_nanos: int) -> u64 {
    if timeout_nanos / 1_000_000 <= u64::MAX {
        (timeout_nanos / 1_000_000) as u64
    } else {
        u64::MAX
    }
}

/// How a listing begins; `cancelled` is the state of the signal, if there is one.
pub open spec fn listing_begins(cancelled: Option<bool>, timeout_nanos: int) -> Listing {
    match cancelled {
        None => Listing::Direct,
        Some(true) => Listing::Refused(Failure::Cancelled),
        Some(false) => if timeout_nanos == 0 {
            Listing::Refused(Failure::Timeout(0))
        } else {
            Listing::Polled { timeout_ms: reported_millis(timeout_nanos) }
        },
    }
}

/// Decides how a listing begins.
pub fn begin_listing(cancelled: Option<bool>, timeout_nanos: u128) -> (r: Listing)
    ensures
        r == listing_begins(cancelled, timeout_nanos as int),
{
    match cancelled {
        None => Listing::Direct,
        Some(cancelled) => if cancelled {
            Listing::Refused(Failure::Cancelled)
        } else if timeout_nanos == 0 {
            Listing::Refused(Failure::Timeout(0))
        } else {
            let millis: u128 = timeout_nanos / 1_000_000;
            Listing::Polled {
                timeout_ms: if millis <= u64::MAX as u128 {
                    millis as u64
                } else {
                    u64::MAX
                },
            }
        },
    }
}

/// What the caller does next.
#[derive(Debug)]
pub enum Turn {
    /// Give up.
    Refused(Failure),
    /// Wait so long for the worker.
    Wait { nanos: u64 },
}

/// What the caller does next; `remaining` is the time to the deadline, if there is one.
pub open spec fn listing_turn(cancelled: bool, remaining: Option<int>, timeout_ms: u64) -> Turn {
    if cancelled {
        Turn::Refused(Failure::Cancelled)
    } else {
        match remaining {
            None => Turn::Wait { nanos: CANCEL_POLL_NANOS },
            Some(left) => if left == 0 {
                Turn::Refused(Failure::Timeout(timeout_ms))
            } else if left < CANCEL_POLL_NANOS {
                Turn::Wait { nanos: left as u64 }
            } else {
                Turn::Wait { nanos: CANCEL_POLL_NANOS }
            },
        }
    }
}

/// The time to a deadline as a number.
pub open spec fn time_left(remaining: Option<u128>) -> Option<int> {
    match remaining {
        None => None,
        Some(left) => Some(left as int),
    }
}

/// Decides what the caller does next.
pub fn next_turn(cancelled: bool, remaining: Option<u128>, timeout_ms: u64) -> (r: Turn)
    ensures
        r == listing_turn(cancelled, time_left(remaining), timeout_ms),
{
    if cancelled {
        return Turn::Refused(Failure::Cancelled);
    }
    let wait: u128 = match remaining {
        Some(left) => left,
        None => CANCEL_POLL_NANOS as u128,
    };
    if wait == 0 {
        Turn::Refused(Failure::Timeout(timeout_ms))
    } else if wait < CANCEL_POLL_NANOS as u128 {
        Turn::Wait { nanos: wait as u64 }
    } else {
        Turn::Wait { nanos: CANCEL_POLL_NANOS }
    }
}

/// What a wait for the worker brings.
#[derive(Debug)]
pub enum Heard<T> {
    /// The worker's result.
    Listed(T),
    /// Nothing yet.
    Nothing,
    /// The worker is gone and left no result.
    Gone,
}

/// What a wait amounts to: the worker's result, unless the caller asked to stop meanwhile;
/// a failure where the worker is gone; or nothing, and the caller goes on polling.
pub fn after_wait<T>(cancelled: bool, heard: Heard<T>) -> (r: Option<Result<T, Failure>>)
    ensures
        match heard {
            Heard::Listed(result) => r == if cancelled {
                Some(Err::<T, Failure>(Failure::Cancelled))
            } else {
                Some(Ok::<T, Failure>(result))
            },
            Heard::Nothing => r is None,
            Heard::Gone => r matches Some(Err(Failure::Message(message))) && message@
                == "page listing worker stopped"@,
        },
{
    match heard {
        Heard::Listed(result) => if cancelled {
            Some(Err(Failure::Cancelled))
        } else {
            Some(Ok(result))
        },
        Heard::Nothing => None,
        Heard::Gone => Some(
            Err(Failure::Message(String::from_str("page listing worker stopped"))),
        ),
    }
}

/// A signal that is given wins over everything else, before and while polling.
pub proof fn cancellation_wins(timeout_nanos: int, remaining: Option<int>, timeout_ms: u64)
    ensures
        listing_begins(Some(true), timeout_nanos) == Listing::Refused(Failure::Cancelled),
        listing_turn(true, remaining, timeout_ms) == Turn::Refused(Failure::Cancelled),
{
}

/// A caller waits at most five milliseconds at a time and never past the deadline, and each
/// wait leaves less time than there was: polling ends.
pub proof fn waits_are_short(remaining: int, timeout_ms: u64)
    requires
        remaining >= 0,
    ensures
        match listing_turn(false, Some(remaining), timeout_ms) {
            Turn::Wait { nanos } => {
                &&& 0 < nanos <= CANCEL_POLL_NANOS
                &&& 0 <= remaining - nanos < remaining
            },
            Turn::Refused(failure) => remaining == 0 && failure == Failure::Timeout(timeout_ms),
        },
{
}

/// A limit of whole milliseconds is reported as it was given.
pub proof fn whole_limits_are_reported(millis: u64)
    requires
        millis > 0,
    ensures
        listing_begins(Some(false), millis * 1_000_000) == (Listing::Polled {
            timeout_ms: millis,
        }),
{
    assert((millis * 1_000_000) / 1_000_000 == millis as int);
}

/// A listing begins directly where there is no signal, is refused where the signal is given
/// or there is no time, and is polled otherwise; the limit that it reports is the whole
/// milliseconds of its time, or the greatest that can be reported.
pub proof fn listings_begin_by_signal_and_time(
    cancelled: Option<bool>,
    timeout_nanos: u128,
    begun: Listing,
)
    requires
        call_ensures(begin_listing, (cancelled, timeout_nanos), begun),
    ensures
        begun is Direct == cancelled is None,
        cancelled == Some(true) ==> begun is Refused && begun->Refused_0 is Cancelled,
        cancelled == Some(false) && timeout_nanos == 0 ==> begun is Refused && begun->Refused_0
            == Failure::Timeout(0),
        cancelled == Some(false) && timeout_nanos > 0 ==> {
            &&& begun is Polled
            &&& begun->timeout_ms * 1_000_000 <= timeout_nanos
            &&& begun->timeout_ms < 0xffff_ffff_ffff_ffff ==> timeout_nanos < (begun->timeout_ms
                + 1) * 1_000_000
        },
{
    if timeout_nanos as int / 1_000_000 <= u64::MAX {
        assert((timeout_nanos as int / 1_000_000) * 1_000_000 <= timeout_nanos) by (
        nonlinear_arith);
    }
}

/// While polling, the signal is looked at first, then the deadline; and the caller waits for
/// the time that is left, but for no more than five milliseconds.
pub proof fn turns_follow_signal_and_deadline(
    cancelled: bool,
    remaining: Option<u128>,
    timeout_ms: u64,
    turn: Turn,
)
    requires
        call_ensures(next_turn, (cancelled, remaining, timeout_ms), turn),
    ensures
        cancelled ==> turn is Refused && turn->Refused_0 is Cancelled,
        !cancelled && remaining == Some(0u128) ==> turn is Refused && turn->Refused_0
            == Failure::Timeout(timeout_ms),
        !cancelled && remaining != Some(0u128) ==> turn is Wait && 0 < turn->nanos <= 5_000_000,
        !cancelled && remaining is None ==> turn->nanos == 5_000_000,
        !cancelled && remaining is Some && 0 < remaining->0 <= 5_000_000 ==> turn->nanos
            == remaining->0,
        !cancelled && remaining is Some && remaining->0 >= 5_000_000 ==> turn->nanos == 5_000_000,
{
}

/// A result that arrives is handed on as it is, unless the caller asked to stop meanwhile;
/// without a result the caller goes on, and without a worker it fails.
pub proof fn waits_hand_on_the_result<T>(
    cancelled: bool,
    result: T,
    listed: Option<Result<T, Failure>>,
    nothing: Option<Result<T, Failure>>,
    gone: Option<Result<T, Failure>>,
)
    requires
        call_ensures(after_wait::<T>, (cancelled, Heard::Listed(result)), listed),
        call_ensures(after_wait::<T>, (cancelled, Heard::Nothing), nothing),
        call_ensures(after_wait::<T>, (cancelled, Heard::Gone), gone),
    ensures
        listed is Some,
        !cancelled ==> listed->0 is Ok && listed->0->Ok_0 == result,
        cancelled ==> listed->0 is Err && listed->0->Err_0 is Cancelled,
        nothing is None,
        gone is Some && gone->0 is Err && gone->0->Err_0 is Message && (
        gone->0->Err_0->Message_0)@ == "page listing worker stopped"@,
{
}

} // verus!
