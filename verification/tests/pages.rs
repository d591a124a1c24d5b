use rustwright::pages::{
    after_wait, begin_listing, next_turn, Heard, Listing, Turn, CANCEL_POLL_NANOS,
    DEFAULT_PAGES_TIMEOUT_MS,
};
use rustwright::Failure;

#[test]
fn listing_without_a_signal_is_direct() {
    assert!(matches!(begin_listing(None, 0), Listing::Direct));
    assert!(matches!(begin_listing(None, 1_000_000), Listing::Direct));
    assert_eq!(DEFAULT_PAGES_TIMEOUT_MS, 30_000);
}

#[test]
fn listing_that_is_cancelled_is_refused_before_its_limit_is_read() {
    assert!(matches!(begin_listing(Some(true), 0), Listing::Refused(Failure::Cancelled)));
    assert!(matches!(begin_listing(Some(true), 5), Listing::Refused(Failure::Cancelled)));
}

#[test]
fn listing_without_time_is_refused() {
    assert!(matches!(begin_listing(Some(false), 0), Listing::Refused(Failure::Timeout(0))));
}

#[test]
fn listing_reports_whole_milliseconds() {
    assert!(matches!(begin_listing(Some(false), 1), Listing::Polled { timeout_ms: 0 }));
    assert!(matches!(begin_listing(Some(false), 999_999), Listing::Polled { timeout_ms: 0 }));
    assert!(matches!(
        begin_listing(Some(false), 30_000_000_000),
        Listing::Polled { timeout_ms: 30_000 }
    ));
    assert!(matches!(
        begin_listing(Some(false), u128::MAX),
        Listing::Polled { timeout_ms: u64::MAX }
    ));
}

#[test]
fn turns_watch_the_signal_first() {
    assert!(matches!(next_turn(true, Some(0), 7), Turn::Refused(Failure::Cancelled)));
    assert!(matches!(next_turn(true, None, 7), Turn::Refused(Failure::Cancelled)));
}

#[test]
fn turns_end_at_the_deadline() {
    assert!(matches!(next_turn(false, Some(0), 7), Turn::Refused(Failure::Timeout(7))));
}

#[test]
fn turns_wait_at_most_five_milliseconds() {
    assert_eq!(CANCEL_POLL_NANOS, 5_000_000);
    assert!(matches!(next_turn(false, None, 7), Turn::Wait { nanos: 5_000_000 }));
    assert!(matches!(next_turn(false, Some(1), 7), Turn::Wait { nanos: 1 }));
    assert!(matches!(next_turn(false, Some(4_999_999), 7), Turn::Wait { nanos: 4_999_999 }));
    assert!(matches!(next_turn(false, Some(5_000_000), 7), Turn::Wait { nanos: 5_000_000 }));
    assert!(matches!(next_turn(false, Some(u128::MAX), 7), Turn::Wait { nanos: 5_000_000 }));
}

#[test]
fn waits_end_with_the_result_unless_cancelled() {
    assert!(matches!(after_wait(false, Heard::Listed(3)), Some(Ok(3))));
    assert!(matches!(after_wait(true, Heard::Listed(3)), Some(Err(Failure::Cancelled))));
    assert!(after_wait::<u8>(true, Heard::Nothing).is_none());
    assert!(after_wait::<u8>(false, Heard::Nothing).is_none());
    match after_wait::<u8>(false, Heard::Gone) {
        Some(Err(Failure::Message(message))) => assert_eq!(message, "page listing worker stopped"),
        other => panic!("{:?}", other),
    }
}

#[test]
fn polling_comes_to_an_end() {
    let mut left: u128 = 12_000_001;
    let mut waits = Vec::new();
    loop {
        match next_turn(false, Some(left), 12) {
            Turn::Wait { nanos } => {
                waits.push(nanos);
                left -= u128::from(nanos);
            }
            Turn::Refused(failure) => {
                assert!(matches!(failure, Failure::Timeout(12)));
                break;
            }
        }
    }
    assert_eq!(waits, vec![5_000_000, 5_000_000, 2_000_001]);
}
