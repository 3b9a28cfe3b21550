use normandy::logger::Logger;
use normandy::text::decimal;
use normandy::worker::{Elapsed, Failure, RequestResult, Response};

#[test]
fn elapsed_in_milliseconds_drops_the_rest() {
    assert_eq!(Elapsed { secs: 0, nanos: 0 }.as_millis(), 0);
    assert_eq!(Elapsed { secs: 0, nanos: 999_999 }.as_millis(), 0);
    assert_eq!(Elapsed { secs: 0, nanos: 1_000_000 }.as_millis(), 1);
    assert_eq!(Elapsed { secs: 1, nanos: 500_000_000 }.as_millis(), 1500);
    assert_eq!(Elapsed { secs: 2, nanos: 999_999_999 }.as_millis(), 2999);
    assert_eq!(
        Elapsed { secs: u64::MAX, nanos: u32::MAX }.as_millis(),
        u64::MAX as u128 * 1000 + 4294
    );
}

#[test]
fn decimal_writes_numbers_without_leading_zeros() {
    assert_eq!(decimal(0), "0");
    assert_eq!(decimal(7), "7");
    assert_eq!(decimal(10), "10");
    assert_eq!(decimal(1234567890), "1234567890");
    assert_eq!(decimal(u128::MAX), "340282366920938463463374607431768211455");
}

#[test]
fn a_result_with_an_answer_shows_time_and_status() {
    let result =
        RequestResult::new(Elapsed { secs: 0, nanos: 12_345_678 }, Ok(Response { status: 200 }));
    assert_eq!(result.render(), "(Elapsed: 12ms) { status: 200 OK }");
    let result =
        RequestResult::new(Elapsed { secs: 3, nanos: 1_000_000 }, Ok(Response { status: 404 }));
    assert_eq!(result.render(), "(Elapsed: 3001ms) { status: 404 Not Found }");
}

#[test]
fn a_status_without_a_phrase_is_shown_as_unknown() {
    let result = RequestResult::new(Elapsed { secs: 0, nanos: 0 }, Ok(Response { status: 299 }));
    assert_eq!(result.render(), "(Elapsed: 0ms) { status: 299 <unknown status code> }");
}

#[test]
fn a_number_that_is_no_status_is_shown_alone() {
    let result = RequestResult::new(Elapsed { secs: 0, nanos: 0 }, Ok(Response { status: 99 }));
    assert_eq!(result.render(), "(Elapsed: 0ms) { status: 99 }");
    let result = RequestResult::new(Elapsed { secs: 0, nanos: 0 }, Ok(Response { status: 1000 }));
    assert_eq!(result.render(), "(Elapsed: 0ms) { status: 1000 }");
}

#[test]
fn a_result_without_an_answer_shows_time_and_failure() {
    let result = RequestResult::new(
        Elapsed { secs: 1, nanos: 0 },
        Err(Failure { message: "connection refused".to_string() }),
    );
    assert_eq!(result.render(), "(Elapsed: 1000ms): connection refused");
    assert_eq!(result.result().unwrap_err().message, "connection refused");
    assert_eq!(result.duration().as_millis(), 1000);
}

#[test]
fn a_logger_is_quiet_until_told_otherwise() {
    let mut logger = Logger::new();
    assert!(!logger.verbose());
    logger.set_verbose(true);
    assert!(logger.verbose());
    logger.set_verbose(false);
    assert!(!logger.verbose());
    assert!(!Logger::default().verbose());
}
