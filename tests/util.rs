use todograph::errors::{BadAuth, ErrorString};
use todograph::util::{log_err, ErrorCauseIter};

fn chain(messages: &[&str]) -> Vec<String> {
    messages.iter().map(|m| m.to_string()).collect()
}

#[test]
fn log_err_single_error_is_one_plain_line() {
    assert_eq!(log_err(&chain(&["disk full"])), chain(&["disk full"]));
}

#[test]
fn log_err_chain_marks_causes() {
    assert_eq!(
        log_err(&chain(&["query failed", "disk full", "io error"])),
        chain(&["           query failed", "caused by: disk full", "caused by: io error"])
    );
}

#[test]
fn log_err_empty_chain() {
    assert!(log_err(&Vec::new()).is_empty());
}

#[test]
fn cause_iter_hands_out_in_order() {
    let mut it = ErrorCauseIter::from(chain(&["outer", "inner"]));
    assert_eq!(it.count(), 2);
    assert_eq!(it.next(), Some("outer".to_string()));
    assert_eq!(it.count(), 1);
    assert_eq!(it.next(), Some("inner".to_string()));
    assert_eq!(it.next(), None);
    assert_eq!(it.next(), None);
    assert_eq!(it.count(), 0);
}

#[test]
fn error_messages() {
    assert_eq!(BadAuth.message(), "BadAuth");
    assert_eq!(ErrorString("no address".to_string()).message(), "no address");
}
