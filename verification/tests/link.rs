use wstp::error::Error;
use wstp::link::{Link, Phase, FAILED};

fn loopback() -> Link {
    Link::opened(true, "a link".to_string(), true, 0).unwrap()
}

fn remote() -> Link {
    Link::opened(false, "a link".to_string(), true, 0).unwrap()
}

fn dead() -> Error {
    Error::Transport { code: Some(1), message: "link is dead".to_string() }
}

#[test]
fn loopback_starts_activated() {
    let link = loopback();
    assert_eq!(link.phase(), Phase::Activated);
    assert!(link.is_loopback());
    assert!(link.is_usable());
    assert!(!link.needs_activation());
    assert_eq!(link.error(), None);
    assert_eq!(link.link_name(), "a link");
}

#[test]
fn other_links_start_open() {
    let link = remote();
    assert_eq!(link.phase(), Phase::Open);
    assert!(!link.is_loopback());
    assert!(link.is_usable());
    assert!(link.needs_activation());
}

#[test]
fn opening_fails_without_a_handle() {
    let failed = Link::opened(true, String::new(), false, 0);
    assert_eq!(failed.unwrap_err(), Error::from_code(0));
}

#[test]
fn opening_fails_on_an_error_code() {
    let failed = Link::opened(false, String::new(), true, 12);
    assert_eq!(
        failed.unwrap_err(),
        Error::Transport {
            code: Some(12),
            message: "WSTP error code 12 occurred.".to_string(),
        }
    );
    let both = Link::opened(false, String::new(), false, 5);
    assert_eq!(both.unwrap_err(), Error::from_code(5));
}

#[test]
fn handshake_activates() {
    let mut link = remote();
    assert_eq!(link.activate(1, None), Ok(()));
    assert_eq!(link.phase(), Phase::Activated);
    assert_eq!(link.error(), None);
    assert_eq!(link.activate(1, None), Ok(()));
    assert_eq!(link.phase(), Phase::Activated);
}

#[test]
fn failed_handshake_hands_out_the_recorded_error() {
    let mut link = remote();
    assert_eq!(link.activate(FAILED, Some(dead())), Err(dead()));
    assert_eq!(link.phase(), Phase::Open);
    assert_eq!(link.error(), Some(dead()));
    assert_eq!(link.error_message(), Some("link is dead".to_string()));
}

#[test]
fn failure_without_a_record_is_the_unknown_error() {
    let mut link = loopback();
    let unknown = Error::or_unknown(None);
    assert_eq!(link.complete(FAILED, None), Err(unknown.clone()));
    assert_eq!(link.error(), Some(unknown));
    assert_eq!(
        link.error_message(),
        Some("unknown error occurred on WSLINK".to_string())
    );
}

#[test]
fn error_stays_until_cleared_or_replaced() {
    let mut link = loopback();
    assert_eq!(link.complete(FAILED, Some(dead())), Err(dead()));
    assert_eq!(link.complete(1, None), Ok(()));
    assert_eq!(link.error(), Some(dead()));
    let other = Error::Transport { code: Some(9), message: "other".to_string() };
    assert_eq!(link.complete(FAILED, Some(other.clone())), Err(other.clone()));
    assert_eq!(link.error(), Some(other));
    link.clear_error();
    assert_eq!(link.error(), None);
    assert_eq!(link.error_message(), None);
    assert!(link.is_usable());
}

#[test]
fn success_ignores_what_was_recorded() {
    let mut link = loopback();
    assert_eq!(link.complete(1, Some(dead())), Ok(()));
    assert_eq!(link.complete(-1, Some(dead())), Ok(()));
    assert_eq!(link.error(), None);
}

#[test]
fn failed_transfer_is_the_source_links() {
    let mut source = loopback();
    let mut dest = loopback();
    assert_eq!(source.transfer_expr_to(&mut dest, 1, None), Ok(()));
    assert_eq!(source.error(), None);
    assert_eq!(
        source.transfer_expr_to(&mut dest, FAILED, Some(dead())),
        Err(dead())
    );
    assert_eq!(source.error(), Some(dead()));
    assert_eq!(dest.error(), None);
    assert!(dest.is_usable());
}

#[test]
fn close_releases_once() {
    let mut link = loopback();
    assert!(link.close());
    assert_eq!(link.phase(), Phase::Closed);
    assert!(!link.is_usable());
    assert!(!link.close());
    assert!(!link.close());
    assert_eq!(link.phase(), Phase::Closed);
}

#[test]
fn close_releases_a_link_that_was_never_activated() {
    let mut link = remote();
    assert!(link.needs_activation());
    assert!(link.close());
    assert!(!link.close());
}

#[test]
fn close_releases_a_link_that_failed() {
    let mut link = remote();
    assert_eq!(link.activate(FAILED, Some(dead())), Err(dead()));
    assert_eq!(link.complete(FAILED, None), Err(Error::or_unknown(None)));
    assert!(link.close());
    assert!(!link.close());
    assert_eq!(link.error(), Some(Error::or_unknown(None)));
}
