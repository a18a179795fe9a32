use wstp::error::{Error, Violation, NO_ERROR};
use wstp::text::{push_decimal, push_signed_decimal};

#[test]
fn decimal_text_of_numbers() {
    for n in [0u64, 1, 9, 10, 11, 99, 100, 101, 65535, 1_000_000, u64::MAX] {
        let mut out = String::from("n=");
        push_decimal(&mut out, n);
        assert_eq!(out, format!("n={}", n));
    }
}

#[test]
fn decimal_text_of_signed_numbers() {
    for n in [0i32, 1, -1, 10, -10, 1000, -1009, i32::MAX, i32::MIN] {
        let mut out = String::new();
        push_signed_decimal(&mut out, n);
        assert_eq!(out, format!("{}", n));
    }
}

#[test]
fn error_from_code_names_the_code() {
    assert_eq!(
        Error::from_code(10),
        Error::Transport {
            code: Some(10),
            message: "WSTP error code 10 occurred.".to_string(),
        }
    );
    assert_eq!(
        Error::from_code(-3).message(),
        "WSTP error code -3 occurred."
    );
}

#[test]
fn custom_error_has_no_code() {
    let e = Error::custom("went wrong".to_string());
    assert_eq!(
        e,
        Error::Transport { code: None, message: "went wrong".to_string() }
    );
    assert_eq!(e.code(), None);
    assert_eq!(e.message(), "went wrong");
}

#[test]
fn native_error_needs_a_code_and_a_message() {
    assert_eq!(Error::from_native(NO_ERROR, Some("fine".to_string())), None);
    assert_eq!(Error::from_native(NO_ERROR, None), None);
    assert_eq!(Error::from_native(7, None), None);
    assert_eq!(
        Error::from_native(7, Some("link died".to_string())),
        Some(Error::Transport { code: Some(7), message: "link died".to_string() })
    );
}

#[test]
fn unknown_error_stands_in_for_none() {
    assert_eq!(
        Error::or_unknown(None),
        Error::Transport {
            code: None,
            message: "unknown error occurred on WSLINK".to_string(),
        }
    );
    let recorded = Error::Transport { code: Some(1), message: "dead".to_string() };
    assert_eq!(Error::or_unknown(Some(recorded.clone())), recorded);
}

#[test]
fn messages_of_each_kind() {
    assert_eq!(
        Error::Protocol { tag: 77 }.message(),
        "unknown token type: 77"
    );
    assert_eq!(
        Error::Protocol { tag: -2 }.message(),
        "unknown token type: -2"
    );
    assert_eq!(
        Error::Domain { reason: Violation::NotANumber }.message(),
        "non-finite real is not representable"
    );
    assert_eq!(
        Error::Domain { reason: Violation::NoContext { name: "x".to_string() } }.message(),
        "symbol has no context"
    );
    assert_eq!(Error::AddressResolution.message(), "socket address list is empty");
    assert_eq!(Violation::NotANumber.message(), "non-finite real is not representable");
}

#[test]
fn codes_of_each_kind() {
    assert_eq!(
        Error::Transport { code: Some(4), message: String::new() }.code(),
        Some(4)
    );
    assert_eq!(Error::Protocol { tag: 4 }.code(), None);
    assert_eq!(Error::Domain { reason: Violation::NotANumber }.code(), None);
    assert_eq!(Error::AddressResolution.code(), None);
}

#[test]
fn error_copies_are_equal() {
    let all = vec![
        Error::Transport { code: Some(4), message: "m".to_string() },
        Error::Protocol { tag: 4 },
        Error::Domain { reason: Violation::NotANumber },
        Error::Domain { reason: Violation::NoContext { name: "n".to_string() } },
        Error::AddressResolution,
    ];
    for e in &all {
        assert_eq!(&e.duplicate(), e);
        assert_eq!(&e.clone(), e);
    }
}
