use wstp::error::Error;
use wstp::token::{
    read_next_packet_boundary, read_next_token_type, Token, TokenKind, ILLEGAL_PACKET, TAG_ERROR,
    TAG_FUNCTION, TAG_INTEGER, TAG_REAL, TAG_STRING, TAG_SYMBOL,
};

#[test]
fn tags_are_the_wire_values() {
    assert_eq!(TAG_ERROR, 0);
    assert_eq!(TAG_STRING, '"' as i32);
    assert_eq!(TAG_SYMBOL, '#' as i32);
    assert_eq!(TAG_REAL, '*' as i32);
    assert_eq!(TAG_INTEGER, '+' as i32);
    assert_eq!(TAG_FUNCTION, 'F' as i32);
    assert_eq!(ILLEGAL_PACKET, 0);
}

#[test]
fn kinds_and_tags_agree() {
    let kinds = [
        TokenKind::Integer,
        TokenKind::Real,
        TokenKind::String,
        TokenKind::Symbol,
        TokenKind::Function,
    ];
    for kind in kinds {
        assert_eq!(TokenKind::from_tag(kind.tag()), Ok(kind));
    }
    assert_eq!(TokenKind::Integer.tag(), 43);
    assert_eq!(TokenKind::Real.tag(), 42);
    assert_eq!(TokenKind::String.tag(), 34);
    assert_eq!(TokenKind::Symbol.tag(), 35);
    assert_eq!(TokenKind::Function.tag(), 70);
}

#[test]
fn unknown_tags_are_protocol_errors() {
    for tag in [0, 1, 33, 36, 41, 44, 69, 71, 73, 82, 255, 299, -1, i32::MAX, i32::MIN] {
        assert_eq!(TokenKind::from_tag(tag), Err(Error::Protocol { tag }));
    }
}

#[test]
fn kind_of_each_token() {
    assert_eq!(Token::Integer(1).kind(), Some(TokenKind::Integer));
    assert_eq!(Token::Real(1).kind(), Some(TokenKind::Real));
    assert_eq!(Token::String(String::new()).kind(), Some(TokenKind::String));
    assert_eq!(Token::Symbol(String::new()).kind(), Some(TokenKind::Symbol));
    assert_eq!(Token::Function(1).kind(), Some(TokenKind::Function));
    assert_eq!(Token::Unrecognized(1).kind(), None);
}

#[test]
fn token_copies_are_equal() {
    let all = vec![
        Token::Integer(-1),
        Token::Real(3),
        Token::String("s".to_string()),
        Token::Symbol("a`b".to_string()),
        Token::Function(2),
        Token::Unrecognized(9),
    ];
    for t in &all {
        assert_eq!(&t.duplicate(), t);
        assert_eq!(&t.clone(), t);
    }
}

#[test]
fn failure_mark_is_a_protocol_error() {
    assert_eq!(read_next_token_type(0), Err(Error::Protocol { tag: 0 }));
    assert_eq!(read_next_token_type(43), Ok(43));
    assert_eq!(read_next_token_type(999), Ok(999));
    assert_eq!(read_next_token_type(-1), Ok(-1));
}

#[test]
fn illegal_packet_is_a_protocol_error() {
    assert_eq!(read_next_packet_boundary(0), Err(Error::Protocol { tag: 0 }));
    assert_eq!(read_next_packet_boundary(3), Ok(3));
    assert_eq!(read_next_packet_boundary(13), Ok(13));
}
