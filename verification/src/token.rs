//! The units that travel over a link.

use vstd::prelude::*;
use crate::error::{Error, ErrorModel};

verus! {

/// The tag with which a read reports that it failed.
pub const TAG_ERROR: i32 = 0;

/// The tag of a text token.
pub const TAG_STRING: i32 = 34;

/// The tag of a symbol token.
pub const TAG_SYMBOL: i32 = 35;

/// The tag of a real token.
pub const TAG_REAL: i32 = 42;

/// The tag of an integer token.
pub const TAG_INTEGER: i32 = 43;

/// The tag of the token that opens a head with its arguments.
pub const TAG_FUNCTION: i32 = 70;

/// The packet type with which a read reports that no packet could be made
/// out.
pub const ILLEGAL_PACKET: i32 = 0;

/// The kinds of token that carry a part of an expression.
#[derive(Debug, Clone, Copy, PartialEq, Eq, Structural)]
pub enum TokenKind {
    Integer,
    Real,
    String,
    Symbol,
    Function,
}

/// One typed unit on the wire: a tag together with its payload.
#[derive(Debug, PartialEq, Eq)]
pub enum Token {
    /// A 64-bit signed integer.
    Integer(i64),
    /// A real, as the bit pattern of an IEEE 754 double.
    Real(u64),
    /// A piece of text.
    String(String),
    /// The name of a symbol.
    Symbol(String),
    /// The start of a head with that many arguments.
    Function(usize),
    /// A tag that starts none of the above, with nothing read after it.
    Unrecognized(i32),
}

/// The mathematical value of a [`Token`].
pub enum TokenModel {
    Integer(i64),
    Real(u64),
    String(Seq<char>),
    Symbol(Seq<char>),
    Function(nat),
    Unrecognized(i32),
}

impl View for Token {
    type V = TokenModel;

    open spec fn view(&self) -> TokenModel {
        match self {
            Token::Integer(value) => TokenModel::Integer(*value),
            Token::Real(bits) => TokenModel::Real(*bits),
            Token::String(text) => TokenModel::String(text@),
            Token::Symbol(name) => TokenModel::Symbol(name@),
            Token::Function(arity) => TokenModel::Function(*arity as nat),
            Token::Unrecognized(tag) => TokenModel::Unrecognized(*tag),
        }
    }
}

/// The values of a run of tokens, in order.
pub open spec fn token_models(tokens: Seq<Token>) -> Seq<TokenModel> {
    Seq::new(tokens.len(), |i: int| tokens[i]@)
}

/// The kind that a tag announces, if it announces one.
pub open spec fn kind_of_tag(tag: i32) -> Option<TokenKind> {
    if tag == TAG_INTEGER {
        Some(TokenKind::Integer)
    } else if tag == TAG_REAL {
        Some(TokenKind::Real)
    } else if tag == TAG_STRING {
        Some(TokenKind::String)
    } else if tag == TAG_SYMBOL {
        Some(TokenKind::Symbol)
    } else if tag == TAG_FUNCTION {
        Some(TokenKind::Function)
    } else {
        None
    }
}

impl TokenKind {
    /// The tag that announces a token of this kind.
    pub open spec fn tag_spec(self) -> i32 {
        match self {
            TokenKind::Integer => TAG_INTEGER,
            TokenKind::Real => TAG_REAL,
            TokenKind::String => TAG_STRING,
            TokenKind::Symbol => TAG_SYMBOL,
            TokenKind::Function => TAG_FUNCTION,
        }
    }

    /// The tag that announces a token of this kind.
    pub fn tag(&self) -> (tag: i32)
        ensures
            tag == self.tag_spec(),
            kind_of_tag(tag) == Some(*self),
    {
        match self {
            TokenKind::Integer => TAG_INTEGER,
            TokenKind::Real => TAG_REAL,
            TokenKind::String => TAG_STRING,
            TokenKind::Symbol => TAG_SYMBOL,
            TokenKind::Function => TAG_FUNCTION,
        }
    }

    /// The kind that a tag announces; a tag that announces none is a
    /// protocol error that carries the tag.
    pub fn from_tag(tag: i32) -> (kind: Result<TokenKind, Error>)
        ensures
            match kind {
                Ok(k) => kind_of_tag(tag) == Some(k),
                Err(e) => kind_of_tag(tag) is None && e@ == ErrorModel::Protocol(tag),
            },
    {
        if tag == TAG_INTEGER {
            Ok(TokenKind::Integer)
        } else if tag == TAG_REAL {
            Ok(TokenKind::Real)
        } else if tag == TAG_STRING {
            Ok(TokenKind::String)
        } else if tag == TAG_SYMBOL {
            Ok(TokenKind::Symbol)
        } else if tag == TAG_FUNCTION {
            Ok(TokenKind::Function)
        } else {
            Err(Error::Protocol { tag })
        }
    }
}

impl Token {
    /// The kind of the token, if it carries a part of an expression.
    pub fn kind(&self) -> (kind: Option<TokenKind>)
        ensures
            kind == match self@ {
                TokenModel::Integer(_) => Some(TokenKind::Integer),
                TokenModel::Real(_) => Some(TokenKind::Real),
                TokenModel::String(_) => Some(TokenKind::String),
                TokenModel::Symbol(_) => Some(TokenKind::Symbol),
                TokenModel::Function(_) => Some(TokenKind::Function),
                TokenModel::Unrecognized(_) => None,
            },
    {
        match self {
            Token::Integer(_) => Some(TokenKind::Integer),
            Token::Real(_) => Some(TokenKind::Real),
            Token::String(_) => Some(TokenKind::String),
            Token::Symbol(_) => Some(TokenKind::Symbol),
            Token::Function(_) => Some(TokenKind::Function),
            Token::Unrecognized(_) => None,
        }
    }

    /// A copy of the token.
    pub fn duplicate(&self) -> (copy: Token)
        ensures
            copy@ == self@,
    {
        match self {
            Token::Integer(value) => Token::Integer(*value),
            Token::Real(bits) => Token::Real(*bits),
            Token::String(text) => Token::String(text.clone()),
            Token::Symbol(name) => Token::Symbol(name.clone()),
            Token::Function(arity) => Token::Function(*arity),
            Token::Unrecognized(tag) => Token::Unrecognized(*tag),
        }
    }
}

impl Clone for Token {
    fn clone(&self) -> (copy: Token)
        ensures
            copy@ == self@,
    {
        self.duplicate()
    }
}

/// Reads the answer of the transport to the question which token comes
/// next: the failure mark is a protocol error, any other tag is handed on.
pub fn read_next_token_type(raw: i32) -> (tag: Result<i32, Error>)
    ensures
        match tag {
            Ok(t) => raw != TAG_ERROR && t == raw,
            Err(e) => raw == TAG_ERROR && e@ == ErrorModel::Protocol(raw),
        },
{
    if raw == TAG_ERROR {
        Err(Error::Protocol { tag: raw })
    } else {
        Ok(raw)
    }
}

/// Reads the answer of the transport to the question which packet comes
/// next: the mark of an illegal packet is a protocol error, any other packet
/// type is handed on.
pub fn read_next_packet_boundary(raw: i32) -> (packet: Result<i32, Error>)
    ensures
        match packet {
            Ok(p) => raw != ILLEGAL_PACKET && p == raw,
            Err(e) => raw == ILLEGAL_PACKET && e@ == ErrorModel::Protocol(raw),
        },
{
    if raw == ILLEGAL_PACKET {
        Err(Error::Protocol { tag: raw })
    } else {
        Ok(raw)
    }
}

} // verus!
