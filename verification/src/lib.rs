//! The protocol core of a link that carries symbolic expressions between two
//! endpoints: how a link is opened, what travels over it, and how expression
//! trees are written to and read from the token stream.

pub mod codec;
pub mod error;
pub mod expr;
pub mod laws;
pub mod link;
pub mod protocol;
pub mod resolve;
pub mod text;
pub mod token;

pub use crate::error::{Error, Violation};
pub use crate::expr::Expression;
pub use crate::link::{Link, Phase};
pub use crate::protocol::Protocol;
pub use crate::token::{Token, TokenKind};
