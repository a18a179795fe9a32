//! What can go wrong on a link.

use vstd::prelude::*;
use vstd::string::*;
use crate::text::{push_signed_decimal, signed_decimal};

verus! {

/// The code with which the transport reports that nothing went wrong.
pub const NO_ERROR: i32 = 0;

/// Why wire data that was read correctly cannot stand in an expression.
#[derive(Debug, PartialEq, Eq)]
pub enum Violation {
    /// A real that is not a number.
    NotANumber,
    /// A symbol that is not written with its context.
    NoContext { name: String },
}

/// A failure while opening or using a link.
#[derive(Debug, PartialEq, Eq)]
pub enum Error {
    /// The transport failed to open, activate, flush, read or write.
    Transport { code: Option<i32>, message: String },
    /// The stream held a tag that starts no token, or the mark of a failed
    /// read.
    Protocol { tag: i32 },
    /// The stream held data that no expression can hold.
    Domain { reason: Violation },
    /// There was no address to try.
    AddressResolution,
}

/// The mathematical value of a [`Violation`].
pub enum ViolationModel {
    NotANumber,
    NoContext(Seq<char>),
}

/// The mathematical value of an [`Error`].
pub enum ErrorModel {
    Transport(Option<i32>, Seq<char>),
    Protocol(i32),
    Domain(ViolationModel),
    AddressResolution,
}

impl View for Violation {
    type V = ViolationModel;

    open spec fn view(&self) -> ViolationModel {
        match self {
            Violation::NotANumber => ViolationModel::NotANumber,
            Violation::NoContext { name } => ViolationModel::NoContext(name@),
        }
    }
}

impl View for Error {
    type V = ErrorModel;

    open spec fn view(&self) -> ErrorModel {
        match self {
            Error::Transport { code, message } => ErrorModel::Transport(*code, message@),
            Error::Protocol { tag } => ErrorModel::Protocol(*tag),
            Error::Domain { reason } => ErrorModel::Domain(reason@),
            Error::AddressResolution => ErrorModel::AddressResolution,
        }
    }
}

/// The value of an error that may be there.
pub open spec fn error_model(error: Option<Error>) -> Option<ErrorModel> {
    match error {
        Some(e) => Some(e@),
        None => None,
    }
}

/// The value of a text that may be there.
pub open spec fn text_model(text: Option<String>) -> Option<Seq<char>> {
    match text {
        Some(t) => Some(t@),
        None => None,
    }
}

/// The message of a transport failure that is known by its code alone.
pub open spec fn code_message(code: i32) -> Seq<char> {
    "WSTP error code "@ + signed_decimal(code as int) + " occurred."@
}

/// The message that goes with a violation.
pub open spec fn violation_message(v: ViolationModel) -> Seq<char> {
    match v {
        ViolationModel::NotANumber => "non-finite real is not representable"@,
        ViolationModel::NoContext(_) => "symbol has no context"@,
    }
}

/// The message that goes with an error.
pub open spec fn error_message(e: ErrorModel) -> Seq<char> {
    match e {
        ErrorModel::Transport(_, message) => message,
        ErrorModel::Protocol(tag) => "unknown token type: "@ + signed_decimal(tag as int),
        ErrorModel::Domain(v) => violation_message(v),
        ErrorModel::AddressResolution => "socket address list is empty"@,
    }
}

/// What the transport's error state amounts to: nothing when the code says
/// that all is well or when no message goes with it, else a transport failure
/// with that code and message.
pub open spec fn native_error(code: i32, message: Option<Seq<char>>) -> Option<ErrorModel> {
    match message {
        Some(text) if code != NO_ERROR => Some(ErrorModel::Transport(Some(code), text)),
        _ => None,
    }
}

/// The failure that is reported when the transport failed and recorded no
/// error of its own.
pub open spec fn unknown_error() -> ErrorModel {
    ErrorModel::Transport(None, "unknown error occurred on WSLINK"@)
}

impl Violation {
    /// A copy of the violation.
    pub fn duplicate(&self) -> (copy: Violation)
        ensures
            copy@ == self@,
    {
        match self {
            Violation::NotANumber => Violation::NotANumber,
            Violation::NoContext { name } => Violation::NoContext { name: name.clone() },
        }
    }

    /// The message that goes with the violation.
    pub fn message(&self) -> (text: String)
        ensures
            text@ == violation_message(self@),
    {
        match self {
            Violation::NotANumber => String::from_str("non-finite real is not representable"),
            Violation::NoContext { .. } => String::from_str("symbol has no context"),
        }
    }
}

impl Error {
    /// A transport failure that carries a message and no code.
    pub fn custom(message: String) -> (error: Error)
        ensures
            error@ == ErrorModel::Transport(None, message@),
    {
        Error::Transport { code: None, message }
    }

    /// A transport failure known by its code alone.
    pub fn from_code(code: i32) -> (error: Error)
        ensures
            error@ == ErrorModel::Transport(Some(code), code_message(code)),
    {
        let mut message = String::from_str("WSTP error code ");
        push_signed_decimal(&mut message, code);
        message.append(" occurred.");
        Error::Transport { code: Some(code), message }
    }

    /// Reads the transport's error state: the code it holds and the message
    /// that goes with it, if it gave one.
    pub fn from_native(code: i32, message: Option<String>) -> (error: Option<Error>)
        ensures
            error_model(error) == native_error(code, text_model(message)),
    {
        if code == NO_ERROR {
            return None;
        }
        match message {
            Some(text) => Some(Error::Transport { code: Some(code), message: text }),
            None => None,
        }
    }

    /// The recorded error, or the unknown failure where none was recorded.
    pub fn or_unknown(recorded: Option<Error>) -> (error: Error)
        ensures
            error@ == match error_model(recorded) {
                Some(e) => e,
                None => unknown_error(),
            },
    {
        match recorded {
            Some(e) => e,
            None => Error::custom(String::from_str("unknown error occurred on WSLINK")),
        }
    }

    /// The code that the transport gave for the failure, if it gave one.
    pub fn code(&self) -> (code: Option<i32>)
        ensures
            code == match self@ {
                ErrorModel::Transport(c, _) => c,
                _ => None,
            },
    {
        match self {
            Error::Transport { code, .. } => *code,
            _ => None,
        }
    }

    /// The message that describes the failure.
    pub fn message(&self) -> (text: String)
        ensures
            text@ == error_message(self@),
    {
        match self {
            Error::Transport { message, .. } => message.clone(),
            Error::Protocol { tag } => {
                let mut text = String::from_str("unknown token type: ");
                push_signed_decimal(&mut text, *tag);
                text
            },
            Error::Domain { reason } => reason.message(),
            Error::AddressResolution => String::from_str("socket address list is empty"),
        }
    }

    /// A copy of the error.
    pub fn duplicate(&self) -> (copy: Error)
        ensures
            copy@ == self@,
    {
        match self {
            Error::Transport { code, message } => Error::Transport {
                code: *code,
                message: message.clone(),
            },
            Error::Protocol { tag } => Error::Protocol { tag: *tag },
            Error::Domain { reason } => Error::Domain { reason: reason.duplicate() },
            Error::AddressResolution => Error::AddressResolution,
        }
    }
}

impl Clone for Violation {
    fn clone(&self) -> (copy: Violation)
        ensures
            copy@ == self@,
    {
        self.duplicate()
    }
}

impl Clone for Error {
    fn clone(&self) -> (copy: Error)
        ensures
            copy@ == self@,
    {
        self.duplicate()
    }
}

} // verus!
