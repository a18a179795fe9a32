//! The life of one end of a link: how it came to be, whether it is in use,
//! and the failure that was last seen on it.
//!
//! The transport itself is driven from outside. Each operation here takes
//! what the transport answered and decides what that means for the link.

use vstd::prelude::*;
use vstd::string::*;
use crate::error::{
    code_message,
    error_message,
    error_model,
    unknown_error,
    Error,
    ErrorModel,
    NO_ERROR,
};

verus! {

/// Where an end of a link is in its life.
#[derive(Debug, Clone, Copy, PartialEq, Eq, Structural)]
pub enum Phase {
    /// Opened; the handshake with the peer has not been made.
    Open,
    /// Ready for expressions.
    Activated,
    /// Given back to the transport. Nothing follows.
    Closed,
}

/// One end of a link.
#[derive(Debug)]
pub struct Link {
    loopback: bool,
    phase: Phase,
    name: String,
    error: Option<Error>,
}

/// The mathematical value of a [`Link`].
pub struct LinkModel {
    /// Whether both ends of the link are this one.
    pub loopback: bool,
    /// Where the link is in its life.
    pub phase: Phase,
    /// The name under which the transport knows the link.
    pub name: Seq<char>,
    /// The failure that was last recorded, until it is cleared.
    pub error: Option<ErrorModel>,
}

impl View for Link {
    type V = LinkModel;

    closed spec fn view(&self) -> LinkModel {
        LinkModel {
            loopback: self.loopback,
            phase: self.phase,
            name: self.name@,
            error: error_model(self.error),
        }
    }
}

/// The mark with which the transport reports that an operation failed.
pub const FAILED: i32 = 0;

impl LinkModel {
    /// Whether the end can still be used.
    pub open spec fn usable(self) -> bool {
        self.phase != Phase::Closed
    }

    /// What opening gives: an error with the transport's code where the
    /// transport gave no handle or a code other than the one for success,
    /// else a link without a recorded failure. A loopback link needs no
    /// handshake and starts activated.
    pub open spec fn opened(
        loopback: bool,
        name: Seq<char>,
        handle: bool,
        code: i32,
    ) -> Result<LinkModel, ErrorModel> {
        if !handle || code != NO_ERROR {
            Err(ErrorModel::Transport(Some(code), code_message(code)))
        } else {
            Ok(
                LinkModel {
                    loopback,
                    phase: if loopback {
                        Phase::Activated
                    } else {
                        Phase::Open
                    },
                    name,
                    error: None,
                },
            )
        }
    }

    /// The failure that an answer of the transport amounts to: none unless
    /// the answer is the mark of failure, else the error that the transport
    /// recorded, or the unknown failure where it recorded none.
    pub open spec fn failure(status: i32, recorded: Option<ErrorModel>) -> Option<ErrorModel> {
        if status != FAILED {
            None
        } else {
            match recorded {
                Some(e) => Some(e),
                None => Some(unknown_error()),
            }
        }
    }

    /// The link after an operation to which the transport gave that answer:
    /// a failure is recorded in place of the one before, success leaves the
    /// record as it is.
    pub open spec fn completed(self, status: i32, recorded: Option<ErrorModel>) -> LinkModel {
        match LinkModel::failure(status, recorded) {
            Some(e) => LinkModel { error: Some(e), ..self },
            None => self,
        }
    }

    /// The link after a handshake to which the transport gave that answer.
    pub open spec fn activated(self, status: i32, recorded: Option<ErrorModel>) -> LinkModel {
        match LinkModel::failure(status, recorded) {
            Some(e) => LinkModel { error: Some(e), ..self },
            None => LinkModel { phase: Phase::Activated, ..self },
        }
    }

    /// The link after its recorded failure was cleared.
    pub open spec fn cleared(self) -> LinkModel {
        LinkModel { error: None, ..self }
    }

    /// The link after it was closed.
    pub open spec fn closed(self) -> LinkModel {
        LinkModel { phase: Phase::Closed, ..self }
    }

    /// Whether closing the link gives its resource back to the transport.
    pub open spec fn releases(self) -> bool {
        self.phase != Phase::Closed
    }
}

impl Link {
    /// Makes the link from what the transport answered when it was asked to
    /// open one: whether it handed out a handle, and its error code.
    pub fn opened(
        loopback: bool,
        name: String,
        handle: bool,
        code: i32,
    ) -> (link: Result<Link, Error>)
        ensures
            match LinkModel::opened(loopback, name@, handle, code) {
                Ok(model) => link is Ok && link->Ok_0@ == model,
                Err(error) => link is Err && link->Err_0@ == error,
            },
    {
        if !handle || code != NO_ERROR {
            return Err(Error::from_code(code));
        }
        let phase = if loopback {
            Phase::Activated
        } else {
            Phase::Open
        };
        Ok(Link { loopback, phase, name, error: None })
    }

    /// Where the link is in its life.
    pub fn phase(&self) -> (phase: Phase)
        ensures
            phase == self@.phase,
    {
        self.phase
    }

    /// Whether the link can still be used.
    pub fn is_usable(&self) -> (usable: bool)
        ensures
            usable == self@.usable(),
    {
        match self.phase {
            Phase::Closed => false,
            _ => true,
        }
    }

    /// Whether the handshake with the peer is still to be made.
    pub fn needs_activation(&self) -> (needed: bool)
        ensures
            needed == (self@.phase == Phase::Open),
    {
        match self.phase {
            Phase::Open => true,
            _ => false,
        }
    }

    /// Whether both ends of the link are this one.
    pub fn is_loopback(&self) -> (loopback: bool)
        ensures
            loopback == self@.loopback,
    {
        self.loopback
    }

    /// The name of the link.
    pub fn link_name(&self) -> (name: String)
        ensures
            name@ == self@.name,
    {
        self.name.clone()
    }

    /// Records what the transport answered to an operation on the link.
    fn settle(&mut self, status: i32, recorded: Option<Error>) -> (result: Result<(), Error>)
        ensures
            final(self)@ == old(self)@.completed(status, error_model(recorded)),
            match LinkModel::failure(status, error_model(recorded)) {
                Some(e) => result is Err && result->Err_0@ == e,
                None => result is Ok,
            },
    {
        if status != FAILED {
            return Ok(());
        }
        let error = Error::or_unknown(recorded);
        self.error = Some(error.duplicate());
        Err(error)
    }

    /// Takes the transport's answer to the handshake. Success activates the
    /// link; on a link that is activated already it changes nothing. Failure
    /// is handed out as the error that the transport recorded, and stays on
    /// the link.
    pub fn activate(&mut self, status: i32, recorded: Option<Error>) -> (result: Result<(), Error>)
        requires
            old(self)@.usable(),
        ensures
            final(self)@ == old(self)@.activated(status, error_model(recorded)),
            match LinkModel::failure(status, error_model(recorded)) {
                Some(e) => result is Err && result->Err_0@ == e,
                None => result is Ok,
            },
    {
        let result = self.settle(status, recorded);
        if result.is_ok() {
            self.phase = Phase::Activated;
        }
        result
    }

    /// Takes the transport's answer to a flush, a read, a write or the skip
    /// of a packet. Failure is handed out as the error that the transport
    /// recorded, and stays on the link; nothing is tried again.
    pub fn complete(&mut self, status: i32, recorded: Option<Error>) -> (result: Result<(), Error>)
        requires
            old(self)@.usable(),
        ensures
            final(self)@ == old(self)@.completed(status, error_model(recorded)),
            match LinkModel::failure(status, error_model(recorded)) {
                Some(e) => result is Err && result->Err_0@ == e,
                None => result is Ok,
            },
    {
        self.settle(status, recorded)
    }

    /// Takes the transport's answer to the copy of the next expression from
    /// this link to `dest`. A failure is this link's: it is recorded here and
    /// `dest` is left as it was.
    pub fn transfer_expr_to(
        &mut self,
        dest: &mut Link,
        status: i32,
        recorded: Option<Error>,
    ) -> (result: Result<(), Error>)
        requires
            old(self)@.usable(),
            old(dest)@.usable(),
        ensures
            final(self)@ == old(self)@.completed(status, error_model(recorded)),
            final(dest)@ == old(dest)@,
            match LinkModel::failure(status, error_model(recorded)) {
                Some(e) => result is Err && result->Err_0@ == e,
                None => result is Ok,
            },
    {
        self.settle(status, recorded)
    }

    /// The failure that was last recorded on the link, if one is pending.
    pub fn error(&self) -> (error: Option<Error>)
        ensures
            error_model(error) == self@.error,
    {
        match &self.error {
            Some(e) => Some(e.duplicate()),
            None => None,
        }
    }

    /// The message of the failure that was last recorded on the link.
    pub fn error_message(&self) -> (message: Option<String>)
        ensures
            match self@.error {
                Some(e) => message is Some && message->Some_0@ == error_message(e),
                None => message is None,
            },
    {
        match &self.error {
            Some(e) => Some(e.message()),
            None => None,
        }
    }

    /// Forgets the recorded failure.
    pub fn clear_error(&mut self)
        ensures
            final(self)@ == old(self)@.cleared(),
    {
        self.error = None;
    }

    /// Closes the link. The answer says whether its resource is to be given
    /// back to the transport now: yes for a link in use, whatever happened on
    /// it, and no for one that was closed before.
    pub fn close(&mut self) -> (release: bool)
        ensures
            release == old(self)@.releases(),
            final(self)@ == old(self)@.closed(),
    {
        let release = self.is_usable();
        self.phase = Phase::Closed;
        release
    }
}

/// A link gives its resource back exactly once. The first close of a link
/// releases it, whether or not the link was ever activated and whether or
/// not a failure is recorded on it; every close after that releases nothing;
/// and nothing but a close ends a link's use.
pub proof fn lemma_released_once(link: LinkModel, status: i32, recorded: Option<ErrorModel>)
    requires
        link.usable(),
    ensures
        link.releases(),
        !link.closed().usable(),
        !link.closed().releases(),
        link.closed().closed() == link.closed(),
        link.completed(status, recorded).usable(),
        link.activated(status, recorded).usable(),
        link.cleared().usable(),
        link.completed(status, recorded).releases(),
        link.activated(status, recorded).releases(),
        link.cleared().releases(),
{
}

} // verus!
