//! The transports a link can run over.

use vstd::prelude::*;
use vstd::string::*;

verus! {

/// Transport used to reach the peer endpoint of a link.
#[derive(Debug, Clone, Copy, PartialEq, Eq, Structural)]
pub enum Protocol {
    /// Both endpoints live in one process.
    IntraProcess,
    /// Both endpoints live on one machine and share memory.
    SharedMemory,
    /// The endpoints reach each other over the network.
    TCPIP,
}

impl Protocol {
    /// The name under which the transport is selected when a link is opened.
    pub open spec fn name_spec(self) -> Seq<char> {
        match self {
            Protocol::IntraProcess => "IntraProcess"@,
            Protocol::SharedMemory => "SharedMemory"@,
            Protocol::TCPIP => "TCPIP"@,
        }
    }

    /// The name under which the transport is selected when a link is opened.
    pub fn name(&self) -> (text: &'static str)
        ensures
            text@ == self.name_spec(),
    {
        match self {
            Protocol::IntraProcess => "IntraProcess",
            Protocol::SharedMemory => "SharedMemory",
            Protocol::TCPIP => "TCPIP",
        }
    }

    /// The transport's name as an owned string.
    pub fn to_string(&self) -> (text: String)
        ensures
            text@ == self.name_spec(),
    {
        String::from_str(self.name())
    }
}

} // verus!
