//! How a link is reached: the arguments with which a transport is opened,
//! the names of network addresses, and the search through several addresses
//! for one that answers.

use vstd::prelude::*;
use vstd::string::*;
use crate::error::{Error, ErrorModel};
use crate::protocol::Protocol;
use crate::text::{decimal, push_decimal};

verus! {

/// The side that an endpoint takes when a link is opened.
#[derive(Debug, Clone, Copy, PartialEq, Eq, Structural)]
pub enum OpenMode {
    /// Wait for a peer under a name.
    Listen,
    /// Reach the peer that waits under a name.
    Connect,
}

impl OpenMode {
    /// The word that selects the side.
    pub open spec fn name_spec(self) -> Seq<char> {
        match self {
            OpenMode::Listen => "listen"@,
            OpenMode::Connect => "connect"@,
        }
    }

    /// The word that selects the side.
    pub fn name(&self) -> (text: &'static str)
        ensures
            text@ == self.name_spec(),
    {
        match self {
            OpenMode::Listen => "listen",
            OpenMode::Connect => "connect",
        }
    }
}

/// The texts of a run of strings, in order.
pub open spec fn texts(items: Seq<String>) -> Seq<Seq<char>> {
    Seq::new(items.len(), |i: int| items[i]@)
}

/// The arguments that open a link: the side, the transport and the name,
/// each behind its flag, then the options as they are.
pub open spec fn open_arguments(
    mode: OpenMode,
    protocol: Protocol,
    name: Seq<char>,
    options: Seq<Seq<char>>,
) -> Seq<Seq<char>> {
    seq![
        "-wstp"@,
        "-linkmode"@,
        mode.name_spec(),
        "-linkprotocol"@,
        protocol.name_spec(),
        "-linkname"@,
        name,
    ] + options
}

/// The options with which a listening link is opened: they keep the
/// transport from announcing the link on the terminal.
pub open spec fn listen_options() -> Seq<Seq<char>> {
    seq!["-linkoptions"@, "MLDontInteract"@]
}

/// The options with which a connecting link is opened: none where the
/// caller gives none, else the caller's behind their flag.
pub open spec fn connect_options(options: Seq<Seq<char>>) -> Seq<Seq<char>> {
    if options.len() == 0 {
        Seq::empty()
    } else {
        seq!["-linkoptions"@] + options
    }
}

/// The option that tells the peer that a link server is being reached, not
/// a single link.
pub open spec fn link_server_options() -> Seq<Seq<char>> {
    seq!["MLUseUUIDTCPIPConnection"@]
}

/// The name of a network address: the port in base ten, an at sign, and
/// the host as it is written.
pub open spec fn address_name(port: u16, host: Seq<char>) -> Seq<char> {
    decimal(port as nat) + seq!['@'] + host
}

/// Appends a copy of a text to a list of arguments.
fn push_text(args: &mut Vec<String>, text: &str)
    ensures
        texts(final(args)@) == texts(old(args)@).push(text@),
{
    let ghost before = texts(args@);
    args.push(String::from_str(text));
    assert(texts(args@) =~= before.push(text@));
}

/// Builds the arguments that open a link, in the order in which the
/// transport takes them.
pub fn build_open_arguments(
    mode: OpenMode,
    protocol: Protocol,
    name: &str,
    options: &Vec<String>,
) -> (args: Vec<String>)
    ensures
        texts(args@) == open_arguments(mode, protocol, name@, texts(options@)),
{
    let mut args: Vec<String> = Vec::new();
    assert(texts(args@) =~= Seq::<Seq<char>>::empty());
    push_text(&mut args, "-wstp");
    push_text(&mut args, "-linkmode");
    push_text(&mut args, mode.name());
    push_text(&mut args, "-linkprotocol");
    push_text(&mut args, protocol.name());
    push_text(&mut args, "-linkname");
    push_text(&mut args, name);
    let ghost fixed = texts(args@);
    assert(fixed =~= open_arguments(mode, protocol, name@, Seq::empty()));
    let mut i: usize = 0;
    while i < options.len()
        invariant
            i <= options.len(),
            texts(args@) == fixed + texts(options@).take(i as int),
        decreases options.len() - i,
    {
        let ghost before = texts(args@);
        push_text(&mut args, options[i].as_str());
        assert(texts(args@) =~= fixed + texts(options@).take(i + 1 as int));
        i += 1;
    }
    assert(texts(args@) =~= open_arguments(mode, protocol, name@, texts(options@)));
    args
}

/// The arguments that open a link which waits for a peer under `name`.
pub fn listen_arguments(protocol: Protocol, name: &str) -> (args: Vec<String>)
    ensures
        texts(args@) == open_arguments(OpenMode::Listen, protocol, name@, listen_options()),
{
    let mut options: Vec<String> = Vec::new();
    assert(texts(options@) =~= Seq::<Seq<char>>::empty());
    push_text(&mut options, "-linkoptions");
    push_text(&mut options, "MLDontInteract");
    assert(texts(options@) =~= listen_options());
    build_open_arguments(OpenMode::Listen, protocol, name, &options)
}

/// The arguments that open a link to the peer which waits under `name`.
pub fn connect_arguments(
    protocol: Protocol,
    name: &str,
    options: &Vec<String>,
) -> (args: Vec<String>)
    ensures
        texts(args@) == open_arguments(
            OpenMode::Connect,
            protocol,
            name@,
            connect_options(texts(options@)),
        ),
{
    let mut tail: Vec<String> = Vec::new();
    assert(texts(tail@) =~= Seq::<Seq<char>>::empty());
    if options.len() > 0 {
        push_text(&mut tail, "-linkoptions");
        let ghost flag = texts(tail@);
        let mut i: usize = 0;
        while i < options.len()
            invariant
                i <= options.len(),
                flag == seq!["-linkoptions"@],
                texts(tail@) == flag + texts(options@).take(i as int),
            decreases options.len() - i,
        {
            push_text(&mut tail, options[i].as_str());
            assert(texts(tail@) =~= flag + texts(options@).take(i + 1 as int));
            i += 1;
        }
        assert(texts(tail@) =~= connect_options(texts(options@)));
    }
    build_open_arguments(OpenMode::Connect, protocol, name, &tail)
}

/// The arguments that open a network link to the link server at the
/// address of that name.
pub fn link_server_arguments(name: &str) -> (args: Vec<String>)
    ensures
        texts(args@) == open_arguments(
            OpenMode::Connect,
            Protocol::TCPIP,
            name@,
            connect_options(link_server_options()),
        ),
{
    let mut options: Vec<String> = Vec::new();
    assert(texts(options@) =~= Seq::<Seq<char>>::empty());
    push_text(&mut options, "MLUseUUIDTCPIPConnection");
    assert(texts(options@) =~= link_server_options());
    connect_arguments(Protocol::TCPIP, name, &options)
}

/// The name under which a network link is opened at an address.
pub fn tcpip_address_name(port: u16, host: &str) -> (name: String)
    ensures
        name@ == address_name(port, host@),
{
    let mut name = String::new();
    push_decimal(&mut name, port as u64);
    proof {
        reveal_strlit("@");
    }
    name.append("@");
    name.append(host);
    assert(name@ =~= address_name(port, host@));
    name
}

/// Whether an attempt at an address can have failed.
pub open spec fn may_fail<A, T, F: Fn(&A) -> Result<T, Error>>(attempt: F, address: A) -> bool {
    exists|error: Error| call_ensures(attempt, (&address,), Err::<T, Error>(error))
}

/// Tries the addresses in the order given and stops at the first that
/// succeeds.
///
/// The result is that of the first attempt that succeeded, and every
/// address before it was tried and failed. Where every attempt failed, the
/// result is the error of the last one. Where there is no address at all,
/// nothing is tried and the result is the error that says so.
pub fn resolve_with_fallback<A, T, F: Fn(&A) -> Result<T, Error>>(
    candidates: &Vec<A>,
    attempt: F,
) -> (result: Result<T, Error>)
    requires
        forall|i: int|
            0 <= i < candidates.len() ==> call_requires(attempt, (&#[trigger] candidates[i],)),
    ensures
        candidates.len() == 0 ==> result is Err && result->Err_0@
            == ErrorModel::AddressResolution,
        result is Ok ==> exists|i: int|
            0 <= i < candidates.len() && call_ensures(attempt, (&#[trigger] candidates[i],), result)
                && forall|j: int| 0 <= j < i ==> may_fail(attempt, #[trigger] candidates[j]),
        result is Err && candidates.len() > 0 ==> call_ensures(
            attempt,
            (&candidates[candidates.len() - 1],),
            result,
        ) && forall|j: int|
            0 <= j < candidates.len() ==> may_fail(attempt, #[trigger] candidates[j]),
{
    let mut last: Result<T, Error> = Err(Error::AddressResolution);
    let mut i: usize = 0;
    while i < candidates.len()
        invariant
            i <= candidates.len(),
            forall|k: int|
                0 <= k < candidates.len() ==> call_requires(attempt, (&#[trigger] candidates[k],)),
            last is Err,
            i == 0 ==> last->Err_0@ == ErrorModel::AddressResolution,
            i > 0 ==> call_ensures(attempt, (&candidates[i - 1],), last),
            forall|j: int| 0 <= j < i ==> may_fail(attempt, #[trigger] candidates[j]),
        decreases candidates.len() - i,
    {
        let outcome = attempt(&candidates[i]);
        match outcome {
            Ok(value) => {
                return Ok(value);
            },
            Err(error) => {
                assert(may_fail(attempt, candidates[i as int]));
                last = Err(error);
            },
        }
        i += 1;
    }
    last
}

} // verus!
