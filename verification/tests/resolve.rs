use std::cell::RefCell;

use wstp::error::Error;
use wstp::protocol::Protocol;
use wstp::resolve::{
    build_open_arguments, connect_arguments, link_server_arguments, listen_arguments,
    resolve_with_fallback, tcpip_address_name, OpenMode,
};

fn strings(items: &[&str]) -> Vec<String> {
    items.iter().map(|s| s.to_string()).collect()
}

#[test]
fn open_arguments_are_in_order() {
    let args = build_open_arguments(
        OpenMode::Connect,
        Protocol::SharedMemory,
        "my link",
        &strings(&["one", "two"]),
    );
    assert_eq!(
        args,
        strings(&[
            "-wstp",
            "-linkmode",
            "connect",
            "-linkprotocol",
            "SharedMemory",
            "-linkname",
            "my link",
            "one",
            "two",
        ])
    );
}

#[test]
fn open_arguments_without_options() {
    let args = build_open_arguments(OpenMode::Listen, Protocol::IntraProcess, "", &Vec::new());
    assert_eq!(
        args,
        strings(&[
            "-wstp",
            "-linkmode",
            "listen",
            "-linkprotocol",
            "IntraProcess",
            "-linkname",
            "",
        ])
    );
}

#[test]
fn listen_arguments_keep_the_transport_quiet() {
    assert_eq!(
        listen_arguments(Protocol::TCPIP, "8080@127.0.0.1"),
        strings(&[
            "-wstp",
            "-linkmode",
            "listen",
            "-linkprotocol",
            "TCPIP",
            "-linkname",
            "8080@127.0.0.1",
            "-linkoptions",
            "MLDontInteract",
        ])
    );
}

#[test]
fn connect_arguments_without_options_end_with_the_name() {
    assert_eq!(
        connect_arguments(Protocol::IntraProcess, "abc", &Vec::new()),
        strings(&[
            "-wstp",
            "-linkmode",
            "connect",
            "-linkprotocol",
            "IntraProcess",
            "-linkname",
            "abc",
        ])
    );
}

#[test]
fn connect_arguments_put_options_behind_their_flag() {
    assert_eq!(
        connect_arguments(Protocol::TCPIP, "abc", &strings(&["A", "B"])),
        strings(&[
            "-wstp",
            "-linkmode",
            "connect",
            "-linkprotocol",
            "TCPIP",
            "-linkname",
            "abc",
            "-linkoptions",
            "A",
            "B",
        ])
    );
}

#[test]
fn link_server_arguments_name_the_server_option() {
    assert_eq!(
        link_server_arguments("55@::1"),
        strings(&[
            "-wstp",
            "-linkmode",
            "connect",
            "-linkprotocol",
            "TCPIP",
            "-linkname",
            "55@::1",
            "-linkoptions",
            "MLUseUUIDTCPIPConnection",
        ])
    );
}

#[test]
fn open_mode_names() {
    assert_eq!(OpenMode::Listen.name(), "listen");
    assert_eq!(OpenMode::Connect.name(), "connect");
}

#[test]
fn address_name_is_port_at_host() {
    assert_eq!(tcpip_address_name(8080, "127.0.0.1"), "8080@127.0.0.1");
    assert_eq!(tcpip_address_name(0, "::1"), "0@::1");
    assert_eq!(tcpip_address_name(65535, "10.0.0.7"), "65535@10.0.0.7");
    assert_eq!(tcpip_address_name(9, ""), "9@");
    assert_eq!(tcpip_address_name(100, "h"), "100@h");
}

#[test]
fn address_name_agrees_with_formatting() {
    for (port, host) in [(31415u16, "192.168.1.20"), (1, "fe80::1"), (443, "localhost")] {
        assert_eq!(tcpip_address_name(port, host), format!("{}@{}", port, host));
    }
}

fn refused(n: i32) -> Error {
    Error::Transport { code: Some(n), message: format!("refused {}", n) }
}

#[test]
fn fallback_returns_the_first_success() {
    let tried: RefCell<Vec<char>> = RefCell::new(Vec::new());
    let candidates = vec!['A', 'B', 'C', 'D'];
    let result = resolve_with_fallback(&candidates, |c: &char| {
        tried.borrow_mut().push(*c);
        if *c == 'C' || *c == 'D' {
            Ok(format!("link to {}", c))
        } else {
            Err(refused(*c as i32))
        }
    });
    assert_eq!(result, Ok("link to C".to_string()));
    assert_eq!(*tried.borrow(), vec!['A', 'B', 'C']);
}

#[test]
fn fallback_returns_the_last_error() {
    let tried: RefCell<Vec<char>> = RefCell::new(Vec::new());
    let candidates = vec!['A', 'B'];
    let result: Result<String, Error> = resolve_with_fallback(&candidates, |c: &char| {
        tried.borrow_mut().push(*c);
        Err(refused(*c as i32))
    });
    assert_eq!(result, Err(refused('B' as i32)));
    assert_eq!(*tried.borrow(), vec!['A', 'B']);
}

#[test]
fn fallback_with_one_address() {
    let candidates = vec![5];
    let good: Result<i32, Error> = resolve_with_fallback(&candidates, |n: &i32| Ok(*n + 1));
    assert_eq!(good, Ok(6));
    let bad: Result<i32, Error> = resolve_with_fallback(&candidates, |n: &i32| Err(refused(*n)));
    assert_eq!(bad, Err(refused(5)));
}

#[test]
fn fallback_without_addresses_tries_nothing() {
    let tried: RefCell<u32> = RefCell::new(0);
    let candidates: Vec<char> = Vec::new();
    let result: Result<String, Error> = resolve_with_fallback(&candidates, |_c: &char| {
        *tried.borrow_mut() += 1;
        Ok("never".to_string())
    });
    assert_eq!(result, Err(Error::AddressResolution));
    assert_eq!(*tried.borrow(), 0);
}
