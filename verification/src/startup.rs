//! What the command line decides: where the servers listen and whom they answer.
use vstd::prelude::*;
use crate::utils::Ipv4;

verus! {

/// The port on which the server listens unless another is given.
pub const DEFAULT_PORT: u16 = 8767;

/// What is written to the ready pipe once the server accepts connections.
pub open spec fn ready_text() -> Seq<char> {
    "READY\n"@
}

/// What is written to the ready pipe once the server accepts connections.
pub fn ready_message() -> (text: &'static str)
    ensures
        text@ == ready_text(),
{
    "READY\n"
}

/// The address of this machine for itself.
pub open spec fn local_ip() -> Ipv4 {
    Ipv4 { a: 127, b: 0, c: 0, d: 1 }
}

/// Where a server listens, and whether the user is told that the address they wanted was not
/// found.
#[derive(Clone, Copy, Debug, PartialEq, Eq, Structural)]
pub struct Host {
    pub ip: Ipv4,
    pub not_found: bool,
}

/// Where a server listens: on this machine only, unless the address in the local network is wanted
/// and there is one.
pub open spec fn host_for(local_network: bool, found: Option<Ipv4>) -> Host {
    if !local_network {
        Host { ip: local_ip(), not_found: false }
    } else {
        match found {
            Some(ip) => Host { ip, not_found: false },
            None => Host { ip: local_ip(), not_found: true },
        }
    }
}

/// Where a server listens, given the address that was found in the local network.
pub fn choose_host(local_network: bool, found: Option<Ipv4>) -> (host: Host)
    ensures
        host == host_for(local_network, found),
{
    let local = Ipv4 { a: 127, b: 0, c: 0, d: 1 };
    if local_network {
        match found {
            Some(ip) => Host { ip, not_found: false },
            None => Host { ip: local, not_found: true },
        }
    } else {
        Host { ip: local, not_found: false }
    }
}

/// The port for a bridge: the one that was given, or nothing where it is the default one, since
/// that is the server's.
pub fn lsp_port(port: u16) -> (chosen: Option<u16>)
    ensures
        chosen == (if port != DEFAULT_PORT {
            Some(port)
        } else {
            None
        }),
{
    if port != DEFAULT_PORT {
        Some(port)
    } else {
        None
    }
}

/// The port to bind: nought leaves the choice to the system.
pub fn bind_port(chosen: Option<u16>) -> (port: u16)
    ensures
        port == (match chosen {
            Some(p) => p,
            None => 0,
        }),
{
    match chosen {
        Some(p) => p,
        None => 0,
    }
}

/// Whose requests are answered.
pub enum Origins {
    /// Everyone's.
    Any,
    /// Those from this origin.
    Only(String),
}

/// Whose requests are answered: those of the local secure origin, unless all are allowed.
pub fn allowed_origins(allow_any_origin: bool) -> (origins: Origins)
    ensures
        allow_any_origin ==> origins is Any,
        !allow_any_origin ==> (origins matches Origins::Only(origin) && origin@
            == "https://localhost"@),
{
    if allow_any_origin {
        Origins::Any
    } else {
        Origins::Only(String::from_str("https://localhost"))
    }
}

/// A server listens on this machine only, unless the local network was asked for.
pub proof fn law_local_unless_asked(found: Option<Ipv4>)
    ensures
        host_for(false, found).ip == local_ip(),
{
}

} // verus!
