//! The transport protocols that a tracker address can name.

use vstd::prelude::*;
use crate::error::{ParseError, ParseFault};
use crate::text::{spells, to_chars};

verus! {

/// A transport protocol, as named by the scheme of a tracker address.
#[derive(Debug, Clone, Copy, PartialEq, Eq, Structural)]
pub enum Protocol {
    /// `http`: Hypertext Transfer Protocol.
    HTTP,
    /// `udp`: User Datagram Protocol.
    UDP,
    /// `ftp`: File Transfer Protocol.
    FTP,
    /// `tcp`: Transmission Control Protocol.
    TCP,
}

/// The protocol that the token `name` stands for, if any. Tokens are compared
/// letter for letter: upper case is not folded here.
pub open spec fn protocol_of(name: Seq<char>) -> Option<Protocol> {
    if name == "http"@ {
        Some(Protocol::HTTP)
    } else if name == "udp"@ {
        Some(Protocol::UDP)
    } else if name == "ftp"@ {
        Some(Protocol::FTP)
    } else if name == "tcp"@ {
        Some(Protocol::TCP)
    } else {
        None
    }
}

/// The name under which a protocol is shown.
pub open spec fn protocol_text(protocol: Protocol) -> Seq<char> {
    match protocol {
        Protocol::HTTP => "HTTP"@,
        Protocol::UDP => "UDP"@,
        Protocol::FTP => "FTP"@,
        Protocol::TCP => "TCP"@,
    }
}

impl Protocol {
    /// The name under which the protocol is shown.
    pub fn to_text(&self) -> (r: String)
        ensures
            r@ == protocol_text(*self),
    {
        match self {
            Protocol::HTTP => "HTTP".to_owned(),
            Protocol::UDP => "UDP".to_owned(),
            Protocol::FTP => "FTP".to_owned(),
            Protocol::TCP => "TCP".to_owned(),
        }
    }

    /// Resolves a token, given as characters, to its protocol.
    pub fn from_chars(name: &Vec<char>) -> (r: Option<Protocol>)
        ensures
            r == protocol_of(name@),
    {
        if spells(name, "http") {
            Some(Protocol::HTTP)
        } else if spells(name, "udp") {
            Some(Protocol::UDP)
        } else if spells(name, "ftp") {
            Some(Protocol::FTP)
        } else if spells(name, "tcp") {
            Some(Protocol::TCP)
        } else {
            None
        }
    }

    /// Resolves a token to its protocol, or fails with `UnsupportedProtocol`
    /// holding the token.
    pub fn from_string(name: &str) -> (r: Result<Protocol, ParseError>)
        ensures
            match r {
                Ok(protocol) => protocol_of(name@) == Some(protocol),
                Err(e) => protocol_of(name@) is None && e@ == ParseFault::UnsupportedProtocol(
                    name@,
                ),
            },
    {
        let chars = to_chars(name);
        match Protocol::from_chars(&chars) {
            Some(protocol) => Ok(protocol),
            None => Err(ParseError::UnsupportedProtocol(name.to_owned())),
        }
    }
}

/// Each of the four tokens stands for its own protocol: no token is taken
/// for another.
pub proof fn lemma_protocol_tokens_resolve()
    ensures
        protocol_of("http"@) == Some(Protocol::HTTP),
        protocol_of("udp"@) == Some(Protocol::UDP),
        protocol_of("ftp"@) == Some(Protocol::FTP),
        protocol_of("tcp"@) == Some(Protocol::TCP),
{
    reveal_strlit("http");
    reveal_strlit("udp");
    reveal_strlit("ftp");
    reveal_strlit("tcp");
    assert("udp"@[0] == 'u');
    assert("ftp"@[0] == 'f');
    assert("tcp"@[0] == 't');
}

} // verus!
