//! Trackers: the servers that coordinate peers, written
//! `<protocol>://<domain>:<port>`.

use vstd::prelude::*;
use crate::capture::{group, group_of};
use crate::error::{outcome, ParseError, ParseFault};
use crate::pattern::{capture_first, first_capture, pattern_accepted};
use crate::protocol::{protocol_of, protocol_text, Protocol};
use crate::text::{
    all_digits, ascii_lower, decimal_from, decimal_text, decimal_value, digits_from, digits_of,
    has_char, to_ascii_lower, to_chars,
};

verus! {

/// The pattern of a tracker address. The protocol is a run of letters, in
/// either case; the domain holds at least one `.` and runs as short as it
/// can up to the port separator; the port is a run of digits. Each separator
/// may be written as it is or percent-encoded.
pub const TRACKER_PATTERN: &'static str =
    r"(?i)([a-z]+)(?:://|%3A%2F%2F)(.+?(?:\..+?)+?)(?::|%3A)([0-9]+)";

/// The group of the tracker pattern that holds the protocol.
pub const PROTOCOL_GROUP: usize = 1;

/// The group of the tracker pattern that holds the domain.
pub const DOMAIN_GROUP: usize = 2;

/// The group of the tracker pattern that holds the port.
pub const PORT_GROUP: usize = 3;

/// The protocol, domain and port of a tracker.
#[derive(Debug, PartialEq, Eq)]
pub struct Tracker {
    protocol: Protocol,
    domain: String,
    port: u16,
}

/// A `Tracker` with its domain as a sequence of characters.
pub ghost struct TrackerView {
    pub protocol: Protocol,
    pub domain: Seq<char>,
    pub port: u16,
}

impl View for Tracker {
    type V = TrackerView;

    closed spec fn view(&self) -> TrackerView {
        TrackerView { protocol: self.protocol, domain: self.domain@, port: self.port }
    }
}

impl Clone for Tracker {
    /// A tracker with the same protocol, domain and port.
    fn clone(&self) -> (r: Tracker)
        ensures
            r@ == self@,
    {
        proof {
            use_type_invariant(self);
        }
        Tracker { protocol: self.protocol, domain: self.domain.clone(), port: self.port }
    }
}

impl TrackerView {
    /// What holds of every tracker: its domain holds a `.`, and so is not
    /// empty.
    pub open spec fn wf(self) -> bool {
        self.domain.contains('.')
    }
}

/// What the three parts of `address` that the pattern tells apart mean as a
/// tracker. A domain without `.`, or a port that is not a run of one or more
/// digits, makes the address malformed; then the protocol token is folded to
/// lower case and must be known; then the port must be at most 65535. The
/// first check that fails decides the error.
pub open spec fn tracker_of_parts(
    address: Seq<char>,
    protocol: Seq<char>,
    domain: Seq<char>,
    port: Seq<char>,
) -> Result<TrackerView, ParseFault> {
    if !domain.contains('.') || port.len() == 0 || !all_digits(port) {
        Err(ParseFault::MalformedTrackerAddress(address))
    } else {
        match protocol_of(ascii_lower(protocol)) {
            None => Err(ParseFault::UnsupportedProtocol(protocol)),
            Some(known) => if decimal_value(port) > 65535 {
                Err(ParseFault::InvalidPort)
            } else {
                Ok(TrackerView { protocol: known, domain, port: decimal_value(port) as u16 })
            },
        }
    }
}

/// What `address` means as a tracker, given what the pattern found in it: an
/// address in which the pattern finds nothing, or finds a match without one
/// of its three groups, is malformed.
pub open spec fn tracker_of_capture(
    address: Seq<char>,
    found: Option<Seq<Option<Seq<char>>>>,
) -> Result<TrackerView, ParseFault> {
    match found {
        None => Err(ParseFault::MalformedTrackerAddress(address)),
        Some(groups) => match (
            group_of(groups, PROTOCOL_GROUP as int),
            group_of(groups, DOMAIN_GROUP as int),
            group_of(groups, PORT_GROUP as int),
        ) {
            (Some(protocol), Some(domain), Some(port)) => tracker_of_parts(
                address,
                protocol,
                domain,
                port,
            ),
            _ => Err(ParseFault::MalformedTrackerAddress(address)),
        },
    }
}

/// What `address` means as a tracker.
pub open spec fn tracker_of(address: Seq<char>) -> Result<TrackerView, ParseFault> {
    if !pattern_accepted(TRACKER_PATTERN@) {
        Err(ParseFault::InvalidPattern)
    } else {
        tracker_of_capture(address, first_capture(TRACKER_PATTERN@, address))
    }
}

impl Tracker {
    /// Every tracker has a domain that holds a `.`.
    #[verifier::type_invariant]
    spec fn domain_holds_dot(self) -> bool {
        self.domain@.contains('.')
    }

    /// The tracker as one line of text:
    /// `protocol: <protocol>, domain: <domain>, port: <port>`.
    pub fn to_text(&self) -> (r: String)
        ensures
            r@ == "protocol: "@ + protocol_text(self@.protocol) + ", domain: "@ + self@.domain
                + ", port: "@ + digits_of(self@.port as nat),
    {
        let mut line = "protocol: ".to_owned();
        line.append(self.protocol.to_text().as_str());
        line.append(", domain: ");
        line.append(self.domain.as_str());
        line.append(", port: ");
        line.append(decimal_text(self.port as u128).as_str());
        line
    }

    /// The protocol of the tracker.
    pub fn get_protocol(&self) -> (r: &Protocol)
        ensures
            *r == self@.protocol,
    {
        &self.protocol
    }

    /// The domain of the tracker, as the address gave it. It holds a `.`.
    pub fn get_domain(&self) -> (r: &str)
        ensures
            r@ == self@.domain,
            self@.wf(),
    {
        proof {
            use_type_invariant(self);
        }
        self.domain.as_str()
    }

    /// The port of the tracker.
    pub fn get_port(&self) -> (r: u16)
        ensures
            r == self@.port,
    {
        self.port
    }

    /// Builds a tracker from the three parts that the pattern tells apart in
    /// `address`.
    pub fn from_parts(address: &str, protocol: &str, domain: &str, port: &str) -> (r: Result<
        Tracker,
        ParseError,
    >)
        ensures
            outcome(r) == tracker_of_parts(address@, protocol@, domain@, port@),
            r matches Ok(tracker) ==> tracker@.wf(),
    {
        let digits = to_chars(port);
        assert(digits@.skip(0) =~= digits@);
        if !has_char(domain, '.') || digits.len() == 0 || !digits_from(&digits, 0) {
            return Err(ParseError::MalformedTrackerAddress(address.to_owned()));
        }
        let token = to_ascii_lower(&to_chars(protocol));
        match Protocol::from_chars(&token) {
            None => Err(ParseError::UnsupportedProtocol(protocol.to_owned())),
            Some(known) => match decimal_from(&digits, 0, 65535) {
                None => Err(ParseError::InvalidPort),
                Some(number) => Ok(
                    Tracker { protocol: known, domain: domain.to_owned(), port: number as u16 },
                ),
            },
        }
    }

    /// Builds a tracker from what the pattern found in `address`.
    pub fn from_capture(address: &str, found: &Option<Vec<Option<String>>>) -> (r: Result<
        Tracker,
        ParseError,
    >)
        ensures
            outcome(r) == tracker_of_capture(address@, found.deep_view()),
            r matches Ok(tracker) ==> tracker@.wf(),
    {
        match found {
            None => Err(ParseError::MalformedTrackerAddress(address.to_owned())),
            Some(groups) => match (
                group(groups, PROTOCOL_GROUP),
                group(groups, DOMAIN_GROUP),
                group(groups, PORT_GROUP),
            ) {
                (Some(protocol), Some(domain), Some(port)) => Tracker::from_parts(
                    address,
                    protocol.as_str(),
                    domain.as_str(),
                    port.as_str(),
                ),
                _ => Err(ParseError::MalformedTrackerAddress(address.to_owned())),
            },
        }
    }

    /// Parses a tracker address, with its separators written as they are
    /// (`tcp://my-domain.com:69`) or percent-encoded
    /// (`tcp%3A%2F%2Fmy-domain.com%3A69`).
    pub fn from_string(address: &str) -> (r: Result<Tracker, ParseError>)
        ensures
            outcome(r) == tracker_of(address@),
            r matches Ok(tracker) ==> tracker@.wf(),
    {
        match capture_first(TRACKER_PATTERN, address) {
            Err(_) => Err(ParseError::InvalidPattern),
            Ok(found) => Tracker::from_capture(address, &found),
        }
    }
}

/// A port that spells more than 65535 is rejected as an invalid port, in
/// every address that the pattern matches and whose protocol is supported.
pub proof fn lemma_port_out_of_range_rejected(
    address: Seq<char>,
    protocol: Seq<char>,
    domain: Seq<char>,
    port: Seq<char>,
)
    requires
        domain.contains('.'),
        port.len() > 0,
        all_digits(port),
        protocol_of(ascii_lower(protocol)) is Some,
        decimal_value(port) > 65535,
    ensures
        tracker_of_parts(address, protocol, domain, port) == Err::<TrackerView, ParseFault>(
            ParseFault::InvalidPort,
        ),
{
}

/// A protocol token that, folded to lower case, is none of the supported
/// ones is rejected as unsupported, with the token as it was written, in
/// every address that the pattern matches.
pub proof fn lemma_unsupported_protocol_rejected(
    address: Seq<char>,
    protocol: Seq<char>,
    domain: Seq<char>,
    port: Seq<char>,
)
    requires
        domain.contains('.'),
        port.len() > 0,
        all_digits(port),
        protocol_of(ascii_lower(protocol)) is None,
    ensures
        tracker_of_parts(address, protocol, domain, port) == Err::<TrackerView, ParseFault>(
            ParseFault::UnsupportedProtocol(protocol),
        ),
{
}

/// The tracker read from a match rests on its protocol, domain and port
/// alone: two matches that agree on these three groups give the same
/// tracker, however the separators between them were written.
pub proof fn lemma_separators_do_not_matter(
    address: Seq<char>,
    groups: Seq<Option<Seq<char>>>,
    other_address: Seq<char>,
    other_groups: Seq<Option<Seq<char>>>,
)
    requires
        group_of(groups, PROTOCOL_GROUP as int) == group_of(other_groups, PROTOCOL_GROUP as int),
        group_of(groups, DOMAIN_GROUP as int) == group_of(other_groups, DOMAIN_GROUP as int),
        group_of(groups, PORT_GROUP as int) == group_of(other_groups, PORT_GROUP as int),
        tracker_of_capture(address, Some(groups)) is Ok,
    ensures
        tracker_of_capture(other_address, Some(other_groups)) == tracker_of_capture(
            address,
            Some(groups),
        ),
{
}

/// A tracker that was read is well formed.
pub proof fn lemma_read_tracker_wf(
    address: Seq<char>,
    protocol: Seq<char>,
    domain: Seq<char>,
    port: Seq<char>,
)
    ensures
        tracker_of_parts(address, protocol, domain, port) matches Ok(tracker) ==> tracker.wf()
            && tracker.domain == domain && tracker.port == decimal_value(port),
{
}

} // verus!
