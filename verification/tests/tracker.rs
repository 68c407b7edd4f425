use magnet_link::error::ParseError;
use magnet_link::protocol::Protocol;
use magnet_link::tracker::Tracker;

#[test]
fn from_string_tracker() {
    let tracker_str = "tcp://my-domain.com:69";
    let result = Tracker::from_string(tracker_str).unwrap();

    assert_eq!(result.get_protocol(), &Protocol::TCP);
    assert_eq!(result.get_domain(), "my-domain.com");
    assert_eq!(result.get_port(), 69);
}

#[test]
fn tracker_without_separators_is_malformed() {
    let tracker_str = "coucouloucoucou:paloma//test.failed.com";
    assert_eq!(
        Tracker::from_string(tracker_str),
        Err(ParseError::MalformedTrackerAddress(String::from(
            tracker_str
        )))
    );
}

#[test]
fn tracker_with_unknown_protocol_is_rejected() {
    let tracker_str = "coucouloucoucoupaloma://my-domain.com:69";
    assert_eq!(
        Tracker::from_string(tracker_str),
        Err(ParseError::UnsupportedProtocol(String::from(
            "coucouloucoucoupaloma"
        )))
    );
}

#[test]
fn tracker_percent_encoded_form() {
    let result = Tracker::from_string("udp%3A%2F%2Ftracker.example.com%3A80").unwrap();
    assert_eq!(result.get_protocol(), &Protocol::UDP);
    assert_eq!(result.get_domain(), "tracker.example.com");
    assert_eq!(result.get_port(), 80);
}

#[test]
fn tracker_forms_give_identical_output() {
    let literal = Tracker::from_string("tcp://my-domain.com:69").unwrap();
    let encoded = Tracker::from_string("tcp%3A%2F%2Fmy-domain.com%3A69").unwrap();
    assert_eq!(literal, encoded);
    let lower = Tracker::from_string("tcp%3a%2f%2fmy-domain.com%3a69").unwrap();
    assert_eq!(literal, lower);
}

#[test]
fn tracker_port_above_sixteen_bits_is_invalid() {
    assert_eq!(
        Tracker::from_string("udp://tracker.example.com:65536"),
        Err(ParseError::InvalidPort)
    );
    assert_eq!(
        Tracker::from_string("udp://tracker.example.com:99999999999999999999999999999999999999999999"),
        Err(ParseError::InvalidPort)
    );
}

#[test]
fn tracker_port_bounds() {
    let top = Tracker::from_string("udp://tracker.example.com:65535").unwrap();
    assert_eq!(top.get_port(), 65535);
    let zero = Tracker::from_string("udp://tracker.example.com:0").unwrap();
    assert_eq!(zero.get_port(), 0);
    let padded = Tracker::from_string("udp://tracker.example.com:00080").unwrap();
    assert_eq!(padded.get_port(), 80);
}

#[test]
fn tracker_protocol_is_case_folded() {
    let result = Tracker::from_string("HTTP://Tracker.Example.com:8080").unwrap();
    assert_eq!(result.get_protocol(), &Protocol::HTTP);
    assert_eq!(result.get_domain(), "Tracker.Example.com");
    assert_eq!(result.get_port(), 8080);
    let result = Tracker::from_string("Ftp://files.example.org:21").unwrap();
    assert_eq!(result.get_protocol(), &Protocol::FTP);
}

#[test]
fn tracker_unknown_protocol_keeps_token_as_written() {
    assert_eq!(
        Tracker::from_string("HTTPS://tracker.example.com:443"),
        Err(ParseError::UnsupportedProtocol(String::from("HTTPS")))
    );
}

#[test]
fn tracker_unknown_protocol_comes_before_port() {
    assert_eq!(
        Tracker::from_string("xyz://a.b:70000"),
        Err(ParseError::UnsupportedProtocol(String::from("xyz")))
    );
}

#[test]
fn tracker_domain_needs_a_dot() {
    assert_eq!(
        Tracker::from_string("tcp://localhost:69"),
        Err(ParseError::MalformedTrackerAddress(String::from(
            "tcp://localhost:69"
        )))
    );
}

#[test]
fn tracker_domain_stops_at_first_port() {
    let result = Tracker::from_string("tcp://a.b:1:2").unwrap();
    assert_eq!(result.get_domain(), "a.b");
    assert_eq!(result.get_port(), 1);
}

#[test]
fn tracker_with_path_behind_the_port() {
    let result = Tracker::from_string("udp://tracker.example.com:6969/announce").unwrap();
    assert_eq!(result.get_protocol(), &Protocol::UDP);
    assert_eq!(result.get_domain(), "tracker.example.com");
    assert_eq!(result.get_port(), 6969);
}

#[test]
fn tracker_from_parts_checks_in_order() {
    assert_eq!(
        Tracker::from_parts("addr", "tcp", "nodot", "69"),
        Err(ParseError::MalformedTrackerAddress(String::from("addr")))
    );
    assert_eq!(
        Tracker::from_parts("addr", "tcp", "a.b", ""),
        Err(ParseError::MalformedTrackerAddress(String::from("addr")))
    );
    assert_eq!(
        Tracker::from_parts("addr", "tcp", "a.b", "6x9"),
        Err(ParseError::MalformedTrackerAddress(String::from("addr")))
    );
    assert_eq!(
        Tracker::from_parts("addr", "tcp", "a.b", "+69"),
        Err(ParseError::MalformedTrackerAddress(String::from("addr")))
    );
    assert_eq!(
        Tracker::from_parts("addr", "gopher", "a.b", "70000"),
        Err(ParseError::UnsupportedProtocol(String::from("gopher")))
    );
    assert_eq!(
        Tracker::from_parts("addr", "tcp", "a.b", "70000"),
        Err(ParseError::InvalidPort)
    );
    let ok = Tracker::from_parts("addr", "UdP", "a.b", "6969").unwrap();
    assert_eq!(ok.get_protocol(), &Protocol::UDP);
    assert_eq!(ok.get_domain(), "a.b");
    assert_eq!(ok.get_port(), 6969);
}

#[test]
fn tracker_from_capture_needs_all_three_groups() {
    let address = "tcp://a.b:1";
    assert_eq!(
        Tracker::from_capture(address, &None),
        Err(ParseError::MalformedTrackerAddress(String::from(address)))
    );
    let short = Some(vec![
        Some(String::from("tcp://a.b:1")),
        Some(String::from("tcp")),
        Some(String::from("a.b")),
    ]);
    assert_eq!(
        Tracker::from_capture(address, &short),
        Err(ParseError::MalformedTrackerAddress(String::from(address)))
    );
    let hollow = Some(vec![
        Some(String::from("tcp://a.b:1")),
        Some(String::from("tcp")),
        None,
        Some(String::from("1")),
    ]);
    assert_eq!(
        Tracker::from_capture(address, &hollow),
        Err(ParseError::MalformedTrackerAddress(String::from(address)))
    );
    let full = Some(vec![
        Some(String::from("tcp://a.b:1")),
        Some(String::from("tcp")),
        Some(String::from("a.b")),
        Some(String::from("1")),
    ]);
    let tracker = Tracker::from_capture(address, &full).unwrap();
    assert_eq!(tracker.get_protocol(), &Protocol::TCP);
    assert_eq!(tracker.get_domain(), "a.b");
    assert_eq!(tracker.get_port(), 1);
}

#[test]
fn tracker_as_text() {
    let tracker = Tracker::from_string("udp://tracker.example.com:6969").unwrap();
    assert_eq!(
        tracker.to_text(),
        "protocol: UDP, domain: tracker.example.com, port: 6969"
    );
    let tracker = Tracker::from_string("tcp://a.b:0").unwrap();
    assert_eq!(tracker.to_text(), "protocol: TCP, domain: a.b, port: 0");
}

#[test]
fn tracker_clone_is_equal() {
    let tracker = Tracker::from_string("ftp://files.example.org:21").unwrap();
    let copy = tracker.clone();
    assert_eq!(tracker, copy);
    assert_eq!(copy.get_protocol(), &Protocol::FTP);
    assert_eq!(copy.get_domain(), "files.example.org");
    assert_eq!(copy.get_port(), 21);
}
