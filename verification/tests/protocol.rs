use magnet_link::error::ParseError;
use magnet_link::protocol::Protocol;

#[test]
fn http_ok() {
    let result = Protocol::from_string("http").unwrap();
    assert_eq!(Protocol::HTTP, result);
}

#[test]
fn udp_ok() {
    let result = Protocol::from_string("udp").unwrap();
    assert_eq!(Protocol::UDP, result);
}

#[test]
fn ftp_ok() {
    let result = Protocol::from_string("ftp").unwrap();
    assert_eq!(Protocol::FTP, result);
}

#[test]
fn tcp_ok() {
    let result = Protocol::from_string("tcp").unwrap();
    assert_eq!(Protocol::TCP, result);
}

#[test]
fn unknown_protocol_is_rejected_with_its_token() {
    assert_eq!(
        Protocol::from_string("bite"),
        Err(ParseError::UnsupportedProtocol(String::from("bite")))
    );
}

#[test]
fn protocol_tokens_are_not_case_folded() {
    assert_eq!(
        Protocol::from_string("TCP"),
        Err(ParseError::UnsupportedProtocol(String::from("TCP")))
    );
}

#[test]
fn protocol_from_chars_agrees_with_from_string() {
    let chars: Vec<char> = "udp".chars().collect();
    assert_eq!(Protocol::from_chars(&chars), Some(Protocol::UDP));
    let chars: Vec<char> = "udpx".chars().collect();
    assert_eq!(Protocol::from_chars(&chars), None);
}

#[test]
fn protocol_names_as_shown() {
    assert_eq!(Protocol::HTTP.to_text(), "HTTP");
    assert_eq!(Protocol::UDP.to_text(), "UDP");
    assert_eq!(Protocol::FTP.to_text(), "FTP");
    assert_eq!(Protocol::TCP.to_text(), "TCP");
}
