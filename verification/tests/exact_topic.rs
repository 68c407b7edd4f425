use magnet_link::error::ParseError;
use magnet_link::exact_topic::ExactTopic;
use magnet_link::hash_tech::HashTech;

#[test]
fn generate_xt_ok() {
    let urn = "urn:sha1:mqlskjfmlkqfsjd";
    let xt = ExactTopic::from_string(urn).unwrap();
    assert_eq!(xt.get_urn(), &HashTech::SHA1);
    assert_eq!(xt.get_hash(), "mqlskjfmlkqfsjd");
}

#[test]
fn topic_round_trips_technology_and_hash() {
    let xt = ExactTopic::from_string("urn:sha1:abc123").unwrap();
    assert_eq!(xt.get_urn(), &HashTech::SHA1);
    assert_eq!(xt.get_hash(), "abc123");
}

#[test]
fn topic_with_too_many_parts_is_malformed() {
    assert_eq!(
        ExactTopic::from_string("urn:sha1:lkqsjdfmlkj:bite"),
        Err(ParseError::MalformedExactTopic(String::from(
            "expected 3 colon-separated parts"
        )))
    );
}

#[test]
fn topic_with_too_few_parts_is_malformed() {
    assert_eq!(
        ExactTopic::from_string("urn:sha1"),
        Err(ParseError::MalformedExactTopic(String::from(
            "expected 3 colon-separated parts"
        )))
    );
    assert_eq!(
        ExactTopic::from_string(""),
        Err(ParseError::MalformedExactTopic(String::from(
            "expected 3 colon-separated parts"
        )))
    );
}

#[test]
fn topic_without_urn_is_malformed() {
    assert_eq!(
        ExactTopic::from_string("bite:sha1:mlqskjfdlkqsj"),
        Err(ParseError::MalformedExactTopic(String::from(
            "must start with urn"
        )))
    );
}

#[test]
fn part_count_is_checked_before_urn() {
    assert_eq!(
        ExactTopic::from_string("bite:sha1"),
        Err(ParseError::MalformedExactTopic(String::from(
            "expected 3 colon-separated parts"
        )))
    );
}

#[test]
fn topic_with_unknown_technology_is_rejected() {
    assert_eq!(
        ExactTopic::from_string("urn:bite:qslmkfjmsqlkjfd"),
        Err(ParseError::UnknownHashTechnology(String::from("bite")))
    );
}

#[test]
fn urn_is_checked_before_technology() {
    assert_eq!(
        ExactTopic::from_string("bite:bite:abc"),
        Err(ParseError::MalformedExactTopic(String::from(
            "must start with urn"
        )))
    );
}

#[test]
fn topic_hash_is_kept_verbatim() {
    let xt = ExactTopic::from_string("urn:btih:ABC def%20").unwrap();
    assert_eq!(xt.get_urn(), &HashTech::BTIH);
    assert_eq!(xt.get_hash(), "ABC def%20");
    let xt = ExactTopic::from_string("urn:md5:").unwrap();
    assert_eq!(xt.get_urn(), &HashTech::MD5);
    assert_eq!(xt.get_hash(), "");
}

#[test]
fn topic_as_text() {
    let xt = ExactTopic::from_string("urn:sha1:abc123").unwrap();
    assert_eq!(xt.to_text(), "urn: SHA1 - hash: abc123");
}

#[test]
fn topic_clone_is_equal() {
    let xt = ExactTopic::from_string("urn:ed2k:354b15e68fb8f36d7cd88ff94116cdc1").unwrap();
    let copy = xt.clone();
    assert_eq!(xt, copy);
    assert_eq!(copy.get_urn(), &HashTech::ED2K);
    assert_eq!(copy.get_hash(), "354b15e68fb8f36d7cd88ff94116cdc1");
}

#[test]
fn every_known_token_parses_in_a_topic() {
    let known = [
        ("tree", HashTech::TTH),
        ("sha1", HashTech::SHA1),
        ("bitprint", HashTech::BitPrint),
        ("ed2k", HashTech::ED2K),
        ("aich", HashTech::AICH),
        ("kzhash", HashTech::Kazaa),
        ("btih", HashTech::BTIH),
        ("md5", HashTech::MD5),
    ];
    for (token, tech) in known {
        let text = format!("urn:{}:0123abcd", token);
        let xt = ExactTopic::from_string(&text).unwrap();
        assert_eq!(xt.get_urn(), &tech);
        assert_eq!(xt.get_hash(), "0123abcd");
    }
}
