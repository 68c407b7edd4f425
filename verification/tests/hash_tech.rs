use magnet_link::error::ParseError;
use magnet_link::hash_tech::HashTech;

#[test]
fn tree_ok() {
    let result = HashTech::from_string("tree").unwrap();
    assert_eq!(HashTech::TTH, result);
}

#[test]
fn sha1_ok() {
    let result = HashTech::from_string("sha1").unwrap();
    assert_eq!(HashTech::SHA1, result);
}

#[test]
fn bitprint_ok() {
    let result = HashTech::from_string("bitprint").unwrap();
    assert_eq!(HashTech::BitPrint, result);
}

#[test]
fn ed2k_ok() {
    let result = HashTech::from_string("ed2k").unwrap();
    assert_eq!(HashTech::ED2K, result);
}

#[test]
fn aich_ok() {
    let result = HashTech::from_string("aich").unwrap();
    assert_eq!(HashTech::AICH, result);
}

#[test]
fn kzhash_ok() {
    let result = HashTech::from_string("kzhash").unwrap();
    assert_eq!(HashTech::Kazaa, result);
}

#[test]
fn btih_ok() {
    let result = HashTech::from_string("btih").unwrap();
    assert_eq!(HashTech::BTIH, result);
}

#[test]
fn md5_ok() {
    let result = HashTech::from_string("md5").unwrap();
    assert_eq!(HashTech::MD5, result);
}

#[test]
fn unknown_technology_is_rejected_with_its_token() {
    assert_eq!(
        HashTech::from_string("bite"),
        Err(ParseError::UnknownHashTechnology(String::from("bite")))
    );
}

#[test]
fn technology_tokens_are_not_case_folded() {
    assert_eq!(
        HashTech::from_string("SHA1"),
        Err(ParseError::UnknownHashTechnology(String::from("SHA1")))
    );
    assert_eq!(
        HashTech::from_string(""),
        Err(ParseError::UnknownHashTechnology(String::new()))
    );
}

#[test]
fn technology_names_as_shown() {
    assert_eq!(HashTech::TTH.to_text(), "TTH");
    assert_eq!(HashTech::SHA1.to_text(), "SHA1");
    assert_eq!(HashTech::BitPrint.to_text(), "BitPrint");
    assert_eq!(HashTech::ED2K.to_text(), "ED2K");
    assert_eq!(HashTech::AICH.to_text(), "AICH");
    assert_eq!(HashTech::Kazaa.to_text(), "Kazaa");
    assert_eq!(HashTech::BTIH.to_text(), "BTIH");
    assert_eq!(HashTech::MD5.to_text(), "MD5");
}
