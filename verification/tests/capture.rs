use magnet_link::capture::{field_values, group, values};
use magnet_link::error::ParseError;

fn one(value: &str) -> Vec<Option<String>> {
    vec![Some(format!("xx={}", value)), Some(String::from(value))]
}

#[test]
fn group_lookup() {
    let groups = vec![Some(String::from("whole")), None, Some(String::from("two"))];
    assert_eq!(group(&groups, 0), Some(&String::from("whole")));
    assert_eq!(group(&groups, 1), None);
    assert_eq!(group(&groups, 2), Some(&String::from("two")));
    assert_eq!(group(&groups, 3), None);
    assert_eq!(group(&Vec::new(), 0), None);
}

#[test]
fn values_are_the_value_group_of_each_match() {
    let found = vec![
        one("a"),
        vec![Some(String::from("whole"))],
        vec![Some(String::from("whole")), None],
        one("b"),
        one("a"),
    ];
    assert_eq!(values(&found), vec!["a", "b", "a"]);
    assert_eq!(values(&Vec::new()), Vec::<String>::new());
}

#[test]
fn field_values_finds_every_occurrence() {
    let link = "magnet:?kt=one&dn=name&kt=two&kt=one";
    assert_eq!(
        field_values("kt=(.+?)(?:&|$)", link),
        Ok(vec![
            String::from("one"),
            String::from("two"),
            String::from("one")
        ])
    );
    assert_eq!(field_values("xl=(.+?)(?:&|$)", link), Ok(Vec::new()));
}

#[test]
fn field_values_skips_matches_without_a_value() {
    assert_eq!(
        field_values("a(b)?", "ab a ab"),
        Ok(vec![String::from("b"), String::from("b")])
    );
    assert_eq!(field_values("a", "aaa"), Ok(Vec::new()));
}

#[test]
fn rejected_pattern_is_an_error() {
    assert_eq!(
        field_values("kt=(.+", "magnet:?kt=one"),
        Err(ParseError::InvalidPattern)
    );
}
