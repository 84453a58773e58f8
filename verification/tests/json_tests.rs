use mash::json::Json;

fn object(members: Vec<(&str, Json)>) -> Json {
    Json::Object(members.into_iter().map(|(k, v)| (k.to_string(), v)).collect())
}

#[test]
fn parse_reads_every_kind_of_value() {
    let parsed = Json::parse(r#"{"n":null,"b":true,"u":7,"i":-3,"d":1.5,"s":"hi","a":[1,"x"]}"#)
        .expect("valid JSON");
    assert_eq!(parsed.get("n"), Some(&Json::Null));
    assert_eq!(parsed.get("b"), Some(&Json::Bool(true)));
    assert_eq!(parsed.get("u"), Some(&Json::Unsigned(7)));
    assert_eq!(parsed.get("i"), Some(&Json::Signed(-3)));
    assert_eq!(parsed.get("d"), Some(&Json::Decimal("1.5".to_string())));
    assert_eq!(parsed.get("s"), Some(&Json::Text("hi".to_string())));
    assert_eq!(
        parsed.get("a"),
        Some(&Json::Array(vec![Json::Unsigned(1), Json::Text("x".to_string())]))
    );
    assert_eq!(parsed.get("missing"), None);
}

#[test]
fn parse_refuses_what_is_not_json() {
    assert!(Json::parse("not json").is_err());
    assert!(Json::parse("").is_err());
    assert!(Json::parse("{\"a\":").is_err());
}

#[test]
fn parse_is_not_the_identity_on_text() {
    // A string document is read as its content, not kept as written.
    assert_eq!(Json::parse("\"a\\nb\""), Ok(Json::Text("a\nb".to_string())));
}

#[test]
fn to_text_writes_one_line_with_sorted_keys() {
    let value = object(vec![
        ("zeta", Json::Unsigned(1)),
        ("alpha", Json::Array(vec![Json::Null, Json::Bool(false), Json::Signed(-2)])),
        ("mid", Json::Text("a\"b".to_string())),
    ]);
    assert_eq!(value.to_text(), r#"{"alpha":[null,false,-2],"mid":"a\"b","zeta":1}"#);
}

#[test]
fn to_text_keeps_a_decimal_number() {
    assert_eq!(Json::Decimal("2.5".to_string()).to_text(), "2.5");
    assert_eq!(Json::Decimal("no number".to_string()).to_text(), "null");
}

#[test]
fn to_pretty_indents_by_two() {
    let value = object(vec![("a", Json::Unsigned(1)), ("b", Json::Array(vec![Json::Bool(true)]))]);
    assert_eq!(value.to_pretty(), "{\n  \"a\": 1,\n  \"b\": [\n    true\n  ]\n}");
    assert_eq!(Json::Null.to_pretty(), "null");
}

#[test]
fn text_round_trip() {
    let text = r#"{"a":[1,2,{"b":null}],"c":"d"}"#;
    let value = Json::parse(text).expect("valid JSON");
    assert_eq!(value.to_text(), text);
}

#[test]
fn get_takes_the_last_member_of_a_key() {
    let value = object(vec![("k", Json::Unsigned(1)), ("k", Json::Unsigned(2))]);
    assert_eq!(value.get("k"), Some(&Json::Unsigned(2)));
    assert_eq!(Json::Array(vec![]).get("k"), None);
}

#[test]
fn accessors_tell_the_kinds_apart() {
    assert_eq!(Json::Text("x".to_string()).as_str(), Some("x"));
    assert_eq!(Json::Unsigned(3).as_str(), None);
    assert_eq!(Json::Unsigned(3).as_u64(), Some(3));
    assert_eq!(Json::Signed(-3).as_u64(), None);
    assert_eq!(Json::Decimal("3.0".to_string()).as_u64(), None);
    assert_eq!(Json::Array(vec![Json::Null]).as_array(), Some(&vec![Json::Null]));
    assert_eq!(Json::Null.as_array(), None);
    assert!(object(vec![]).as_object().is_some());
    assert_eq!(Json::Null.as_object(), None);
}

#[test]
fn clone_copies_the_whole_document() {
    let value = object(vec![("a", Json::Array(vec![object(vec![("b", Json::Text("c".to_string()))])]))]);
    assert_eq!(value.clone(), value);
}

#[test]
fn builders_make_the_values() {
    assert_eq!(Json::text("x"), Json::Text("x".to_string()));
    assert_eq!(Json::array(vec![Json::Null]), Json::Array(vec![Json::Null]));
    assert_eq!(Json::object(vec![("k".to_string(), Json::Null)]), object(vec![("k", Json::Null)]));
}
