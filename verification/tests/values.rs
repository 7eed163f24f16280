use lgtv::bytes::{from_be_bytes, to_be_bytes};
use lgtv::json::push_member;
use lgtv::text::decimal_text;
use lgtv::Json;

#[test]
fn text_becomes_json_and_back() {
    let text = "{\"a\":[1,-2,0.5,true,null,\"\\\"x\\\"\"],\"b\":{\"c\":{}},\"z\":18446744073709551615}";
    assert_eq!(Json::parse(text).unwrap().to_text(), text);
    assert_eq!(Json::parse(" { \"b\" : 1 , \"a\" : [ ] } ").unwrap().to_text(), "{\"a\":[],\"b\":1}");
}

#[test]
fn what_is_no_json_is_refused() {
    assert!(Json::parse("").is_none());
    assert!(Json::parse("{").is_none());
    assert!(Json::parse("nul").is_none());
    assert!(Json::parse("1 2").is_none());
}

#[test]
fn nesting_is_read_up_to_a_depth() {
    let nested = |depth: usize| "[".repeat(depth) + &"]".repeat(depth);
    assert_eq!(Json::parse(&nested(127)).unwrap().to_text(), nested(127));
    assert!(Json::parse(&nested(128)).is_none());
    let mixed = "{\"a\":[".repeat(63) + "{}" + &"]}".repeat(63);
    assert_eq!(Json::parse(&mixed).unwrap().to_text(), mixed);
}

#[test]
fn written_json_is_read_as_what_it_was() {
    let mut entries = Vec::new();
    push_member(&mut entries, "line\n\"quoted\" \u{1}\u{e9}", Json::Text("\\ \t \u{1f600}".to_string()));
    push_member(&mut entries, "n", Json::Unsigned(u64::MAX));
    let read = Json::parse(&Json::Object(entries).to_text()).unwrap();
    assert_eq!(read.get("line\n\"quoted\" \u{1}\u{e9}").unwrap().as_text(), Some(&"\\ \t \u{1f600}".to_string()));
    assert_eq!(read.get("n").unwrap().as_u64(), Some(u64::MAX));
}

#[test]
fn integers_are_read_back_with_their_sign() {
    for n in [i64::MIN, -5, -1, 0, 5, i64::MAX] {
        let json = Json::OtherNumber(serde_json::Number::from(n));
        assert_eq!(json.as_i64(), Some(n));
        let read = Json::parse(&json.to_text()).unwrap();
        assert_eq!(read.as_i64(), Some(n));
        assert_eq!(read.to_value(), json.to_value());
    }
    assert_eq!(Json::Unsigned(i64::MAX as u64).as_i64(), Some(i64::MAX));
    assert_eq!(Json::Unsigned(i64::MAX as u64 + 1).as_i64(), None);
    assert_eq!(Json::parse("-0").unwrap().as_i64(), None);
    assert_eq!(Json::parse("1.0").unwrap().as_i64(), None);
    assert_eq!(Json::Null.as_i64(), None);
}

#[test]
fn json_is_handed_out_as_it_is() {
    let text = "{\"a\":[1,-2,0.1,null],\"b\":{\"c\":\"d\"}}";
    let value: serde_json::Value = serde_json::from_str(text).unwrap();
    assert_eq!(Json::parse(text).unwrap().to_value(), value);
}

#[test]
fn members_are_looked_up_by_key() {
    let json = Json::parse("{\"a\":1,\"b\":{\"a\":2}}").unwrap();
    assert_eq!(json.get("a").unwrap().as_u64(), Some(1));
    assert_eq!(json.get("b").unwrap().get("a").unwrap().as_u64(), Some(2));
    assert!(json.get("c").is_none());
    assert!(json.get("a").unwrap().get("a").is_none());
    assert!(Json::Null.get("a").is_none());
}

#[test]
fn the_last_member_with_a_key_counts() {
    let mut entries = Vec::new();
    push_member(&mut entries, "k", Json::Unsigned(1));
    push_member(&mut entries, "k", Json::Unsigned(2));
    let json = Json::Object(entries);
    assert_eq!(json.get("k").unwrap().as_u64(), Some(2));
    assert_eq!(json.to_text(), "{\"k\":2}");
    assert_eq!(Json::parse("{\"k\":1,\"k\":2}").unwrap().to_text(), "{\"k\":2}");
}

#[test]
fn values_are_read_by_kind() {
    assert_eq!(Json::parse("\"x\"").unwrap().as_text(), Some(&"x".to_string()));
    assert!(Json::parse("1").unwrap().as_text().is_none());
    assert_eq!(Json::parse("[1,2]").unwrap().as_items().unwrap().len(), 2);
    assert!(Json::parse("{}").unwrap().as_items().is_none());
    assert_eq!(Json::parse("0").unwrap().as_u64(), Some(0));
    assert_eq!(Json::parse("-0.0").unwrap().as_u64(), None);
    assert_eq!(Json::parse("1.0").unwrap().as_u64(), None);
    assert_eq!(Json::OtherNumber(serde_json::Number::from(5u64)).as_u64(), Some(5));
    assert_eq!(Json::OtherNumber(serde_json::Number::from(-5i64)).as_u64(), None);
    assert!(matches!(Json::parse("5").unwrap(), Json::Unsigned(5)));
    assert!(matches!(Json::parse("-5").unwrap(), Json::OtherNumber(_)));
    assert!(matches!(Json::parse("true").unwrap(), Json::Bool(true)));
}

#[test]
fn copies_say_the_same() {
    let json = Json::parse("{\"a\":[1,-2.5,{\"b\":null}],\"c\":\"d\",\"e\":false}").unwrap();
    assert_eq!(json.clone().to_text(), json.to_text());
}

#[test]
fn numbers_are_written_in_decimal() {
    assert_eq!(decimal_text(0), "0");
    assert_eq!(decimal_text(9), "9");
    assert_eq!(decimal_text(10), "10");
    assert_eq!(decimal_text(1234567890), "1234567890");
    assert_eq!(decimal_text(u64::MAX), "18446744073709551615");
}

#[test]
fn numbers_become_bytes_and_back() {
    assert_eq!(to_be_bytes(0), vec![0u8; 8]);
    assert_eq!(to_be_bytes(0x0102030405060708), vec![1, 2, 3, 4, 5, 6, 7, 8]);
    for n in [0u64, 1, 255, 256, 65535, 0x0102030405060708, u64::MAX] {
        assert_eq!(to_be_bytes(n), n.to_be_bytes().to_vec());
        assert_eq!(from_be_bytes(&to_be_bytes(n)), n);
    }
    let longer: Vec<u8> = vec![0, 0, 0, 0, 0, 0, 1, 0, 99];
    assert_eq!(from_be_bytes(&longer), 256);
}
