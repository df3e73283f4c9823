use roster_rollup::jsonparse::parse_json;
use roster_rollup::jsonval::{json_get, json_get_num, json_get_str, parse_u64, Json};

fn bytes(s: &str) -> Vec<u8> {
    s.as_bytes().to_vec()
}

fn parse_ok(s: &str) -> Json {
    parse_json(&bytes(s)).expect("should parse")
}

#[test]
fn parses_flat_command_object() {
    let j = parse_ok("{\"method\":\"add\",\"value_1\":2.0,\"value_2\":3.0}");
    assert_eq!(json_get_str(&j, &bytes("method")), Some(&bytes("add")));
    assert_eq!(json_get_num(&j, &bytes("value_1")), Some(&bytes("2.0")));
    assert_eq!(json_get_num(&j, &bytes("value_2")), Some(&bytes("3.0")));
    assert_eq!(json_get(&j, &bytes("missing")).is_none(), true);
}

#[test]
fn parses_nested_objects_and_whitespace() {
    let j = parse_ok(" { \"data\" : { \"metadata\" : { \"msg_sender\" : \"0xAB\" } } } ");
    let d = json_get(&j, &bytes("data")).expect("data");
    let m = json_get(d, &bytes("metadata")).expect("metadata");
    assert_eq!(json_get_str(m, &bytes("msg_sender")), Some(&bytes("0xAB")));
}

#[test]
fn parses_literals() {
    let j = parse_ok("{\"a\":true,\"b\":false,\"c\":null}");
    assert!(matches!(json_get(&j, &bytes("a")), Some(Json::Bool(true))));
    assert!(matches!(json_get(&j, &bytes("b")), Some(Json::Bool(false))));
    assert!(matches!(json_get(&j, &bytes("c")), Some(Json::Null)));
}

#[test]
fn parses_string_escapes() {
    let j = parse_ok("{\"k\":\"a\\\"b\\\\c\\n\"}");
    assert_eq!(json_get_str(&j, &bytes("k")), Some(&bytes("a\"b\\c\n")));
}

#[test]
fn parses_number_forms() {
    let j = parse_ok("{\"a\":-12,\"b\":3.25,\"c\":1e9,\"d\":2E-3}");
    assert_eq!(json_get_num(&j, &bytes("a")), Some(&bytes("-12")));
    assert_eq!(json_get_num(&j, &bytes("b")), Some(&bytes("3.25")));
    assert_eq!(json_get_num(&j, &bytes("c")), Some(&bytes("1e9")));
    assert_eq!(json_get_num(&j, &bytes("d")), Some(&bytes("2E-3")));
}

#[test]
fn first_matching_key_wins() {
    let j = parse_ok("{\"k\":\"one\",\"k\":\"two\"}");
    assert_eq!(json_get_str(&j, &bytes("k")), Some(&bytes("one")));
}

#[test]
fn top_level_string_parses() {
    assert!(matches!(parse_ok("\"hi\""), Json::Str(_)));
}

#[test]
fn rejects_malformed_text() {
    for t in [
        "", "   ", "{", "}", "{\"a\":}", "{\"a\" \"b\"}", "{\"a\":1,}", "{\"a\":1} x", "{'a':1}",
        "{\"a\":+1}", "{\"a\":1.}", "{\"a\":.5}", "{\"a\":1e}", "{\"a\":tru}", "nul",
        "{\"a\":\"unterminated}", "{\"a\":\"bad\\qescape\"}",
    ] {
        assert!(parse_json(&bytes(t)).is_err(), "should reject: {}", t);
    }
}

#[test]
fn parse_u64_values() {
    assert_eq!(parse_u64(&bytes("0")), Some(0));
    assert_eq!(parse_u64(&bytes("20")), Some(20));
    assert_eq!(parse_u64(&bytes("18446744073709551615")), Some(u64::MAX));
    assert_eq!(parse_u64(&bytes("18446744073709551616")), None);
    assert_eq!(parse_u64(&bytes("20.5")), None);
    assert_eq!(parse_u64(&bytes("-3")), None);
    assert_eq!(parse_u64(&bytes("")), None);
}
