use node_ingest::normalize::{
    canonical_from, normalize, recorded_alike, to_json_text, RawGeo, RawNode,
};

fn text(s: &str) -> Option<RawGeo> {
    Some(RawGeo::Text(s.to_string()))
}

fn structured(s: &str) -> Option<RawGeo> {
    Some(RawGeo::Structured(s.to_string()))
}

fn recorded(s: &str) -> Option<String> {
    Some(s.to_string())
}

#[test]
fn missing_field_records_nothing() {
    assert_eq!(to_json_text(None), None);
}

#[test]
fn null_field_records_nothing() {
    assert_eq!(to_json_text(Some(RawGeo::Null)), None);
}

#[test]
fn plain_string_becomes_json_string() {
    assert_eq!(to_json_text(text("Berlin")), recorded("\"Berlin\""));
}

#[test]
fn plain_string_is_escaped() {
    assert_eq!(to_json_text(text("a \"b\"\n\\")), recorded("\"a \\\"b\\\"\\n\\\\\""));
}

#[test]
fn empty_string_becomes_empty_json_string() {
    assert_eq!(to_json_text(text("")), recorded("\"\""));
}

#[test]
fn json_quoted_string_is_not_encoded_twice() {
    let quoted = to_json_text(text("\"Berlin\""));
    assert_eq!(quoted, recorded("\"Berlin\""));
    assert_eq!(quoted, to_json_text(text("Berlin")));
}

#[test]
fn string_holding_an_object_is_reencoded() {
    assert_eq!(
        to_json_text(text("{ \"en\" : \"Berlin\",  \"de\":\"Berlin\" }")),
        recorded("{\"de\":\"Berlin\",\"en\":\"Berlin\"}")
    );
}

#[test]
fn string_holding_a_scalar_is_reencoded() {
    assert_eq!(to_json_text(text(" 123 ")), recorded("123"));
    assert_eq!(to_json_text(text("true")), recorded("true"));
    assert_eq!(to_json_text(text("null")), recorded("null"));
}

#[test]
fn string_that_is_almost_json_is_kept_as_text() {
    assert_eq!(to_json_text(text("{\"en\":")), recorded("\"{\\\"en\\\":\""));
    assert_eq!(to_json_text(text("1 2")), recorded("\"1 2\""));
}

#[test]
fn structured_value_is_recorded_as_it_came() {
    assert_eq!(
        to_json_text(structured("{\"names\":[1,2,true]}")),
        recorded("{\"names\":[1,2,true]}")
    );
    assert_eq!(to_json_text(structured("[]")), recorded("[]"));
    assert_eq!(to_json_text(structured("false")), recorded("false"));
    assert_eq!(to_json_text(structured("12")), recorded("12"));
    assert_eq!(to_json_text(structured("0.1")), recorded("0.1"));
}

#[test]
fn structured_value_is_not_looked_into() {
    assert_eq!(to_json_text(structured("[ 1 ]")), recorded("[ 1 ]"));
    assert_eq!(to_json_text(structured("")), recorded(""));
}

#[test]
fn equivalent_payloads_in_strings_have_one_encoding() {
    let a = to_json_text(text("{\"b\":1,\"a\":{\"y\":[],\"x\":null}}"));
    let b = to_json_text(text("{ \"a\" : { \"x\" : null, \"y\" : [ ] }, \"b\" : 1 }"));
    assert_eq!(a, b);
    assert_eq!(a, recorded("{\"a\":{\"x\":null,\"y\":[]},\"b\":1}"));
}

#[test]
fn structured_value_and_its_text_in_a_string_agree() {
    let source = "{\"zh-CN\":\"\u{67cf}\u{6797}\", \"en\":\"Berlin\"}";
    let encoding = "{\"en\":\"Berlin\",\"zh-CN\":\"\u{67cf}\u{6797}\"}";
    assert_eq!(to_json_text(text(source)), recorded(encoding));
    assert_eq!(to_json_text(structured(encoding)), to_json_text(text(source)));
}

#[test]
fn quote_and_backslash_are_escaped() {
    assert_eq!(to_json_text(text("\"")), recorded("\"\\\"\""));
    assert_eq!(to_json_text(text("\\")), recorded("\"\\\\\""));
    assert_eq!(to_json_text(text("a\\\"b")), recorded("\"a\\\\\\\"b\""));
}

#[test]
fn named_control_characters_are_escaped_by_letter() {
    assert_eq!(to_json_text(text("\u{8}")), recorded("\"\\b\""));
    assert_eq!(to_json_text(text("\t")), recorded("\"\\t\""));
    assert_eq!(to_json_text(text("\n")), recorded("\"\\n\""));
    assert_eq!(to_json_text(text("\u{c}")), recorded("\"\\f\""));
    assert_eq!(to_json_text(text("\r")), recorded("\"\\r\""));
}

#[test]
fn other_control_characters_are_escaped_by_number() {
    assert_eq!(to_json_text(text("\u{0}")), recorded("\"\\u0000\""));
    assert_eq!(to_json_text(text("\u{1}")), recorded("\"\\u0001\""));
    assert_eq!(to_json_text(text("\u{b}")), recorded("\"\\u000b\""));
    assert_eq!(to_json_text(text("\u{e}")), recorded("\"\\u000e\""));
    assert_eq!(to_json_text(text("\u{10}")), recorded("\"\\u0010\""));
    assert_eq!(to_json_text(text("\u{1a}")), recorded("\"\\u001a\""));
    assert_eq!(to_json_text(text("\u{1f}")), recorded("\"\\u001f\""));
}

#[test]
fn every_control_character_is_escaped_as_the_rule_says() {
    let digits: Vec<char> = "0123456789abcdef".chars().collect();
    for code in 0u32..0x20 {
        let c = char::from_u32(code).unwrap();
        let expected = match c {
            '\u{8}' => "\"\\b\"".to_string(),
            '\t' => "\"\\t\"".to_string(),
            '\n' => "\"\\n\"".to_string(),
            '\u{c}' => "\"\\f\"".to_string(),
            '\r' => "\"\\r\"".to_string(),
            _ => format!(
                "\"\\u00{}{}\"",
                digits[(code / 16) as usize],
                digits[(code % 16) as usize]
            ),
        };
        assert_eq!(to_json_text(text(&c.to_string())), Some(expected));
    }
}

#[test]
fn other_characters_stand_for_themselves() {
    assert_eq!(to_json_text(text("\u{7f}")), recorded("\"\u{7f}\""));
    assert_eq!(to_json_text(text("a/b")), recorded("\"a/b\""));
    assert_eq!(to_json_text(text("\u{e9}t\u{e9}")), recorded("\"\u{e9}t\u{e9}\""));
    assert_eq!(to_json_text(text("\u{1f600} x")), recorded("\"\u{1f600} x\""));
    assert_eq!(to_json_text(text("\u{80}\u{2028}")), recorded("\"\u{80}\u{2028}\""));
    assert_eq!(to_json_text(text("' <&>")), recorded("\"' <&>\""));
}

#[test]
fn texts_with_one_encoding_are_alike() {
    assert!(recorded_alike("{\"b\":1,\"a\":2}", "{ \"a\" : 2, \"b\" : 1 }"));
    assert!(recorded_alike("[1,2]", " [ 1 , 2 ] "));
    assert!(recorded_alike("\"Berlin\"", "\"Berlin\""));
    assert!(recorded_alike("null", " null"));
}

#[test]
fn texts_with_different_encodings_are_not_alike() {
    assert!(!recorded_alike("[1,2]", "[2,1]"));
    assert!(!recorded_alike("1", "\"1\""));
    assert!(!recorded_alike("{\"a\":1}", "{\"a\":2}"));
}

#[test]
fn text_that_is_no_json_is_alike_to_nothing() {
    assert!(!recorded_alike("Berlin", "Berlin"));
    assert!(!recorded_alike("Berlin", "\"Berlin\""));
    assert!(!recorded_alike("[1]", "[1"));
    assert!(!recorded_alike("", ""));
}

#[test]
fn canonical_from_takes_the_reencoding_where_there_is_one() {
    assert_eq!(
        canonical_from("[ 1 ]".to_string(), Some("[1]".to_string())),
        "[1]".to_string()
    );
}

#[test]
fn canonical_from_quotes_where_there_is_none() {
    assert_eq!(canonical_from("Berlin".to_string(), None), "\"Berlin\"".to_string());
}

fn raw() -> RawNode {
    RawNode {
        public_key: "02ab".to_string(),
        alias: "node one".to_string(),
        channels: 12,
        capacity: 5000,
        first_seen: 1_500_000_000,
        updated_at: 1_700_000_000,
        city: text("{\"en\": \"Berlin\"}"),
        country: structured("{\"en\":\"Germany\"}"),
        iso_code: Some("DE".to_string()),
        subdivision: Some(RawGeo::Null),
    }
}

#[test]
fn normalize_passes_plain_fields_through() {
    let record = normalize(raw());
    assert_eq!(record.identity, "02ab");
    assert_eq!(record.display_name, "node one");
    assert_eq!(record.channel_count, 12);
    assert_eq!(record.capacity, 5000);
    assert_eq!(record.first_seen, 1_500_000_000);
    assert_eq!(record.last_updated, 1_700_000_000);
    assert_eq!(record.iso_code, Some("DE".to_string()));
}

#[test]
fn normalize_brings_each_geo_field_into_canonical_form() {
    let record = normalize(raw());
    assert_eq!(record.city, recorded("{\"en\":\"Berlin\"}"));
    assert_eq!(record.country, recorded("{\"en\":\"Germany\"}"));
    assert_eq!(record.subdivision, None);
}

#[test]
fn normalize_keeps_missing_fields_missing() {
    let mut item = raw();
    item.city = None;
    item.country = None;
    item.subdivision = None;
    item.iso_code = None;
    let record = normalize(item);
    assert_eq!(record.city, None);
    assert_eq!(record.country, None);
    assert_eq!(record.subdivision, None);
    assert_eq!(record.iso_code, None);
}

#[test]
fn normalize_treats_the_geo_fields_apart() {
    let mut item = raw();
    item.city = text("Berlin");
    item.country = None;
    item.subdivision = structured("[\"BE\"]");
    let record = normalize(item);
    assert_eq!(record.city, recorded("\"Berlin\""));
    assert_eq!(record.country, None);
    assert_eq!(record.subdivision, recorded("[\"BE\"]"));
}
