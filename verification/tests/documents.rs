//! JSON documents, texts and hashes, held against the crates that define them.
use hyper_slate::json::{list_value, text_value, Json, JsonObject};
use hyper_slate::primitives;
use hyper_slate::text;
use hyper_slate::text_map::TextMap;
use serde_json::{Number, Value};

fn reference(j: &Json) -> Value {
    match j {
        Json::Null => Value::Null,
        Json::Bool(b) => Value::Bool(*b),
        Json::Num(n) => Value::Number(Number::from(*n)),
        Json::Text(s) => Value::String(s.clone()),
        Json::List(items) => Value::Array(items.iter().map(reference).collect()),
        Json::Object(members) => {
            let mut m = serde_json::Map::new();
            for (k, v) in members {
                m.insert(k.clone(), reference(v));
            }
            Value::Object(m)
        }
    }
}

fn sample() -> Json {
    let mut inner = JsonObject::new();
    inner.put_bool("a", true);
    inner.put("b", Json::Null);
    inner.put("c", list_value(vec![]));
    inner.put("d", JsonObject::new().finish());
    let mut o = JsonObject::new();
    o.put_num("big", u64::MAX);
    o.put("list", list_value(vec![Json::Num(0), text_value("x"), inner.finish()]));
    o.put_opt_text("none", &None);
    o.put_opt_text("some", &Some("t".to_string()));
    o.put_text("text", "q\" b\\ n\n t\t r\r bs\u{8} ff\u{c} nul\u{0} esc\u{1b} del\u{7f} e\u{e9} \u{1f600} /");
    o.finish()
}

#[test]
fn compact_form_equals_serde_json() {
    // The members of the sample are in alphabetical order, as the reference keeps them.
    let j = sample();
    assert_eq!(j.to_compact(), serde_json::to_string(&reference(&j)).unwrap());
}

#[test]
fn indented_form_equals_serde_json() {
    let j = sample();
    assert_eq!(j.to_pretty(), serde_json::to_string_pretty(&reference(&j)).unwrap());
    assert_eq!(Json::List(vec![]).to_pretty(), "[]");
    assert_eq!(JsonObject::new().finish().to_pretty(), "{}");
}

#[test]
fn every_small_character_is_quoted_as_serde_json_quotes_it() {
    for n in 0u32..0x300 {
        if let Some(c) = char::from_u32(n) {
            let s = format!("<{c}>");
            assert_eq!(text_value(&s).to_compact(), serde_json::to_string(&s).unwrap());
        }
    }
}

#[test]
fn white_space_is_what_std_says_it_is() {
    for n in 0u32..=0x10ffff {
        if let Some(c) = char::from_u32(n) {
            assert_eq!(text::is_white_space(c), c.is_whitespace(), "{n:x}");
            assert_eq!(text::to_lower_char(c), c.to_ascii_lowercase(), "{n:x}");
        }
    }
}

#[test]
fn decimal_numbers_are_what_std_shows() {
    for n in [0u64, 1, 9, 10, 99, 100, 12345, u64::MAX] {
        assert_eq!(text::decimal_text(n), n.to_string());
        assert_eq!(text::decimal_padded_text(n, 6), format!("{n:06}"));
    }
    assert_eq!(text::be_bytes_vec(0x0102030405060708, 8), 0x0102030405060708u64.to_be_bytes());
}

#[test]
fn texts_are_compared_and_searched() {
    assert!(text::same("a", "a") && !text::same("a", "b"));
    assert!(text::is_blank(" \t") && text::is_blank("") && !text::is_blank(" x "));
    assert_eq!(text::lower_text("ML-DSA-65\u{c4}"), "ml-dsa-65\u{c4}");
    assert!(text::starts_with("ml-dsa", "ml") && !text::starts_with("ml", "ml-dsa"));
    assert_eq!(text::char_count("a\u{e9}\u{1f600}"), 3);
    assert!(text::contains(&vec!["x".to_string(), "y".to_string()], "y"));
    assert_eq!(text::joined("a", "b"), "ab");
}

#[test]
fn hash_of_known_input_is_known() {
    assert_eq!(
        primitives::sha384_hex(b"abc"),
        "sha384:cb00753f45a35e8bb5a03d699ac65007272c32ab0eded1631a8b605a43ff5bed8086072ba1e7cc2358baeca134c825a7"
    );
}

#[test]
fn map_keeps_its_keys_in_byte_order() {
    let mut m: TextMap<u32> = TextMap::new();
    for (i, k) in ["b", "a", "\u{e9}", "B", "", "ab", "a"].iter().enumerate() {
        m.insert(k, i as u32);
    }
    let keys: Vec<String> = (0..m.len()).map(|i| m.key_at(i).to_string()).collect();
    let mut want: Vec<String> =
        ["b", "a", "\u{e9}", "B", "", "ab"].iter().map(|s| s.to_string()).collect();
    want.sort();
    assert_eq!(keys, want);
    assert_eq!(m.get("a"), Some(&6));
    assert_eq!(*m.value_at(0), 4);
    assert_eq!(m.remove("a"), Some(6));
    assert_eq!(m.remove("a"), None);
    assert_eq!(m.get("a"), None);
    assert_eq!(m.get("ab"), Some(&5));
}

#[test]
fn both_forms_of_a_document_say_the_same() {
    let j = sample();
    let from_indented: Value = serde_json::from_str(&j.to_pretty()).unwrap();
    let from_compact: Value = serde_json::from_str(&j.to_compact()).unwrap();
    assert_eq!(from_indented, from_compact);
    // Space inside a text is part of it.
    assert_ne!(text_value("a b").to_pretty(), text_value("ab").to_pretty());
    assert_ne!(list_value(vec![]).to_pretty(), list_value(vec![Json::Null]).to_pretty());
}
