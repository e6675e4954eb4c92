//! Texts, ordered maps and JSON.
use lmx::json::{Json, JsonNumber};
use lmx::ordered::{sort_texts, StringMap};
use lmx::text::{
    after_last, decimal_of, padded_of, parse_u32, replace, split_once_text, trim, trim_end_char,
};
use lmx::Error;

#[test]
fn maps_keep_their_keys_in_order() {
    let mut map = StringMap::new();
    for (key, value) in [("b", "1"), ("a", "2"), ("c", "3"), ("b", "4")] {
        map.insert(key, value);
    }
    map.insert_if_absent("a", "5");
    let entries: Vec<(&str, &str)> = (0..map.len()).map(|i| (map.key(i), map.value(i))).collect();
    assert_eq!(entries, [("a", "2"), ("b", "4"), ("c", "3")]);
    map.remove_named("B");
    assert_eq!(map.get("b"), None);
    assert_eq!(map.key_like("C"), Some("c"));
}

#[test]
fn texts_are_sorted_once_each() {
    let texts = ["b", "ä", "a", "b"].map(String::from).to_vec();
    assert_eq!(sort_texts(&texts), ["a", "b", "ä"]);
}

#[test]
fn json_is_read_and_written() {
    let value = Json::from_text(r#"{"b": [1, -2, 2.5e0, "x\n"], "a": {"c": true, "d": null}}"#);
    let value = value.unwrap();
    assert_eq!(value.member("b").at(0), &Json::number(1));
    assert_eq!(
        value.member("b").at(1),
        &Json::Number(JsonNumber::NegInt(-2))
    );
    assert_eq!(
        value.member("b").at(2),
        &Json::Number(JsonNumber::Decimal("2.5".into()))
    );
    assert_eq!(value.member("b").at(3).as_str(), Some("x\n"));
    assert_eq!(Json::from_text(&value.to_text()).unwrap(), value);
    assert_eq!(
        Json::from_text(r#"[1, 2.5, null, false, "\"", {}]"#).unwrap().to_text(),
        r#"[1,2.5,null,false,"\"",{}]"#
    );
    assert!(matches!(Json::from_text("nope"), Err(Error::Json(message)) if !message.is_empty()));
}

#[test]
fn texts_are_cut_and_counted() {
    assert_eq!(trim("\u{3000} a b\t"), "a b");
    assert_eq!(trim_end_char("a//", '/'), "a");
    assert_eq!(after_last("a/b/c", '/'), "c");
    assert_eq!(after_last("abc", '/'), "abc");
    assert_eq!(replace("aaa", "aa", "b"), "ba");
    assert_eq!(
        split_once_text("png;base64,x", ";base64,"),
        Some(("png".to_string(), "x".to_string()))
    );
    assert_eq!(parse_u32("4294967295"), Some(u32::MAX));
    assert_eq!(parse_u32("4294967296"), None);
    assert_eq!(parse_u32("+7"), Some(7));
    assert_eq!(parse_u32("-7"), None);
    assert_eq!(parse_u32("+"), None);
    assert_eq!(decimal_of(0), "0");
    assert_eq!(decimal_of(u64::MAX), u64::MAX.to_string());
    assert_eq!(padded_of(7, 3), "007");
}

#[test]
fn errors_say_what_is_wrong() {
    let cases = [
        (Error::Cancelled, "response cancelled"),
        (
            Error::HttpStatus {
                status: 404,
                body: "gone".into(),
            },
            "provider returned HTTP 404: gone",
        ),
        (Error::Http("x".into()), "HTTP request failed: x"),
        (Error::Io("x".into()), "filesystem operation failed: x"),
        (Error::Image("x".into()), "image error: x"),
        (Error::Json("x".into()), "JSON error: x"),
        (Error::Transport("x".into()), "HTTP transport failed: x"),
        (
            Error::UnsupportedModel {
                provider: "p".into(),
                model: "a\"b".into(),
            },
            "model \"a\\\"b\" is not available for provider \"p\"",
        ),
    ];
    for (error, message) in cases {
        assert_eq!(error.message(), message);
    }
}
