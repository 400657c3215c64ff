use libmarathon::plist_text::{extract_string_from_value, extract_text_from_attributed_body, is_text_str, PlistValue};

fn s(text: &str) -> PlistValue {
    PlistValue::String(text.to_string())
}

#[test]
fn string_value_is_its_own_text() {
    assert_eq!(extract_string_from_value(&s("hello")), Some("hello".to_string()));
    assert_eq!(extract_string_from_value(&PlistValue::Other), None);
}

#[test]
fn dictionary_keys_are_tried_in_order() {
    let dict = PlistValue::Dictionary(vec![
        ("string".to_string(), s("third")),
        ("NS.string".to_string(), s("second")),
        ("other".to_string(), s("ignored")),
    ]);
    assert_eq!(extract_string_from_value(&dict), Some("second".to_string()));
    let nested = PlistValue::Dictionary(vec![
        ("NSString".to_string(), PlistValue::Other),
        ("string".to_string(), PlistValue::Dictionary(vec![("NSString".to_string(), s("deep"))])),
    ]);
    assert_eq!(extract_string_from_value(&nested), Some("deep".to_string()));
    let none = PlistValue::Dictionary(vec![("key".to_string(), s("x"))]);
    assert_eq!(extract_string_from_value(&none), None);
}

#[test]
fn arrays_give_their_first_real_text() {
    let arr = PlistValue::Array(vec![
        s(""),
        s("NSAttributedString"),
        s("__kIMMessagePartAttributeName"),
        PlistValue::Other,
        s("Hi there"),
        s("later"),
    ]);
    assert_eq!(extract_string_from_value(&arr), Some("Hi there".to_string()));
    assert_eq!(extract_string_from_value(&PlistValue::Array(vec![s("NSString")])), None);
}

#[test]
fn text_filter_rejects_format_names() {
    assert!(is_text_str("hello"));
    assert!(!is_text_str(""));
    assert!(!is_text_str("NSObject"));
    assert!(!is_text_str("__kIM"));
    assert!(is_text_str("N"));
    assert!(is_text_str("_k"));
}

#[test]
fn attributed_body_prefers_decoded_archive() {
    let body = b"\x01streamtyped\x02Hello world\x03".to_vec();
    assert_eq!(extract_text_from_attributed_body(&[], Some(s("x")), None), "");
    assert_eq!(extract_text_from_attributed_body(&body, Some(s("decoded")), None), "decoded");
    assert_eq!(extract_text_from_attributed_body(&body, Some(PlistValue::Other), None), "");
    let objects = vec![s("$null"), s("NSString"), s("from objects"), s("later")];
    assert_eq!(extract_text_from_attributed_body(&body, None, Some(objects)), "from objects");
    assert_eq!(extract_text_from_attributed_body(&body, None, Some(vec![s("$null")])), "Hello world");
    assert_eq!(extract_text_from_attributed_body(&body, None, None), "Hello world");
}

#[test]
fn exported_text_prefers_the_plain_text() {
    assert_eq!(libmarathon::plist_text::message_text(Some("hi".to_string()), Some("body".to_string())), "hi");
    assert_eq!(libmarathon::plist_text::message_text(None, Some("body".to_string())), "body");
    assert_eq!(libmarathon::plist_text::message_text(None, None), "");
}
