use papersmith::error::IntelError;
use papersmith::extract::extract_intelligence;
use papersmith::intel::decode_document;

#[test]
fn whitespace_around_the_document_is_insignificant() {
    let di = decode_document(" \t\r\n {\"date\" : \"2021-01-01\" } \n").unwrap();
    assert_eq!(di.date, Some("2021-01-01".to_string()));
}

#[test]
fn deeply_nested_unknown_values_are_skipped() {
    let raw = "{\"a\":[[{\"b\":[true,false,null,-1.5e3,\"x\"]}]],\"category\":\"memo\"}";
    let di = decode_document(raw).unwrap();
    assert_eq!(di.category, Some("memo".to_string()));
}

#[test]
fn surrogate_pair_escapes_decode_to_one_character() {
    let di = decode_document("{\"category\":\"\\ud83d\\ude00\"}").unwrap();
    assert_eq!(di.category, Some("\u{1F600}".to_string()));
}

#[test]
fn lone_surrogate_escape_is_a_decode_error() {
    // The repair pass accepts any four hex digits after \u, so the text
    // reaches the decoder, which rejects the unpaired surrogate.
    match extract_intelligence("{\"category\":\"\\ud83d\"}") {
        Err(IntelError::JsonDecode { .. }) => {},
        other => panic!("expected a decode error, got {:?}", other),
    }
}

#[test]
fn trailing_garbage_after_the_document_is_rejected() {
    assert!(decode_document("{\"category\":\"memo\"} x").is_none());
}

#[test]
fn non_object_documents_do_not_decode_to_a_record() {
    assert!(decode_document("[1,2,3]").is_none());
    assert!(decode_document("\"just a string\"").is_none());
    assert!(decode_document("42").is_none());
    assert!(decode_document("").is_none());
}

#[test]
fn malformed_numbers_are_rejected() {
    assert!(decode_document("{\"a\": 01}").is_none());
    assert!(decode_document("{\"a\": 1.}").is_none());
    assert!(decode_document("{\"a\": +1}").is_none());
}

#[test]
fn empty_object_decodes_to_an_all_absent_record() {
    let di = decode_document("{}").unwrap();
    assert_eq!(di.date, None);
    assert_eq!(di.category, None);
    assert_eq!(di.filename, None);
}
