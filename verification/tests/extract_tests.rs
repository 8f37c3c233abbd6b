use papersmith::error::IntelError;
use papersmith::extract::extract_intelligence;
use papersmith::intel::{decode_document, DocumentIntelligence};

#[test]
fn fenced_answer_without_filename_decodes_tolerantly() {
    let raw = "```json\n{\"date\":\"2021-01-01\",\"category\":\"invoice\"}\n```";
    let di = extract_intelligence(raw).unwrap();
    assert_eq!(
        di,
        DocumentIntelligence {
            date: Some("2021-01-01".to_string()),
            category: Some("invoice".to_string()),
            filename: None,
        }
    );
}

#[test]
fn unsalvageable_text_is_a_repair_error_carrying_the_original() {
    let raw = "not json at all";
    match extract_intelligence(raw) {
        Err(IntelError::JsonRepair { original }) => assert_eq!(original, raw),
        other => panic!("expected a repair error, got {:?}", other),
    }
}

#[test]
fn repairing_already_valid_json_decodes_like_direct_decoding() {
    let raw = "{\"date\":\"2020-12-24\",\"category\":\"invoice\",\"filename\":\"20201224-x-invoice\"}";
    let via_extract = extract_intelligence(raw).unwrap();
    let direct = decode_document(raw).unwrap();
    assert_eq!(via_extract, direct);
    assert_eq!(direct.filename, Some("20201224-x-invoice".to_string()));
}

#[test]
fn truncated_answer_is_repaired_before_decoding() {
    // The closing quote and brace are missing; repair completes them, so a
    // repair pass that handed its input back unchanged would fail to decode.
    let raw = "{ \"date\": \"2021-05-06";
    let di = extract_intelligence(raw).unwrap();
    assert_eq!(di.date, Some("2021-05-06".to_string()));
    assert_eq!(di.category, None);
    assert_eq!(di.filename, None);
}

#[test]
fn unknown_fields_are_ignored() {
    let raw = "{\"category\":\"report\",\"confidence\":0.75,\"notes\":[1,2,{\"deep\":null}]}";
    let di = extract_intelligence(raw).unwrap();
    assert_eq!(di.category, Some("report".to_string()));
    assert_eq!(di.date, None);
    assert_eq!(di.filename, None);
}

#[test]
fn null_fields_decode_to_absent() {
    let raw = "{\"date\":null,\"category\":\"letter\",\"filename\":null}";
    let di = extract_intelligence(raw).unwrap();
    assert_eq!(di.date, None);
    assert_eq!(di.category, Some("letter".to_string()));
    assert_eq!(di.filename, None);
}

#[test]
fn wrongly_typed_field_is_a_decode_error_with_both_texts() {
    let raw = "{\"date\": 20210101}";
    match extract_intelligence(raw) {
        Err(IntelError::JsonDecode { original, repaired }) => {
            assert_eq!(original, raw);
            assert_eq!(repaired, raw);
        },
        other => panic!("expected a decode error, got {:?}", other),
    }
}

#[test]
fn escapes_in_strings_are_decoded() {
    let raw = "{\"category\":\"a\\\"b\\\\c\\u0041\\n\"}";
    let di = extract_intelligence(raw).unwrap();
    assert_eq!(di.category, Some("a\"b\\cA\n".to_string()));
}

#[test]
fn repeated_fields_keep_the_last_binding() {
    let raw = "{\"category\":\"first\",\"category\":\"second\"}";
    let di = extract_intelligence(raw).unwrap();
    assert_eq!(di.category, Some("second".to_string()));
}
