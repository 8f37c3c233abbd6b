use papersmith::client::interpret_response;
use papersmith::error::IntelError;

fn envelope(text: &str) -> String {
    format!(
        "{{\"id\":\"resp-1\",\"output\":[{{\"role\":\"assistant\",\"content\":[{{\"type\":\"output_text\",\"text\":{}}}]}}],\"usage\":{{\"total_tokens\":42}}}}",
        serde_json_style_quote(text)
    )
}

fn serde_json_style_quote(text: &str) -> String {
    let mut out = String::from("\"");
    for c in text.chars() {
        match c {
            '"' => out.push_str("\\\""),
            '\\' => out.push_str("\\\\"),
            '\n' => out.push_str("\\n"),
            c => out.push(c),
        }
    }
    out.push('"');
    out
}

#[test]
fn success_yields_the_first_candidates_text() {
    let body = envelope("{\"date\":\"2021-01-01\"}");
    let text = interpret_response(200, &body).unwrap();
    assert_eq!(text, "{\"date\":\"2021-01-01\"}");
}

#[test]
fn success_without_candidates_is_malformed() {
    let body = "{\"output\":[]}";
    match interpret_response(200, body) {
        Err(IntelError::MalformedResponse { raw_body }) => assert_eq!(raw_body, body),
        other => panic!("expected a malformed-response error, got {:?}", other),
    }
}

#[test]
fn success_without_text_part_is_malformed() {
    let body = "{\"output\":[{\"content\":[{\"type\":\"refusal\"}]}]}";
    assert!(matches!(
        interpret_response(200, body),
        Err(IntelError::MalformedResponse { .. })
    ));
}

#[test]
fn unparseable_success_body_is_malformed() {
    let body = "this is not an envelope";
    assert!(matches!(
        interpret_response(200, body),
        Err(IntelError::MalformedResponse { .. })
    ));
}

#[test]
fn structured_error_body_surfaces_type_and_message() {
    let body = "{\"error\":{\"message\":\"Rate limit reached\",\"type\":\"rate_limit_error\",\"param\":null,\"code\":\"rate_limit_exceeded\"}}";
    match interpret_response(429, body) {
        Err(IntelError::Api { error_type, message }) => {
            assert_eq!(error_type, "rate_limit_error");
            assert_eq!(message, "Rate limit reached");
        },
        other => panic!("expected an api error, got {:?}", other),
    }
}

#[test]
fn undecodable_error_body_falls_back_to_transport() {
    let body = "<html>gateway timeout</html>";
    match interpret_response(502, body) {
        Err(IntelError::Transport { status, raw_body }) => {
            assert_eq!(status, 502);
            assert_eq!(raw_body, body);
        },
        other => panic!("expected a transport error, got {:?}", other),
    }
}

#[test]
fn error_body_missing_required_fields_falls_back_to_transport() {
    let body = "{\"error\":{\"message\":\"only a message\"}}";
    assert!(matches!(
        interpret_response(400, body),
        Err(IntelError::Transport { status: 400, .. })
    ));
}
