use papersmith::error::IntelError;
use papersmith::intel::DocumentIntelligence;
use papersmith::orchestrate::{
    decide_document, plan_rename, require_api_key, resolve_glob_pattern, RenameAction,
};

fn envelope_with(answer_escaped: &str) -> String {
    format!("{{\"output\":[{{\"content\":[{{\"text\":\"{}\"}}]}}]}}", answer_escaped)
}

#[test]
fn suggested_filename_is_renamed_in_live_mode() {
    let body = envelope_with(
        "{\\\"date\\\":\\\"2020-12-24\\\",\\\"category\\\":\\\"invoice\\\",\\\"filename\\\":\\\"20201224-dan-murphys-invoice\\\"}",
    );
    let action = decide_document(200, &body, "docs/scan-042.pdf", false).unwrap();
    assert_eq!(
        action,
        RenameAction::Rename { target: "docs/20201224-dan-murphys-invoice.pdf".to_string() }
    );
}

#[test]
fn dry_run_only_reports_the_intended_target() {
    let body = envelope_with(
        "{\\\"date\\\":\\\"2020-12-24\\\",\\\"category\\\":\\\"invoice\\\",\\\"filename\\\":\\\"20201224-dan-murphys-invoice\\\"}",
    );
    let action = decide_document(200, &body, "docs/scan-042.pdf", true).unwrap();
    assert_eq!(
        action,
        RenameAction::Report { target: "docs/20201224-dan-murphys-invoice.pdf".to_string() }
    );
}

#[test]
fn absent_filename_means_no_action_and_no_error() {
    let body = envelope_with("{\\\"date\\\":\\\"2021-01-01\\\",\\\"category\\\":\\\"invoice\\\"}");
    let action = decide_document(200, &body, "docs/scan-042.pdf", false).unwrap();
    assert_eq!(action, RenameAction::NoAction);
}

#[test]
fn plan_without_filename_never_renames() {
    let di = DocumentIntelligence {
        date: Some("2021-01-01".to_string()),
        category: Some("invoice".to_string()),
        filename: None,
    };
    assert_eq!(plan_rename("docs/scan.pdf", &di, false), RenameAction::NoAction);
    assert_eq!(plan_rename("docs/scan.pdf", &di, true), RenameAction::NoAction);
}

#[test]
fn rate_limited_document_fails_alone_and_the_run_goes_on() {
    let error_body =
        "{\"error\":{\"message\":\"Rate limit reached\",\"type\":\"rate_limit_error\"}}";
    match decide_document(429, error_body, "docs/a.pdf", false) {
        Err(IntelError::Api { error_type, message }) => {
            assert_eq!(error_type, "rate_limit_error");
            assert_eq!(message, "Rate limit reached");
        },
        other => panic!("expected an api error, got {:?}", other),
    }
    // The next document in the same run is still processed.
    let body = envelope_with("{\\\"filename\\\":\\\"20210101-b-invoice\\\"}");
    let action = decide_document(200, &body, "docs/b.pdf", false).unwrap();
    assert_eq!(action, RenameAction::Rename { target: "docs/20210101-b-invoice.pdf".to_string() });
}

#[test]
fn glob_pattern_prefers_the_command_line() {
    assert_eq!(resolve_glob_pattern("in/*.pdf", Some("env/*.pdf".to_string())).unwrap(), "in/*.pdf");
    assert_eq!(resolve_glob_pattern("", Some("env/*.pdf".to_string())).unwrap(), "env/*.pdf");
    assert!(matches!(
        resolve_glob_pattern("", Some(String::new())),
        Err(IntelError::Config { .. })
    ));
    assert!(matches!(resolve_glob_pattern("", None), Err(IntelError::Config { .. })));
}

#[test]
fn missing_api_key_is_a_config_error() {
    assert_eq!(require_api_key(Some("k".to_string())).unwrap(), "k");
    assert!(matches!(require_api_key(None), Err(IntelError::Config { .. })));
}
