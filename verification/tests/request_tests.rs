use papersmith::error::{IntelError, RenderFault};
use papersmith::request::{
    build_direct_request, build_image_request, build_prompt, pdf_data_uri, PROMPT_TEMPLATE,
};

#[test]
fn pdf_data_uri_carries_standard_base64() {
    let bytes = b"abc".to_vec();
    assert_eq!(pdf_data_uri(&bytes), "data:application/pdf;base64,YWJj");
    let bytes = vec![0xFFu8, 0x00, 0x10, 0x20];
    assert_eq!(pdf_data_uri(&bytes), "data:application/pdf;base64,/wAQIA==");
}

#[test]
fn prompt_substitutes_the_original_filename_token() {
    let prompt = build_prompt("scan-042.pdf");
    assert_eq!(prompt, PROMPT_TEMPLATE.replace("{original_filename}", "scan-042.pdf"));
    assert!(prompt.contains("(scan-042.pdf)"));
    assert!(!prompt.contains("{original_filename}"));
}

#[test]
fn direct_request_packages_uri_prompt_and_names() {
    let bytes = b"%PDF-1.4 tiny".to_vec();
    let req = build_direct_request("gpt-4o", "scan.pdf", &bytes).unwrap();
    assert_eq!(req.model, "gpt-4o");
    assert_eq!(req.filename, "scan.pdf");
    assert!(req.file_data_uri.starts_with("data:application/pdf;base64,"));
    assert_eq!(req.prompt, build_prompt("scan.pdf"));
}

#[test]
fn empty_pdf_bytes_are_a_read_error() {
    let bytes: Vec<u8> = Vec::new();
    assert!(matches!(
        build_direct_request("gpt-4o", "scan.pdf", &bytes),
        Err(IntelError::Read { .. })
    ));
}

#[test]
fn image_request_uses_the_png_uri() {
    let bytes = b"abc".to_vec();
    let req = build_image_request("gpt-4o", "scan.pdf", &bytes).unwrap();
    assert_eq!(req.image_data_uri, "data:image/png;base64,YWJj");
    assert_eq!(req.prompt, build_prompt("scan.pdf"));
}

#[test]
fn empty_image_encoding_is_a_render_fault() {
    let bytes: Vec<u8> = Vec::new();
    assert_eq!(
        build_image_request("gpt-4o", "scan.pdf", &bytes).unwrap_err(),
        IntelError::Render { fault: RenderFault::NoPages }
    );
}
