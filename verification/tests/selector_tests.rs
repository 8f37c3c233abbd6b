use papersmith::paths::{base_name, with_file_name};
use papersmith::selector::{is_already_processed, select_candidates};

#[test]
fn stamped_names_are_already_processed() {
    assert!(is_already_processed("20201224-dan-murphys-invoice.pdf"));
    assert!(is_already_processed("12345678.pdf"));
    assert!(is_already_processed("20211231 anything at all.pdf"));
}

#[test]
fn unstamped_names_are_not_already_processed() {
    assert!(!is_already_processed("invoice.pdf"));
    assert!(!is_already_processed("2021-invoice.pdf"));
    assert!(!is_already_processed("1234567x.pdf"));
    assert!(!is_already_processed("12345678.PDF"));
    assert!(!is_already_processed("12345678.pdf.bak"));
    assert!(!is_already_processed("1234567.pdf"));
    assert!(!is_already_processed(""));
}

#[test]
fn selection_keeps_order_and_drops_stamped_paths() {
    let paths = vec![
        "docs/a.pdf".to_string(),
        "docs/20201224-invoice.pdf".to_string(),
        "b.pdf".to_string(),
        "deep/dir/19990101x.pdf".to_string(),
        "docs/c.pdf".to_string(),
    ];
    let selected = select_candidates(&paths);
    assert_eq!(
        selected,
        vec!["docs/a.pdf".to_string(), "b.pdf".to_string(), "docs/c.pdf".to_string()]
    );
}

#[test]
fn selection_of_empty_list_is_empty() {
    let paths: Vec<String> = Vec::new();
    assert_eq!(select_candidates(&paths), Vec::<String>::new());
}

#[test]
fn base_name_takes_what_follows_the_last_separator() {
    assert_eq!(base_name("docs/sub/scan.pdf"), "scan.pdf");
    assert_eq!(base_name("scan.pdf"), "scan.pdf");
    assert_eq!(base_name(""), "");
}

#[test]
fn with_file_name_replaces_the_base_name() {
    assert_eq!(with_file_name("docs/sub/scan.pdf", "new.pdf"), "docs/sub/new.pdf");
    assert_eq!(with_file_name("scan.pdf", "new.pdf"), "new.pdf");
}
