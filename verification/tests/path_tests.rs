use ocr_flow::paths::{derive_output_path, normalize_path, output_path};

#[test]
fn normalize_unifies_separators() {
    assert_eq!(normalize_path("C:\\docs\\report.pdf"), "C:/docs/report.pdf");
    assert_eq!(normalize_path("a/b/c.pdf"), "a/b/c.pdf");
    assert_eq!(normalize_path(""), "");
}

#[test]
fn output_path_for_windows_style_input() {
    assert_eq!(
        output_path("C:\\docs\\report.pdf"),
        Some("C:/docs/report.layered.pdf".to_string())
    );
}

#[test]
fn output_path_strips_a_single_extension() {
    assert_eq!(output_path("a/b/file.tar.gz"), Some("a/b/file.tar.layered.pdf".to_string()));
}

#[test]
fn output_path_without_extension_appends_suffix() {
    assert_eq!(output_path("file"), Some("file.layered.pdf".to_string()));
    assert_eq!(output_path("dir/file"), Some("dir/file.layered.pdf".to_string()));
}

#[test]
fn hidden_file_has_no_extension_to_strip() {
    assert_eq!(output_path(".gitignore"), Some(".gitignore.layered.pdf".to_string()));
}

#[test]
fn derive_on_already_normalized_path() {
    assert_eq!(derive_output_path("C:/docs/report.pdf"), "C:/docs/report.layered.pdf");
}

#[test]
fn paths_without_a_regular_file_name_are_rejected() {
    assert_eq!(output_path("."), None);
    assert_eq!(output_path(".."), None);
    assert_eq!(output_path("a/"), None);
    assert_eq!(output_path(""), None);
    assert_eq!(output_path("a/..pdf"), None);
}
