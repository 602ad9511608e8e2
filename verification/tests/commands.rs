use ocr_flow::command::{
    add_docs_command, close_command, doc_start_command, open_command, tabs_command,
};

fn tokens(words: &[&str]) -> Vec<String> {
    words.iter().map(|w| w.to_string()).collect()
}

#[test]
fn tabs_command_tokens() {
    assert_eq!(tabs_command(), tokens(&["--all_pages"]));
}

#[test]
fn open_command_tokens() {
    assert_eq!(open_command(), tokens(&["--add_page", "3"]));
}

#[test]
fn close_command_tokens() {
    assert_eq!(close_command(0), tokens(&["--del_page", "0"]));
    assert_eq!(close_command(7), tokens(&["--del_page", "7"]));
    assert_eq!(close_command(12034), tokens(&["--del_page", "12034"]));
    assert_eq!(close_command(65535), tokens(&["--del_page", "65535"]));
}

#[test]
fn add_docs_command_tokens() {
    assert_eq!(
        add_docs_command("C:/docs/a b.pdf"),
        tokens(&["--call_qml", "BatchDOC", "--func", "addDocs", "[\"C:/docs/a b.pdf\"]"])
    );
}

#[test]
fn doc_start_command_tokens() {
    assert_eq!(doc_start_command(), tokens(&["--call_qml", "BatchDOC", "--func", "docStart"]));
}
