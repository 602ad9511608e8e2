use ocr_flow::listing::{contains_fresh_entry, extract_stale_indices};

#[test]
fn stale_indices_in_listing_order() {
    let listing = "0\tSomeOtherTab\n2\tBatchDOC_1700000000000\nnoise line\n5\tBatchDOC_1700000000001\n";
    assert_eq!(extract_stale_indices(listing), vec![2u16, 5u16]);
}

#[test]
fn stale_indices_preserve_top_to_bottom_order() {
    let listing = "5 BatchDOC_a\n2 BatchDOC_b\n9 BatchDOC_c";
    assert_eq!(extract_stale_indices(listing), vec![5u16, 2u16, 9u16]);
}

#[test]
fn stale_line_allows_leading_whitespace() {
    let listing = "  7 BatchDOC_1\n\t8\tBatchDOC_2";
    assert_eq!(extract_stale_indices(listing), vec![7u16, 8u16]);
}

#[test]
fn stale_line_with_leading_zeros() {
    assert_eq!(extract_stale_indices("007 BatchDOC_1"), vec![7u16]);
}

#[test]
fn malformed_lines_are_skipped_without_aborting() {
    let listing = "abc BatchDOC_1\n99999999999999999999 BatchDOC_2\n70000 BatchDOC_3\n4 BatchDOC_4";
    assert_eq!(extract_stale_indices(listing), vec![4u16]);
}

#[test]
fn largest_index_is_kept() {
    assert_eq!(extract_stale_indices("65535 BatchDOC_1"), vec![65535u16]);
    assert_eq!(extract_stale_indices("65536 BatchDOC_1"), Vec::<u16>::new());
}

#[test]
fn line_needs_whitespace_between_index_and_name() {
    assert_eq!(extract_stale_indices("2BatchDOC_1"), Vec::<u16>::new());
    assert_eq!(extract_stale_indices("2 OtherTab_1"), Vec::<u16>::new());
}

#[test]
fn empty_listing_has_no_stale_indices() {
    assert_eq!(extract_stale_indices(""), Vec::<u16>::new());
}

#[test]
fn fresh_entry_found_anywhere_in_text() {
    assert!(contains_fresh_entry("1\tGeneralOCR\n2\tBatchDOC_1700000000000"));
    assert!(contains_fresh_entry("prefix BatchDOC_7 suffix"));
    assert!(contains_fresh_entry("BatchDOC_5"));
}

#[test]
fn fresh_entry_needs_a_digit_after_the_underscore() {
    assert!(!contains_fresh_entry("BatchDOC_"));
    assert!(!contains_fresh_entry("BatchDOC_x"));
    assert!(!contains_fresh_entry("BatchDOC"));
    assert!(!contains_fresh_entry(""));
    assert!(!contains_fresh_entry("1\tGeneralOCR"));
}
