use compiletest::distance::{distance, find_nearest, suggest};
use compiletest::mode::{TestMode, TestSuite};
use compiletest::text::{
    find_row, has_row, literal, matches_at, same_bytes, scan_blank_back, scan_run, split_pieces,
    split_words, trim, ByteClass,
};

fn rows(items: &[&str]) -> Vec<Vec<u8>> {
    items.iter().map(|s| s.as_bytes().to_vec()).collect()
}

#[test]
fn every_suite_has_its_mode() {
    assert_eq!(TestSuite::Ui.mode(), TestMode::Ui);
    assert_eq!(TestSuite::UiFulldeps.mode(), TestMode::Ui);
    assert_eq!(TestSuite::RunMake.mode(), TestMode::RunMake);
    assert_eq!(TestSuite::Codegen.mode(), TestMode::Codegen);
    assert_eq!(TestSuite::Assembly.mode(), TestMode::Assembly);
}

#[test]
fn only_run_make_has_no_revisions() {
    assert!(TestMode::Ui.supports_revisions());
    assert!(TestMode::Codegen.supports_revisions());
    assert!(TestMode::Assembly.supports_revisions());
    assert!(!TestMode::RunMake.supports_revisions());
}

#[test]
fn modes_and_suites_have_names() {
    assert_eq!(TestMode::RunMake.name(), b"run-make".to_vec());
    assert_eq!(TestMode::Ui.name(), b"ui".to_vec());
    assert_eq!(TestSuite::UiFulldeps.name(), b"ui-fulldeps".to_vec());
    assert_eq!(TestSuite::Assembly.name(), b"assembly".to_vec());
}

#[test]
fn a_literal_is_its_bytes() {
    assert_eq!(literal("revisions"), b"revisions".to_vec());
    assert_eq!(literal(""), Vec::<u8>::new());
}

#[test]
fn a_run_ends_at_the_first_byte_outside_its_class() {
    let s = b"  \tab: cd";
    assert_eq!(scan_run(s, 0, ByteClass::Space), 3);
    assert_eq!(scan_run(s, 3, ByteClass::Word), 6);
    assert_eq!(scan_run(s, 3, ByteClass::Name), 5);
    assert_eq!(scan_run(s, 0, ByteClass::Other(b':')), 5);
    assert_eq!(scan_run(s, 0, ByteClass::Other(b'#')), 9);
    assert_eq!(scan_run(s, 9, ByteClass::Space), 9);
    assert_eq!(scan_run(s, 42, ByteClass::Space), 42);
}

#[test]
fn a_trailing_blank_run_is_found_from_its_end() {
    let s = b"ab \t ";
    assert_eq!(scan_blank_back(s, 0, 5), 2);
    assert_eq!(scan_blank_back(s, 3, 5), 3);
    assert_eq!(scan_blank_back(s, 0, 2), 2);
    assert_eq!(scan_blank_back(b"   ", 0, 3), 0);
    assert_eq!(scan_blank_back(s, 0, 9), 9);
}

#[test]
fn trimming_removes_the_blanks_around_a_text() {
    assert_eq!(trim(b"  a b \r"), b"a b".to_vec());
    assert_eq!(trim(b"ab"), b"ab".to_vec());
    assert_eq!(trim(b" \t "), Vec::<u8>::new());
    assert_eq!(trim(b""), Vec::<u8>::new());
}

#[test]
fn byte_strings_are_compared_byte_by_byte() {
    assert!(same_bytes(b"abc", b"abc"));
    assert!(same_bytes(b"", b""));
    assert!(!same_bytes(b"abc", b"abd"));
    assert!(!same_bytes(b"abc", b"ab"));
}

#[test]
fn a_pattern_is_matched_at_a_position() {
    assert!(matches_at(b"-C incremental", 3, b"incremental"));
    assert!(matches_at(b"abc", 3, b""));
    assert!(!matches_at(b"abc", 4, b""));
    assert!(!matches_at(b"abc", 1, b"bcd"));
    assert!(!matches_at(b"abc", 0, b"abd"));
}

#[test]
fn a_row_is_found_at_its_first_place() {
    let list = rows(&["a", "b", "a", "c"]);
    assert_eq!(find_row(&list, b"a"), Some(0));
    assert_eq!(find_row(&list, b"c"), Some(3));
    assert_eq!(find_row(&list, b"d"), None);
    assert!(has_row(&list, b"b"));
    assert!(!has_row(&list, b""));
}

#[test]
fn words_are_separated_by_blanks() {
    assert_eq!(split_words(b"  current \t next\r"), rows(&["current", "next"]));
    assert_eq!(split_words(b"one"), rows(&["one"]));
    assert_eq!(split_words(b"   "), rows(&[]));
    assert_eq!(split_words(b""), rows(&[]));
}

#[test]
fn pieces_are_cut_at_the_separator_and_trimmed() {
    assert_eq!(split_pieces(b" a = 1 , b=2,", b','), rows(&["a = 1", "b=2", ""]));
    assert_eq!(split_pieces(b"a,,b", b','), rows(&["a", "", "b"]));
    assert_eq!(split_pieces(b"a b", b','), rows(&["a b"]));
    assert_eq!(split_pieces(b"  ", b','), rows(&[]));
    assert_eq!(split_pieces(b",", b','), rows(&["", ""]));
}

#[test]
fn the_edit_distance_counts_single_byte_edits() {
    assert_eq!(distance(b"kitten", b"sitting"), 3);
    assert_eq!(distance(b"", b"abc"), 3);
    assert_eq!(distance(b"abc", b""), 3);
    assert_eq!(distance(b"", b""), 0);
    assert_eq!(distance(b"same", b"same"), 0);
    assert_eq!(distance(b"compile-flag", b"compile-flags"), 1);
    assert_eq!(distance(b"flaw", b"lawn"), 2);
}

#[test]
fn the_nearest_candidate_is_the_first_of_the_nearest_within_the_limit() {
    let names = rows(&["check-fail", "check-pass", "run-pass", "check-pas"]);
    // the limit for a name of ten bytes is three edits
    assert_eq!(find_nearest(b"check-pasz", &names), Some(1));
    assert_eq!(find_nearest(b"check-pazz", &names), Some(1));
    assert_eq!(find_nearest(b"chekc-pass", &names), Some(1));
    assert_eq!(find_nearest(b"check-pas", &names), Some(3));
    assert_eq!(find_nearest(b"revisions", &names), None);
    assert_eq!(find_nearest(b"x", &rows(&[])), None);
    // a short name may be one edit away
    assert_eq!(find_nearest(b"ab", &rows(&["abcd", "abc"])), Some(1));
    assert_eq!(suggest(b"check-pasz", &names), Some(b"check-pass".to_vec()));
    assert_eq!(suggest(b"nothing-like-it", &names), None);
}
