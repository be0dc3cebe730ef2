use langtool::section::Section;

fn section(name: &str, lines: &[&str]) -> Section {
    Section {
        name: name.to_string(),
        title_line: format!("[{}]", name),
        lines: lines.iter().map(|l| l.to_string()).collect(),
    }
}

#[test]
fn test_insert_sorted_position() {
    let mut sec = section("General", &["Alpha = 1", "Gamma = 3"]);
    let inserted = sec.insert_line_if_missing("Beta = 2");
    assert!(inserted);
    assert_eq!(sec.lines, vec!["Alpha = 1", "Beta = 2", "Gamma = 3"]);
}

#[test]
fn test_insert_case_insensitive_order() {
    let mut sec = section("General", &["alpha = 1", "GAMMA = 3"]);
    let inserted = sec.insert_line_if_missing("Beta = 2");
    assert!(inserted);
    assert_eq!(sec.lines, vec!["alpha = 1", "Beta = 2", "GAMMA = 3"]);
}

#[test]
fn test_insert_after_last_nonblank() {
    let mut sec = section("General", &["Alpha = 1", ""]);
    let inserted = sec.insert_line_if_missing("Zed = 9");
    assert!(inserted);
    assert_eq!(sec.lines, vec!["Alpha = 1", "Zed = 9", ""]);
}

#[test]
fn test_insert_non_key_line_skipped() {
    let mut sec = section("General", &["Alpha = 1"]);
    assert!(!sec.insert_line_if_missing("just some text"));
    assert!(!sec.insert_line_if_missing(""));
    assert_eq!(sec.lines, vec!["Alpha = 1"]);
}

#[test]
fn test_insert_comment_key_skipped() {
    let mut sec = section("General", &["Alpha = 1"]);
    assert!(!sec.insert_line_if_missing("#Beta = 2"));
    assert_eq!(sec.lines, vec!["Alpha = 1"]);
}

#[test]
fn test_insert_translators_key_skipped() {
    let mut sec = section("General", &["Alpha = 1"]);
    assert!(!sec.insert_line_if_missing("translators = the team"));
    assert_eq!(sec.lines, vec!["Alpha = 1"]);
}

#[test]
fn test_insert_existing_prefix_skipped() {
    let mut sec = section("General", &["Beta = old"]);
    assert!(!sec.insert_line_if_missing("Beta = new"));
    assert_eq!(sec.lines, vec!["Beta = old"]);
}

#[test]
fn test_insert_twice_keeps_single_copy() {
    let mut sec = section("General", &["Alpha = 1"]);
    assert!(sec.insert_line_if_missing("Beta = 2"));
    assert!(!sec.insert_line_if_missing("Beta = 2"));
    assert_eq!(sec.lines, vec!["Alpha = 1", "Beta = 2"]);
}

#[test]
fn test_insert_empty_section_reports_without_inserting() {
    // Known edge case: with no line to insert before or after, the
    // insertion is still reported even though the body is unchanged.
    let mut sec = section("General", &[]);
    assert!(sec.insert_line_if_missing("Beta = 2"));
    assert_eq!(sec.lines, Vec::<String>::new());
}

#[test]
fn test_insert_all_blank_section_reports_without_inserting() {
    // Same edge case with a body made of blank lines only.
    let mut sec = section("General", &["", ""]);
    assert!(sec.insert_line_if_missing("Beta = 2"));
    assert_eq!(sec.lines, vec!["", ""]);
}

#[test]
fn test_comment_out_absent_key() {
    let mut sec = section("General", &["Alpha = 1"]);
    let other = section("Reference", &[]);
    sec.comment_out_lines_if_not_in(&other);
    assert_eq!(sec.lines, vec!["#Alpha = 1"]);
}

#[test]
fn test_comment_out_font_exempt() {
    let mut sec = section("General", &["FontSize = 10"]);
    let other = section("Reference", &[]);
    sec.comment_out_lines_if_not_in(&other);
    assert_eq!(sec.lines, vec!["FontSize = 10"]);
}

#[test]
fn test_comment_out_key_present_in_other() {
    let mut sec = section("General", &["Alpha = 1"]);
    let other = section("Reference", &["Alpha = something else"]);
    sec.comment_out_lines_if_not_in(&other);
    assert_eq!(sec.lines, vec!["Alpha = 1"]);
}

#[test]
fn test_comment_out_keeps_length_and_prepends_hash() {
    let mut sec = section("General", &["# note", "", "Alpha = 1", "Beta = 2"]);
    let other = section("Reference", &["Beta = 9"]);
    sec.comment_out_lines_if_not_in(&other);
    assert_eq!(sec.lines.len(), 4);
    assert_eq!(sec.lines, vec!["# note", "", "#Alpha = 1", "Beta = 2"]);
}

#[test]
fn test_remove_absent_key() {
    let mut sec = section("General", &["Alpha = 1"]);
    let other = section("Reference", &[]);
    sec.remove_lines_if_not_in(&other);
    assert_eq!(sec.lines, Vec::<String>::new());
}

#[test]
fn test_remove_keeps_present_key() {
    let mut sec = section("General", &["Alpha = 1", "Beta = 2"]);
    let other = section("Reference", &["Alpha = x"]);
    sec.remove_lines_if_not_in(&other);
    assert_eq!(sec.lines, vec!["Alpha = 1"]);
}

#[test]
fn test_remove_font_and_comment_exempt() {
    let mut sec = section("General", &["FontSize = 10", "#Old = 1", "Alpha = 1"]);
    let other = section("Reference", &[]);
    sec.remove_lines_if_not_in(&other);
    assert_eq!(sec.lines, vec!["FontSize = 10", "#Old = 1"]);
}

#[test]
fn test_remove_keeps_non_key_lines() {
    let mut sec = section("General", &["# comment", "", "Alpha = 1"]);
    let other = section("Reference", &[]);
    sec.remove_lines_if_not_in(&other);
    assert_eq!(sec.lines, vec!["# comment", ""]);
}

#[test]
fn test_loose_prefix_match_counts_as_present() {
    // Matching is a raw starts-with check on the other section's lines,
    // not structural key equality.
    let mut sec = section("General", &["Alpha = 1"]);
    let other = section("Reference", &["Alpha = 2 with more text"]);
    sec.remove_lines_if_not_in(&other);
    assert_eq!(sec.lines, vec!["Alpha = 1"]);
}

#[test]
fn test_title_and_name_untouched() {
    let mut sec = section("General", &["Alpha = 1"]);
    let other = section("Reference", &[]);
    sec.insert_line_if_missing("Beta = 2");
    sec.comment_out_lines_if_not_in(&other);
    sec.remove_lines_if_not_in(&other);
    assert_eq!(sec.name, "General");
    assert_eq!(sec.title_line, "[General]");
}
