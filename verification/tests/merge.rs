use rcomm::{Config, CreateConfig};
use rcomm::{FileLines, FilePair};

fn lines(items: &[&str]) -> Vec<String> {
    items.iter().map(|s| s.to_string()).collect()
}

fn plain() -> Config {
    CreateConfig::new().create()
}

fn all_rows(a: &[&str], b: &[&str], config: Config) -> Vec<(String, u8)> {
    let mut engine = FilePair::new(lines(a), lines(b)).into_lines(config);
    let mut out = Vec::new();
    while let Some(row) = engine.next() {
        out.push((row.text().to_string(), row.column()));
    }
    assert!(engine.next().is_none());
    out
}

fn shown_lines(a: &[&str], b: &[&str], config: Config) -> Vec<String> {
    let mut engine = FilePair::new(lines(a), lines(b)).into_lines(config);
    let mut out = Vec::new();
    while let Some(row) = engine.next_visible() {
        out.push(row.render());
    }
    assert!(engine.next_visible().is_none());
    out
}

fn tagged(items: &[(&str, u8)]) -> Vec<(String, u8)> {
    items.iter().map(|(s, c)| (s.to_string(), *c)).collect()
}

#[test]
fn three_fruits_are_classified() {
    let rows = all_rows(&["apple", "banana", "cherry"], &["banana", "cherry", "date"], plain());
    assert_eq!(rows, tagged(&[("apple", 0), ("banana", 2), ("cherry", 2), ("date", 1)]));
}

#[test]
fn three_fruits_are_rendered_by_column_tag() {
    let out = shown_lines(&["apple", "banana", "cherry"], &["banana", "cherry", "date"], plain());
    assert_eq!(out, lines(&["apple", "\t\tbanana", "\t\tcherry", "\tdate"]));
}

#[test]
fn rows_carry_one_tab_as_separator() {
    let mut engine = FilePair::new(lines(&["a"]), lines(&[])).into_lines(plain());
    let row = engine.next().unwrap();
    assert_eq!(row.separator(), "\t");
    assert_eq!(row.text(), "a");
    assert_eq!(row.column(), 0);
}

#[test]
fn ignoring_case_keeps_the_first_inputs_text() {
    let config = CreateConfig::new().ignore_case(true).create();
    let rows = all_rows(&["Apple"], &["apple"], config);
    assert_eq!(rows, tagged(&[("Apple", 2)]));
}

#[test]
fn without_ignoring_case_the_two_differ() {
    let rows = all_rows(&["Apple"], &["apple"], plain());
    assert_eq!(rows, tagged(&[("Apple", 0), ("apple", 1)]));
}

#[test]
fn ignoring_case_folds_letters_outside_ascii() {
    let config = CreateConfig::new().ignore_case(true).create();
    let rows = all_rows(&["ÉCOLE", "Zebra"], &["école", "zebra"], config);
    assert_eq!(rows, tagged(&[("ÉCOLE", 2), ("Zebra", 2)]));
}

#[test]
fn suppressed_common_column_drops_common_lines() {
    let config = CreateConfig::new().suppress_column(3, true).create();
    let out = shown_lines(&["apple", "banana", "cherry"], &["banana", "cherry", "date"], config);
    assert_eq!(out, lines(&["apple", "\tdate"]));
}

#[test]
fn suppression_does_not_change_the_engines_rows() {
    let config = CreateConfig::new().suppress_column(3, true).create();
    let rows = all_rows(&["apple", "banana"], &["banana", "date"], config);
    assert_eq!(rows, tagged(&[("apple", 0), ("banana", 2), ("date", 1)]));
}

#[test]
fn suppressed_first_column_shows_the_second_input() {
    let config = CreateConfig::new().suppress_column(1, true).create();
    let out = shown_lines(&["a", "b", "d"], &["b", "c"], config);
    assert_eq!(out, lines(&["\t\tb", "\tc"]));
}

#[test]
fn suppressed_second_column_shows_the_first_input() {
    let config = CreateConfig::new().suppress_column(2, true).create();
    let out = shown_lines(&["a", "b", "d"], &["b", "c"], config);
    assert_eq!(out, lines(&["a", "\t\tb", "d"]));
}

#[test]
fn all_columns_suppressed_show_nothing() {
    let config = CreateConfig::new()
        .suppress_column(1, true)
        .suppress_column(2, true)
        .suppress_column(3, true)
        .create();
    let out = shown_lines(&["a", "b"], &["b", "c"], config);
    assert!(out.is_empty());
}

#[test]
fn empty_first_input_yields_the_second() {
    let rows = all_rows(&[], &["x", "y", "z"], plain());
    assert_eq!(rows, tagged(&[("x", 1), ("y", 1), ("z", 1)]));
}

#[test]
fn empty_second_input_yields_the_first() {
    let rows = all_rows(&["x", "y"], &[], plain());
    assert_eq!(rows, tagged(&[("x", 0), ("y", 0)]));
}

#[test]
fn two_empty_inputs_yield_nothing() {
    let rows = all_rows(&[], &[], plain());
    assert!(rows.is_empty());
    assert!(shown_lines(&[], &[], plain()).is_empty());
}

#[test]
fn the_same_merge_twice_gives_the_same_rows() {
    let a = ["ant", "bee", "cat", "cat"];
    let b = ["bee", "cat", "dog"];
    let first = all_rows(&a, &b, plain());
    let second = all_rows(&a, &b, plain());
    assert_eq!(first, second);
    assert_eq!(first, tagged(&[("ant", 0), ("bee", 2), ("cat", 2), ("cat", 0), ("dog", 1)]));
}

#[test]
fn exchanged_inputs_mirror_the_columns() {
    let a = ["ant", "bee", "eel"];
    let b = ["bee", "cat", "dog"];
    let forward = all_rows(&a, &b, plain());
    let backward = all_rows(&b, &a, plain());
    assert_eq!(forward.len(), backward.len());
    for (f, g) in forward.iter().zip(backward.iter()) {
        assert_eq!(f.0, g.0);
        let mirrored = match f.1 {
            0 => 1,
            1 => 0,
            c => c,
        };
        assert_eq!(g.1, mirrored);
    }
}

#[test]
fn exchanged_inputs_and_flags_show_the_same_texts() {
    let a = ["ant", "bee", "eel"];
    let b = ["bee", "cat", "dog"];
    let one = CreateConfig::new().suppress_column(1, true).create();
    let two = CreateConfig::new().suppress_column(2, true).create();
    let forward = shown_lines(&a, &b, one);
    let backward = shown_lines(&b, &a, two);
    assert_eq!(forward, lines(&["\t\tbee", "\tcat", "\tdog"]));
    assert_eq!(backward, lines(&["\t\tbee", "cat", "dog"]));
}

#[test]
fn every_line_of_the_first_input_appears_once_in_order() {
    let a = ["a", "c", "e", "g"];
    let b = ["b", "c", "d", "g", "h"];
    let rows = all_rows(&a, &b, plain());
    let from_first: Vec<String> =
        rows.iter().filter(|r| r.1 != 1).map(|r| r.0.clone()).collect();
    assert_eq!(from_first, lines(&a));
    let first_only: Vec<String> =
        rows.iter().filter(|r| r.1 == 0).map(|r| r.0.clone()).collect();
    assert_eq!(first_only, lines(&["a", "e"]));
    let second_only: Vec<String> =
        rows.iter().filter(|r| r.1 == 1).map(|r| r.0.clone()).collect();
    assert_eq!(second_only, lines(&["b", "d", "h"]));
}

#[test]
fn a_repeated_line_matches_once_per_partner() {
    let rows = all_rows(&["x", "x"], &["x"], plain());
    assert_eq!(rows, tagged(&[("x", 2), ("x", 0)]));
}

#[test]
fn a_prefix_sorts_before_the_longer_line() {
    let rows = all_rows(&["ab", "abc"], &["abc"], plain());
    assert_eq!(rows, tagged(&[("ab", 0), ("abc", 2)]));
}

#[test]
fn both_heads_present_first_smaller() {
    let r = FilePair::should_advance_cursor(&Some("a".to_string()), &Some("b".to_string()), false);
    assert_eq!(r, (true, false, 0));
}

#[test]
fn both_heads_present_second_smaller() {
    let r = FilePair::should_advance_cursor(&Some("b".to_string()), &Some("a".to_string()), false);
    assert_eq!(r, (false, true, 1));
}

#[test]
fn both_heads_present_and_equal() {
    let r = FilePair::should_advance_cursor(&Some("a".to_string()), &Some("a".to_string()), false);
    assert_eq!(r, (true, true, 2));
}

#[test]
fn upper_case_sorts_first_unless_case_is_ignored() {
    let big = Some("B".to_string());
    let small = Some("a".to_string());
    assert_eq!(FilePair::should_advance_cursor(&big, &small, false), (true, false, 0));
    assert_eq!(FilePair::should_advance_cursor(&big, &small, true), (false, true, 1));
}

#[test]
fn lines_are_ordered_by_code_point() {
    let plain_z = Some("z".to_string());
    let accented = Some("é".to_string());
    assert_eq!(FilePair::should_advance_cursor(&plain_z, &accented, false), (true, false, 0));
    assert_eq!(FilePair::should_advance_cursor(&accented, &plain_z, false), (false, true, 1));
}

#[test]
fn one_head_missing_advances_the_other() {
    let some = Some("a".to_string());
    assert_eq!(FilePair::should_advance_cursor(&some, &None, false), (true, false, 0));
    assert_eq!(FilePair::should_advance_cursor(&None, &some, true), (false, true, 1));
}

#[test]
fn no_head_advances_nothing() {
    assert_eq!(FilePair::should_advance_cursor(&None, &None, false), (false, false, 0));
}

#[test]
fn a_line_source_stays_at_its_end() {
    let mut source = FileLines::from_file(lines(&["one", "two"]));
    assert_eq!(source.next_line(), Some("one".to_string()));
    assert_eq!(source.next_line(), Some("two".to_string()));
    assert_eq!(source.next_line(), None);
    assert_eq!(source.next_line(), None);
}

#[test]
fn the_whole_output_of_the_three_fruits() {
    let pair = FilePair::new(
        lines(&["apple", "banana", "cherry"]),
        lines(&["banana", "cherry", "date"]),
    );
    assert_eq!(pair.rendered_lines(plain()), lines(&["apple", "\t\tbanana", "\t\tcherry", "\tdate"]));
}

#[test]
fn the_whole_output_without_the_common_column() {
    let pair = FilePair::new(
        lines(&["apple", "banana", "cherry"]),
        lines(&["banana", "cherry", "date"]),
    );
    let config = CreateConfig::new().suppress_column(3, true).create();
    assert_eq!(pair.rendered_lines(config), lines(&["apple", "\tdate"]));
}

#[test]
fn the_whole_output_is_the_same_on_every_run() {
    let a = ["Ant", "bee", "Cat"];
    let b = ["ant", "BEE", "dog"];
    let run = || {
        let config = CreateConfig::new().ignore_case(true).suppress_column(2, true).create();
        FilePair::new(lines(&a), lines(&b)).rendered_lines(config)
    };
    let first = run();
    assert_eq!(first, run());
    assert_eq!(first, lines(&["\t\tAnt", "\t\tbee", "Cat"]));
}

#[test]
fn the_whole_output_of_empty_inputs_is_empty() {
    assert!(FilePair::new(lines(&[]), lines(&[])).rendered_lines(plain()).is_empty());
    assert_eq!(
        FilePair::new(lines(&[]), lines(&["x", "y"])).rendered_lines(plain()),
        lines(&["\tx", "\ty"])
    );
}
