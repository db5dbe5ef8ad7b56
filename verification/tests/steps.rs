use rcomm::{CreateConfig, Fetched, FilePair, LineReadError, MergeState};

fn line(text: &str) -> Fetched {
    Fetched::Line(text.to_string())
}

fn feed(source: &mut std::slice::Iter<'_, &str>, wanted: bool) -> Fetched {
    if !wanted {
        return Fetched::End;
    }
    match source.next() {
        Some(text) => line(text),
        None => Fetched::End,
    }
}

fn drive(a: &[&str], b: &[&str], ignore_case: bool) -> Vec<(String, u8)> {
    let mut first = a.iter();
    let mut second = b.iter();
    let mut state = MergeState::new(ignore_case);
    let mut out = Vec::new();
    loop {
        let f1 = feed(&mut first, state.wants_first());
        let f2 = feed(&mut second, state.wants_second());
        match state.step(f1, f2).unwrap() {
            Some(row) => out.push((row.text().to_string(), row.column())),
            None => return out,
        }
    }
}

#[test]
fn a_new_state_asks_for_both_lines() {
    let state = MergeState::new(false);
    assert!(state.wants_first());
    assert!(state.wants_second());
}

#[test]
fn the_smaller_line_leaves_and_its_side_is_asked_again() {
    let mut state = MergeState::new(false);
    let row = state.step(line("apple"), line("banana")).unwrap().unwrap();
    assert_eq!((row.text(), row.column(), row.separator()), ("apple", 0, "\t"));
    assert!(state.wants_first());
    assert!(!state.wants_second());
    let row = state.step(line("cherry"), line("ignored")).unwrap().unwrap();
    assert_eq!((row.text(), row.column()), ("banana", 1));
    assert!(!state.wants_first());
    assert!(state.wants_second());
    let row = state.step(line("ignored"), Fetched::End).unwrap().unwrap();
    assert_eq!((row.text(), row.column()), ("cherry", 0));
    assert!(state.wants_first());
    assert!(!state.wants_second());
    assert!(state.step(Fetched::End, Fetched::End).unwrap().is_none());
    assert!(!state.wants_first());
    assert!(!state.wants_second());
}

#[test]
fn equal_lines_leave_together() {
    let mut state = MergeState::new(false);
    let row = state.step(line("same"), line("same")).unwrap().unwrap();
    assert_eq!((row.text(), row.column()), ("same", 2));
    assert!(state.wants_first());
    assert!(state.wants_second());
}

#[test]
fn a_finished_merge_stays_finished() {
    let mut state = MergeState::new(false);
    assert!(state.step(Fetched::End, Fetched::End).unwrap().is_none());
    assert!(state.step(line("late"), line("later")).unwrap().is_none());
    assert!(state.step(Fetched::Failed, Fetched::Failed).unwrap().is_none());
}

#[test]
fn a_failed_read_of_the_first_input_ends_the_merge() {
    let mut state = MergeState::new(false);
    let outcome = state.step(Fetched::Failed, line("b"));
    assert_eq!(outcome.err(), Some(LineReadError { side: 1 }));
    assert!(!state.wants_first());
    assert!(!state.wants_second());
    assert!(state.step(line("a"), line("b")).unwrap().is_none());
}

#[test]
fn a_failed_read_of_the_second_input_ends_the_merge() {
    let mut state = MergeState::new(false);
    let outcome = state.step(line("a"), Fetched::Failed);
    assert_eq!(outcome.err(), Some(LineReadError { side: 2 }));
    assert!(state.step(line("a"), line("b")).unwrap().is_none());
}

#[test]
fn when_both_reads_fail_the_first_is_named() {
    let mut state = MergeState::new(false);
    let outcome = state.step(Fetched::Failed, Fetched::Failed);
    assert_eq!(outcome.err(), Some(LineReadError { side: 1 }));
}

#[test]
fn a_failure_after_some_rows_keeps_them() {
    let mut state = MergeState::new(false);
    let row = state.step(line("a"), line("b")).unwrap().unwrap();
    assert_eq!((row.text(), row.column()), ("a", 0));
    let outcome = state.step(Fetched::Failed, Fetched::End);
    assert_eq!(outcome.err(), Some(LineReadError { side: 1 }));
    assert!(state.step(Fetched::End, Fetched::End).unwrap().is_none());
}

#[test]
fn a_side_that_is_not_asked_is_not_read() {
    let mut state = MergeState::new(false);
    state.step(line("a"), line("b")).unwrap();
    let row = state.step(line("c"), Fetched::Failed).unwrap().unwrap();
    assert_eq!((row.text(), row.column()), ("b", 1));
}

#[test]
fn driven_steps_give_the_rows_of_the_merge_in_memory() {
    let a = ["ant", "bee", "cat", "cat", "eel"];
    let b = ["bee", "cat", "dog", "eel", "fox"];
    let driven = drive(&a, &b, false);
    let mut engine = FilePair::new(
        a.iter().map(|s| s.to_string()).collect(),
        b.iter().map(|s| s.to_string()).collect(),
    )
    .into_lines(CreateConfig::new().create());
    let mut held = Vec::new();
    while let Some(row) = engine.next() {
        held.push((row.text().to_string(), row.column()));
    }
    assert_eq!(driven, held);
    assert_eq!(driven.len(), 7);
}

#[test]
fn driven_steps_ignore_case_where_asked() {
    let rows = drive(&["Apple", "pear"], &["apple", "PEAR"], true);
    assert_eq!(rows, vec![("Apple".to_string(), 2), ("pear".to_string(), 2)]);
}
