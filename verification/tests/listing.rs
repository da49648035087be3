use native_bridge::listing::{react, start, Action, Outcome, Step};

/// Feeds `outcomes` to the machine in order, as a caller would, and gives
/// back the lines written and the result the listing finished with, if it
/// finished.
fn run(outcomes: Vec<Outcome<String>>) -> (Vec<String>, Option<Result<(), String>>) {
    let mut lines: Vec<String> = Vec::new();
    let mut step: Step<String> = start();
    let mut pending = outcomes.into_iter();
    loop {
        if let Some(line) = step.line {
            lines.push(line);
        }
        if let Action::Finish(result) = step.action {
            return (lines, Some(result));
        }
        match pending.next() {
            Some(outcome) => step = react(outcome),
            None => return (lines, None),
        }
    }
}

fn resolved(dir: &str) -> Outcome<String> {
    Outcome::Resolved(String::from(dir))
}

fn entry(path: &str) -> Outcome<String> {
    Outcome::Entry(String::from(path))
}

fn failed(error: &str) -> Outcome<String> {
    Outcome::Failed(String::from(error))
}

#[test]
fn start_asks_for_the_working_directory() {
    let step: Step<String> = start();
    assert_eq!(step.line, None);
    assert_eq!(step.action, Action::Resolve);
}

#[test]
fn resolved_directory_is_announced_and_opened() {
    let step: Step<String> = react(resolved("\"/srv\""));
    assert_eq!(step.line, Some(String::from("Current working directory: \"/srv\"")));
    assert_eq!(step.action, Action::Open);
}

#[test]
fn opened_directory_is_asked_for_an_entry() {
    let step: Step<String> = react(Outcome::Opened);
    assert_eq!(step.line, None);
    assert_eq!(step.action, Action::Next);
}

#[test]
fn entry_is_announced_and_the_next_is_asked_for() {
    let step: Step<String> = react(entry("\"/srv/a\""));
    assert_eq!(step.line, Some(String::from("File: \"/srv/a\"")));
    assert_eq!(step.action, Action::Next);
}

#[test]
fn exhausted_directory_finishes_with_success() {
    let step: Step<String> = react(Outcome::Exhausted);
    assert_eq!(step.line, None);
    assert_eq!(step.action, Action::Finish(Ok(())));
}

#[test]
fn failure_finishes_with_its_error() {
    let step: Step<String> = react(failed("permission denied"));
    assert_eq!(step.line, None);
    assert_eq!(step.action, Action::Finish(Err(String::from("permission denied"))));
}

#[test]
fn complete_listing_writes_every_entry_in_order() {
    let (lines, result) = run(vec![
        resolved("\"/srv\""),
        Outcome::Opened,
        entry("\"/srv/b\""),
        entry("\"/srv/a\""),
        entry("\"/srv/c\""),
        Outcome::Exhausted,
    ]);
    assert_eq!(
        lines,
        vec![
            "Current working directory: \"/srv\"",
            "File: \"/srv/b\"",
            "File: \"/srv/a\"",
            "File: \"/srv/c\"",
        ]
    );
    assert_eq!(result, Some(Ok(())));
}

#[test]
fn empty_directory_writes_only_its_own_line() {
    let (lines, result) = run(vec![resolved("\"/empty\""), Outcome::Opened, Outcome::Exhausted]);
    assert_eq!(lines, vec!["Current working directory: \"/empty\""]);
    assert_eq!(result, Some(Ok(())));
}

#[test]
fn unresolved_directory_writes_nothing() {
    let (lines, result) = run(vec![failed("not found")]);
    assert!(lines.is_empty());
    assert_eq!(result, Some(Err(String::from("not found"))));
}

#[test]
fn unopened_directory_keeps_its_own_line() {
    let (lines, result) = run(vec![resolved("\"/locked\""), failed("permission denied")]);
    assert_eq!(lines, vec!["Current working directory: \"/locked\""]);
    assert_eq!(result, Some(Err(String::from("permission denied"))));
}

#[test]
fn failure_among_the_entries_keeps_what_was_written() {
    let (lines, result) = run(vec![
        resolved("\"/srv\""),
        Outcome::Opened,
        entry("\"/srv/a\""),
        entry("\"/srv/b\""),
        failed("directory deleted"),
        entry("\"/srv/c\""),
    ]);
    assert_eq!(
        lines,
        vec!["Current working directory: \"/srv\"", "File: \"/srv/a\"", "File: \"/srv/b\""]
    );
    assert_eq!(result, Some(Err(String::from("directory deleted"))));
}

#[test]
fn unfinished_listing_has_no_result() {
    let (lines, result) = run(vec![resolved("\"/srv\""), Outcome::Opened, entry("\"/srv/a\"")]);
    assert_eq!(lines, vec!["Current working directory: \"/srv\"", "File: \"/srv/a\""]);
    assert_eq!(result, None);
}

#[test]
fn error_passes_through_unchanged() {
    let step: Step<(u8, bool)> = react(Outcome::Failed((13, true)));
    assert_eq!(step.action, Action::Finish(Err((13, true))));
}
