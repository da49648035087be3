//! Listing the working directory, one step at a time.
//!
//! Listing a directory alternates between asking the operating system for
//! something and deciding what to do with the answer. The deciding is done
//! here: the caller performs an [`Action`], reports its [`Outcome`] to
//! [`react`], writes the line that comes back, if any, and performs the
//! action that comes back with it. A listing begins with [`start`] and ends
//! with [`Action::Finish`].
//!
//! A path reaches this module as the text by which it is to be shown; the
//! error type `E` is whatever the operating system hands out, and passes
//! through untouched.

use vstd::prelude::*;

use crate::text::{cwd_line, cwd_text, entry_line, entry_text};

verus! {

/// What the operating system answered to the last request.
#[derive(Debug, PartialEq, Eq)]
pub enum Outcome<E> {
    /// The working directory was resolved; the text shows its path.
    Resolved(String),
    /// The working directory was opened for enumeration.
    Opened,
    /// The enumeration gave one more entry; the text shows its path.
    Entry(String),
    /// The enumeration has no more entries.
    Exhausted,
    /// The request failed.
    Failed(E),
}

/// What the caller is to do next.
#[derive(Debug, PartialEq, Eq)]
pub enum Action<E> {
    /// Resolve the working directory.
    Resolve,
    /// Open the working directory for enumeration.
    Open,
    /// Fetch the next entry of the enumeration.
    Next,
    /// Stop, and return this result.
    Finish(Result<(), E>),
}

/// One decision: the line to write first, if any, and the action to perform
/// after that.
#[derive(Debug, PartialEq, Eq)]
pub struct Step<E> {
    pub line: Option<String>,
    pub action: Action<E>,
}

/// The line that is written when `outcome` comes in: the working directory
/// and every entry are announced, the other outcomes write nothing.
pub open spec fn line_for<E>(outcome: Outcome<E>) -> Option<Seq<char>> {
    match outcome {
        Outcome::Resolved(dir) => Some(cwd_text(dir@)),
        Outcome::Entry(path) => Some(entry_text(path@)),
        _ => None,
    }
}

/// The action that follows `outcome`: a resolved directory is opened, an
/// opened directory and every entry lead to the next entry, the end of the
/// enumeration finishes the listing with success, and a failure finishes it
/// with the error that failed.
pub open spec fn action_after<E>(outcome: Outcome<E>) -> Action<E> {
    match outcome {
        Outcome::Resolved(_) => Action::Open,
        Outcome::Opened => Action::Next,
        Outcome::Entry(_) => Action::Next,
        Outcome::Exhausted => Action::Finish(Ok(())),
        Outcome::Failed(error) => Action::Finish(Err(error)),
    }
}

/// Whether `outcome` is one of the answers that performing `action` can
/// have. Nothing answers `Finish`.
pub open spec fn answers<E>(action: Action<E>, outcome: Outcome<E>) -> bool {
    match action {
        Action::Resolve => outcome is Resolved || outcome is Failed,
        Action::Open => outcome is Opened || outcome is Failed,
        Action::Next => outcome is Entry || outcome is Exhausted || outcome is Failed,
        Action::Finish(_) => false,
    }
}

/// The action that is outstanding once `outcomes` have come in, in this
/// order, since the start of a listing.
pub open spec fn outstanding<E>(outcomes: Seq<Outcome<E>>) -> Action<E> {
    if outcomes.len() == 0 {
        Action::Resolve
    } else {
        action_after(outcomes.last())
    }
}

/// Whether the outcome at `index` answers the action that was outstanding
/// when it came in.
pub open spec fn in_turn<E>(outcomes: Seq<Outcome<E>>, index: int) -> bool {
    answers(outstanding(outcomes.take(index)), outcomes[index])
}

/// Whether `outcomes` can come in, in this order, from the start of a
/// listing: each of them answers the action that was outstanding.
pub open spec fn orderly<E>(outcomes: Seq<Outcome<E>>) -> bool {
    forall|index: int| 0 <= index < outcomes.len() ==> #[trigger] in_turn(outcomes, index)
}

/// The lines that are written while `outcomes` come in, in this order.
pub open spec fn transcript<E>(outcomes: Seq<Outcome<E>>) -> Seq<Seq<char>>
    decreases outcomes.len(),
{
    if outcomes.len() == 0 {
        Seq::empty()
    } else {
        let before = transcript(outcomes.drop_last());
        match line_for(outcomes.last()) {
            Some(line) => before.push(line),
            None => before,
        }
    }
}

/// The outcomes of a listing that meets no failure: the directory `dir` is
/// resolved and opened, gives `entries` one by one, and is exhausted.
pub open spec fn complete_listing<E>(dir: String, entries: Seq<String>) -> Seq<Outcome<E>> {
    opened_listing::<E>(dir, entries).push(Outcome::Exhausted)
}

/// The outcomes of a listing up to the point where the directory `dir` has
/// given `entries` and has not yet been asked for more.
pub open spec fn opened_listing<E>(dir: String, entries: Seq<String>) -> Seq<Outcome<E>> {
    seq![Outcome::Resolved(dir), Outcome::Opened] + Seq::new(
        entries.len(),
        |i: int| Outcome::<E>::Entry(entries[i]),
    )
}

/// The lines of a listing of the directory `dir` with `entries`: the line
/// of the directory, then the line of each entry, in the order of the
/// entries.
pub open spec fn listing_lines(dir: String, entries: Seq<String>) -> Seq<Seq<char>> {
    seq![cwd_text(dir@)] + Seq::new(entries.len(), |i: int| entry_text(entries[i]@))
}

/// The first step of a listing: nothing is written, and the working
/// directory is to be resolved.
pub fn start<E>() -> (step: Step<E>)
    ensures
        step.line is None,
        step.action == outstanding(Seq::<Outcome<E>>::empty()),
        step.action == Action::<E>::Resolve,
{
    Step { line: None, action: Action::Resolve }
}

/// Decides what follows `outcome`.
pub fn react<E>(outcome: Outcome<E>) -> (step: Step<E>)
    ensures
        step.line.deep_view() == line_for(outcome),
        step.action == action_after(outcome),
{
    match outcome {
        Outcome::Resolved(dir) => Step {
            line: Some(cwd_line(dir.as_str())),
            action: Action::Open,
        },
        Outcome::Opened => Step { line: None, action: Action::Next },
        Outcome::Entry(path) => Step {
            line: Some(entry_line(path.as_str())),
            action: Action::Next,
        },
        Outcome::Exhausted => Step { line: None, action: Action::Finish(Ok(())) },
        Outcome::Failed(error) => Step { line: None, action: Action::Finish(Err(error)) },
    }
}

/// What has been written once the directory `dir` has given `entries`.
proof fn lemma_opened_transcript<E>(dir: String, entries: Seq<String>)
    ensures
        transcript(opened_listing::<E>(dir, entries)) == listing_lines(dir, entries),
    decreases entries.len(),
{
    let outcomes = opened_listing::<E>(dir, entries);
    if entries.len() == 0 {
        let resolved = seq![Outcome::<E>::Resolved(dir)];
        assert(outcomes.drop_last() =~= resolved);
        assert(resolved.drop_last() =~= Seq::<Outcome<E>>::empty());
        assert(transcript(Seq::<Outcome<E>>::empty()) =~= Seq::<Seq<char>>::empty());
        assert(transcript(resolved) =~= seq![cwd_text(dir@)]);
        assert(listing_lines(dir, entries) =~= seq![cwd_text(dir@)]);
    } else {
        let fewer = entries.drop_last();
        lemma_opened_transcript::<E>(dir, fewer);
        assert(outcomes.drop_last() =~= opened_listing::<E>(dir, fewer));
        assert(outcomes.last() == Outcome::<E>::Entry(entries.last()));
        assert(listing_lines(dir, entries) =~= listing_lines(dir, fewer).push(
            entry_text(entries.last()@),
        ));
    }
}

/// The outcome before the one at `index` decides which action the one at
/// `index` has to answer.
proof fn lemma_turn_follows<E>(outcomes: Seq<Outcome<E>>, index: int)
    requires
        0 < index < outcomes.len(),
    ensures
        in_turn(outcomes, index) == answers(action_after(outcomes[index - 1]), outcomes[index]),
{
    assert(outcomes.take(index).last() == outcomes[index - 1]);
}

/// A listing that meets no failure is orderly, writes the line of the
/// working directory and then the line of each entry, in the order of the
/// entries, and finishes with success.
pub proof fn law_complete_listing<E>(dir: String, entries: Seq<String>)
    ensures
        orderly(complete_listing::<E>(dir, entries)),
        outstanding(complete_listing::<E>(dir, entries)) == Action::<E>::Finish(Ok(())),
        transcript(complete_listing::<E>(dir, entries)) == listing_lines(dir, entries),
{
    let outcomes = complete_listing::<E>(dir, entries);
    assert forall|index: int| 0 <= index < outcomes.len() implies #[trigger] in_turn(
        outcomes,
        index,
    ) by {
        if index == 0 {
            assert(outcomes.take(0).len() == 0);
        } else {
            lemma_turn_follows(outcomes, index);
        }
    }
    lemma_opened_transcript::<E>(dir, entries);
    assert(outcomes.drop_last() =~= opened_listing::<E>(dir, entries));
}

/// A failure may follow any orderly run of outcomes that has not finished.
/// It finishes the listing with the error that failed, and writes nothing:
/// what was written before it stays written.
pub proof fn law_failure_finishes<E>(outcomes: Seq<Outcome<E>>, error: E)
    requires
        orderly(outcomes),
        !(outstanding(outcomes) is Finish),
    ensures
        orderly(outcomes.push(Outcome::Failed(error))),
        outstanding(outcomes.push(Outcome::Failed(error))) == Action::Finish(Err::<(), E>(error)),
        transcript(outcomes.push(Outcome::Failed(error))) == transcript(outcomes),
{
    let failed = outcomes.push(Outcome::Failed(error));
    assert forall|index: int| 0 <= index < failed.len() implies #[trigger] in_turn(
        failed,
        index,
    ) by {
        assert(failed.take(index) =~= outcomes.take(index));
        if index < outcomes.len() {
            assert(in_turn(outcomes, index));
        } else {
            assert(outcomes.take(index) =~= outcomes);
        }
    }
    assert(failed.drop_last() =~= outcomes);
}

/// An orderly run of outcomes that has finished with success is a complete
/// listing: the directory was resolved and opened, gave entries and nothing
/// else, and was exhausted.
pub proof fn law_success_is_complete<E>(outcomes: Seq<Outcome<E>>)
    requires
        orderly(outcomes),
        outstanding(outcomes) == Action::<E>::Finish(Ok(())),
    ensures
        exists|dir: String, entries: Seq<String>|
            outcomes == #[trigger] complete_listing::<E>(dir, entries),
{
    let len = outcomes.len() as int;
    assert(outcomes.last() is Exhausted);
    assert(in_turn(outcomes, 0));
    assert(outcomes.take(0).len() == 0);
    assert forall|index: int| 0 < index < len implies answers(
        action_after(#[trigger] outcomes[index - 1]),
        outcomes[index],
    ) by {
        assert(in_turn(outcomes, index));
        lemma_turn_follows(outcomes, index);
    }
    assert(len >= 3) by {
        if len == 2 {
            assert(answers(action_after(outcomes[1 - 1]), outcomes[1]));
        }
        if len >= 2 {
            assert(answers(action_after(outcomes[(len - 1) - 1]), outcomes[len - 1]));
        }
    }
    assert(outcomes[0] is Resolved && outcomes[1] is Opened) by {
        assert(answers(action_after(outcomes[1 - 1]), outcomes[1]));
        assert(answers(action_after(outcomes[2 - 1]), outcomes[2]));
    }
    assert forall|index: int| 2 <= index < len - 1 implies #[trigger] outcomes[index] is Entry by {
        lemma_entries_follow(outcomes, index);
    }
    let dir = outcomes[0]->Resolved_0;
    let entries = Seq::new((len - 3) as nat, |i: int| outcomes[i + 2]->Entry_0);
    assert(outcomes =~= complete_listing::<E>(dir, entries));
}

/// In an orderly run that begins by resolving and opening the directory,
/// every outcome from the third on that is not the last is an entry.
proof fn lemma_entries_follow<E>(outcomes: Seq<Outcome<E>>, index: int)
    requires
        orderly(outcomes),
        outcomes.len() >= 3,
        outcomes[0] is Resolved,
        outcomes[1] is Opened,
        2 <= index < outcomes.len() - 1,
    ensures
        outcomes[index] is Entry,
    decreases index,
{
    assert(in_turn(outcomes, index));
    lemma_turn_follows(outcomes, index);
    assert(in_turn(outcomes, index + 1));
    lemma_turn_follows(outcomes, index + 1);
    if index > 2 {
        lemma_entries_follow(outcomes, index - 1);
    }
}

/// An orderly run of outcomes that has finished with an error ends in the
/// failure that gave this error.
pub proof fn law_error_is_the_failure<E>(outcomes: Seq<Outcome<E>>, error: E)
    requires
        outstanding(outcomes) == Action::Finish(Err::<(), E>(error)),
    ensures
        outcomes.len() > 0,
        outcomes.last() == Outcome::Failed(error),
{
}

} // verus!
