//! The rename executor. It decides; its caller acts. Each step takes what the
//! caller found out (whether a path is taken, how a rename went, which key the
//! operator pressed) and answers with a line to show and the next thing to do.
//!
//! For each entry of the mapping, in order: the destination is resolved, the
//! rename is asked for, and what comes of it decides how the run goes on.
//! - A rename that was made goes into the journal, and is shown.
//! - A rename that was refused for want of permission is put to the operator:
//!   `r` tries once more, and a second failure leaves the file as it is; `c`
//!   leaves the file as it is; `a` gives the run up. Any other key is asked
//!   for again.
//! - A file that is not there is shown as such, and the run goes on.
//! - Any other failure ends the run.
//!
//! Whenever a run ends before its mapping does, by the operator's `a` or by a
//! failure without remedy, the journal is undone first, latest rename first.
//! A rename that fails while the journal is undone ends the run on the spot.

use crate::journal::{reversal_plan, Journal};
use crate::prompt::{directive_of, get_user_input, Directive};
use crate::report::{
    denied_line, display_denied, display_fatal, display_not_found, display_result,
    display_skipping, display_still_denied, display_summary, fatal_line, not_found_line,
    result_line, skipping_line, still_denied_line, summary_line,
};
use crate::paths::NameError;
use crate::resolver::{
    anchored, check_new_names_with, construct_new_names, default_token, duplicate_path,
    duplicate_token, resolved,
};
use vstd::prelude::*;
use vstd::string::*;

verus! {

/// How the filesystem answered one rename.
#[derive(Clone, Copy, Debug, PartialEq, Eq, Structural)]
pub enum Attempt {
    /// The file has its new name.
    Renamed,
    /// Access was denied: the operator is asked what to do.
    PermissionDenied,
    /// There was no file at the origin.
    NotFound,
    /// Any other failure.
    Failed,
}

/// What came of one entry of the mapping.
#[derive(Clone, Copy, Debug, PartialEq, Eq, Structural)]
pub enum RenameOutcome {
    /// The file was renamed, and the journal holds the rename.
    Success,
    /// The origin was missing; the run went on.
    NotFound,
    /// The rename was refused and the file was left as it is; the run went on.
    Skipped,
    /// The run ended on this entry.
    Fatal,
}

/// What the caller found out since the last step.
#[derive(Clone, Copy, Debug, PartialEq, Eq, Structural)]
pub enum Event {
    /// Whether the path asked about names a file.
    Probed(bool),
    /// How the rename asked for went.
    Attempted(Attempt),
    /// The key that the operator pressed.
    Key(u8),
    /// Whether the rename that undoes an earlier one succeeded.
    Reverted(bool),
}

/// How a run ends.
#[derive(Clone, Copy, Debug, PartialEq, Eq, Structural)]
pub enum Exit {
    /// Every entry was seen to.
    Finished,
    /// The operator asked to stop, and the journal was undone.
    Aborted,
    /// A rename or a name failed beyond remedy, and the journal was undone.
    Failed,
    /// A rename that should have undone an earlier one failed.
    Stuck,
}

/// Where a run stands.
#[derive(Clone, Copy, Debug, PartialEq, Eq, Structural)]
pub enum Phase {
    /// Waiting to hear whether the destination of the entry is taken.
    Probing,
    /// Waiting to hear how the rename went.
    Renaming,
    /// Waiting to hear how the second attempt at the rename went.
    Retrying,
    /// Waiting for a key of the operator.
    Asking,
    /// Waiting to hear how a rename that undoes an earlier one went.
    Reverting(Exit),
    /// Over.
    Done(Exit),
}

/// What the caller is to do next.
#[derive(Debug)]
pub enum Action {
    /// Find out whether `path` names a file, and answer `Event::Probed`.
    Probe { path: String },
    /// Rename `from` to `to`, and answer `Event::Attempted`.
    Rename { from: String, to: String },
    /// Show `question`, read a key, and answer `Event::Key`.
    Prompt { question: String },
    /// Read another key, and answer `Event::Key`.
    ReadKey,
    /// Rename `from` back to `to`, and answer `Event::Reverted`.
    Revert { from: String, to: String },
    /// Show `summary` and end the process as a success.
    Finish { summary: String },
    /// End the process abnormally: the operator gave the run up.
    Abort,
    /// End the process abnormally with `diagnostic`.
    Fatal { diagnostic: String },
}

/// An `Action` with its texts as plain sequences.
#[verifier::ext_equal]
pub enum ActionView {
    Probe { path: Seq<char> },
    Rename { from: Seq<char>, to: Seq<char> },
    Prompt { question: Seq<char> },
    ReadKey,
    Revert { from: Seq<char>, to: Seq<char> },
    Finish { summary: Seq<char> },
    Abort,
    Fatal { diagnostic: Seq<char> },
}

impl View for Action {
    type V = ActionView;

    open spec fn view(&self) -> ActionView {
        match self {
            Action::Probe { path } => ActionView::Probe { path: path@ },
            Action::Rename { from, to } => ActionView::Rename { from: from@, to: to@ },
            Action::Prompt { question } => ActionView::Prompt { question: question@ },
            Action::ReadKey => ActionView::ReadKey,
            Action::Revert { from, to } => ActionView::Revert { from: from@, to: to@ },
            Action::Finish { summary } => ActionView::Finish { summary: summary@ },
            Action::Abort => ActionView::Abort,
            Action::Fatal { diagnostic } => ActionView::Fatal { diagnostic: diagnostic@ },
        }
    }
}

/// The answer of one step: a line to show, if there is one, and what to do
/// after showing it.
#[derive(Debug)]
pub struct Step {
    pub line: Option<String>,
    pub action: Action,
}

/// A `Step` with its texts as plain sequences.
#[verifier::ext_equal]
pub struct StepView {
    pub line: Option<Seq<char>>,
    pub action: ActionView,
}

impl View for Step {
    type V = StepView;

    open spec fn view(&self) -> StepView {
        StepView { line: self.line.deep_view(), action: self.action@ }
    }
}

/// A run as the contracts see it.
#[verifier::ext_equal]
pub struct RunView {
    /// The mapping: each origin with its destination, anchored in the
    /// directory of the origin.
    pub entries: Seq<(Seq<char>, Seq<char>)>,
    /// The token that tells the stand-in for a taken name apart.
    pub token: Seq<char>,
    /// The renames that succeeded, oldest first, as (destination, origin).
    pub journal: Seq<(Seq<char>, Seq<char>)>,
    /// What came of the entries seen to so far, in the order of the mapping.
    pub outcomes: Seq<RenameOutcome>,
    /// How many files were renamed.
    pub renamed: nat,
    /// How many renames of the journal were undone.
    pub reverted: nat,
    /// The path that the entry in hand is renamed to.
    pub target: Seq<char>,
    /// Where the run stands.
    pub phase: Phase,
}

/// Why a run cannot begin: an entry of the mapping that gives no destination.
#[derive(Clone, Copy, Debug, PartialEq, Eq, Structural)]
pub struct BadEntry {
    /// The place of the entry in the mapping, counted from 0.
    pub index: usize,
    /// Why the entry gives no destination.
    pub error: NameError,
}

/// The first `upto` entries of a mapping, each with the name it asks for
/// anchored in the directory of its origin; or the first entry among them
/// that gives no destination.
pub open spec fn anchored_entries(mapping: Seq<(Seq<char>, Seq<char>)>, upto: nat) -> Result<
    Seq<(Seq<char>, Seq<char>)>,
    BadEntry,
>
    decreases upto,
{
    if upto == 0 {
        Ok(Seq::empty())
    } else {
        match anchored_entries(mapping, (upto - 1) as nat) {
            Err(bad) => Err(bad),
            Ok(entries) => match anchored(mapping[upto - 1].0, mapping[upto - 1].1) {
                Ok(destination) => Ok(entries.push((mapping[upto - 1].0, destination))),
                Err(error) => Err(BadEntry { index: (upto - 1) as usize, error }),
            },
        }
    }
}

/// How many of `outcomes` are successes.
pub open spec fn successes(outcomes: Seq<RenameOutcome>) -> nat
    decreases outcomes.len(),
{
    if outcomes.len() == 0 {
        0
    } else {
        successes(outcomes.drop_last()) + if outcomes.last() == RenameOutcome::Success {
            1nat
        } else {
            0nat
        }
    }
}

/// The first line of a run.
pub open spec fn starting_line() -> Seq<char> {
    "Renaming files..."@
}

/// The question put to the operator after a rename was refused.
pub open spec fn prompt_line() -> Seq<char> {
    "What would you like to do: [r]etry/[c]ontinue/[a]bort? "@
}

/// The line for a key that stands for no directive.
pub open spec fn bad_key_line() -> Seq<char> {
    "Incorrect input! Please, try again..."@
}

/// The line that opens the undoing of the journal.
pub open spec fn rolling_back_line() -> Seq<char> {
    "Rolling back!"@
}

impl RunView {
    /// What always holds of a run: the journal has one entry for each
    /// success, no more and no less; nothing about the run is out of range;
    /// and the phase fits what has been seen to.
    pub open spec fn wf(self) -> bool {
        &&& self.outcomes.len() <= self.entries.len()
        &&& self.renamed == successes(self.outcomes)
        &&& self.journal.len() == self.renamed
        &&& self.reverted <= self.journal.len()
        &&& match self.phase {
            Phase::Probing => {
                &&& self.outcomes.len() < self.entries.len()
                &&& self.reverted == 0
                &&& self.target == self.entries[self.outcomes.len() as int].1
            },
            Phase::Renaming | Phase::Retrying | Phase::Asking => {
                &&& self.outcomes.len() < self.entries.len()
                &&& self.reverted == 0
            },
            Phase::Reverting(exit) => {
                &&& self.reverted < self.journal.len()
                &&& self.outcomes.len() > 0
                &&& (exit == Exit::Aborted || exit == Exit::Failed)
            },
            Phase::Done(Exit::Finished) => {
                &&& self.outcomes.len() == self.entries.len()
                &&& self.reverted == 0
            },
            Phase::Done(Exit::Stuck) => self.reverted < self.journal.len(),
            Phase::Done(_) => {
                &&& self.reverted == self.journal.len()
                &&& self.outcomes.len() > 0
            },
        }
    }

    /// The origin of the entry in hand.
    pub open spec fn origin(self) -> Seq<char> {
        self.entries[self.outcomes.len() as int].0
    }

    /// The rename of the journal that is undone next.
    pub open spec fn reversal(self) -> (Seq<char>, Seq<char>) {
        self.journal[self.journal.len() - 1 - self.reverted]
    }

    /// The action that ends a run.
    pub open spec fn last_action(self, exit: Exit) -> ActionView {
        match exit {
            Exit::Finished => ActionView::Finish { summary: summary_line(self.renamed) },
            Exit::Aborted => ActionView::Abort,
            Exit::Failed => ActionView::Fatal {
                diagnostic: fatal_line(self.entries[self.outcomes.len() - 1].0),
            },
            Exit::Stuck => ActionView::Fatal { diagnostic: fatal_line(self.reversal().0) },
        }
    }

    /// The action that the run is waiting to hear of.
    pub open spec fn pending(self) -> ActionView {
        match self.phase {
            Phase::Probing => ActionView::Probe { path: self.target },
            Phase::Renaming | Phase::Retrying => ActionView::Rename {
                from: self.origin(),
                to: self.target,
            },
            Phase::Asking => ActionView::ReadKey,
            Phase::Reverting(_) => ActionView::Revert {
                from: self.reversal().0,
                to: self.reversal().1,
            },
            Phase::Done(exit) => self.last_action(exit),
        }
    }

    /// The run turns to the next entry of the mapping, or is over where none
    /// is left. `line` is shown first.
    pub open spec fn enter(self, line: Option<Seq<char>>) -> (RunView, StepView) {
        if self.outcomes.len() >= self.entries.len() {
            let next = RunView { phase: Phase::Done(Exit::Finished), ..self };
            (next, StepView { line, action: next.last_action(Exit::Finished) })
        } else {
            let destination = self.entries[self.outcomes.len() as int].1;
            let next = RunView { phase: Phase::Probing, target: destination, ..self };
            (next, StepView { line, action: ActionView::Probe { path: destination } })
        }
    }

    /// The entry in hand gets its outcome, and the run turns to the next.
    pub open spec fn settle(self, outcome: RenameOutcome, line: Seq<char>) -> (RunView, StepView) {
        RunView { outcomes: self.outcomes.push(outcome), ..self }.enter(Some(line))
    }

    /// The entry in hand was renamed: the journal records it, and the run
    /// turns to the next.
    pub open spec fn succeed(self) -> (RunView, StepView) {
        RunView {
            journal: self.journal.push((self.target, self.origin())),
            renamed: self.renamed + 1,
            ..self
        }.settle(RenameOutcome::Success, result_line(self.origin(), self.target))
    }

    /// The run ends on the entry in hand: the journal is undone, latest rename
    /// first, and then the run is over as `exit` says.
    pub open spec fn give_up(self, exit: Exit) -> (RunView, StepView) {
        let fatal = RunView { outcomes: self.outcomes.push(RenameOutcome::Fatal), ..self };
        if fatal.journal.len() == 0 {
            let next = RunView { phase: Phase::Done(exit), ..fatal };
            (next, StepView { line: Some(rolling_back_line()), action: next.last_action(exit) })
        } else {
            let next = RunView { phase: Phase::Reverting(exit), ..fatal };
            (next, StepView { line: Some(rolling_back_line()), action: next.pending() })
        }
    }

    /// The run after it heard whether the destination is taken.
    pub open spec fn probed(self, taken: bool) -> (RunView, StepView) {
        let target = if taken {
            duplicate_path(self.target, self.token)
        } else {
            Ok(self.target)
        };
        match target {
            Ok(path) => {
                let next = RunView { phase: Phase::Renaming, target: path, ..self };
                (next, StepView { line: None, action: next.pending() })
            },
            Err(_) => self.give_up(Exit::Failed),
        }
    }

    /// The run after it heard how the rename went.
    pub open spec fn attempted(self, attempt: Attempt) -> (RunView, StepView) {
        match attempt {
            Attempt::Renamed => self.succeed(),
            Attempt::PermissionDenied => if self.phase == Phase::Retrying {
                self.settle(RenameOutcome::Skipped, still_denied_line(self.origin()))
            } else {
                (
                    RunView { phase: Phase::Asking, ..self },
                    StepView {
                        line: Some(denied_line(self.origin())),
                        action: ActionView::Prompt { question: prompt_line() },
                    },
                )
            },
            Attempt::NotFound => if self.phase == Phase::Retrying {
                self.settle(RenameOutcome::Skipped, still_denied_line(self.origin()))
            } else {
                self.settle(RenameOutcome::NotFound, not_found_line(self.origin()))
            },
            Attempt::Failed => if self.phase == Phase::Retrying {
                self.settle(RenameOutcome::Skipped, still_denied_line(self.origin()))
            } else {
                self.give_up(Exit::Failed)
            },
        }
    }

    /// The run after the operator pressed `key`.
    pub open spec fn keyed(self, key: u8) -> (RunView, StepView) {
        match directive_of(key) {
            None => (self, StepView { line: Some(bad_key_line()), action: ActionView::ReadKey }),
            Some(Directive::Retry) => {
                let next = RunView { phase: Phase::Retrying, ..self };
                (next, StepView { line: None, action: next.pending() })
            },
            Some(Directive::Continue) => self.settle(
                RenameOutcome::Skipped,
                skipping_line(self.origin()),
            ),
            Some(Directive::Abort) => self.give_up(Exit::Aborted),
        }
    }

    /// The run after it heard how the undoing of one rename went.
    pub open spec fn reverted_one(self, exit: Exit, done: bool) -> (RunView, StepView) {
        let undone = self.reversal();
        if !done {
            let next = RunView { phase: Phase::Done(Exit::Stuck), ..self };
            (next, StepView { line: None, action: next.last_action(Exit::Stuck) })
        } else if self.reverted + 1 < self.journal.len() {
            let next = RunView { reverted: self.reverted + 1, ..self };
            (next, StepView { line: Some(result_line(undone.0, undone.1)), action: next.pending() })
        } else {
            let next = RunView { reverted: self.reverted + 1, phase: Phase::Done(exit), ..self };
            (
                next,
                StepView {
                    line: Some(result_line(undone.0, undone.1)),
                    action: next.last_action(exit),
                },
            )
        }
    }

    /// One step of a run: the run and the answer after `event`. An event that
    /// the run is not waiting for changes nothing, and the answer asks again
    /// for what the run is waiting for.
    pub open spec fn next(self, event: Event) -> (RunView, StepView) {
        match (self.phase, event) {
            (Phase::Probing, Event::Probed(taken)) => self.probed(taken),
            (Phase::Renaming, Event::Attempted(attempt)) => self.attempted(attempt),
            (Phase::Retrying, Event::Attempted(attempt)) => self.attempted(attempt),
            (Phase::Asking, Event::Key(key)) => self.keyed(key),
            (Phase::Reverting(exit), Event::Reverted(done)) => self.reverted_one(exit, done),
            _ => (self, StepView { line: None, action: self.pending() }),
        }
    }

    /// A run before its first step, and the answer that opens it.
    pub open spec fn begin(entries: Seq<(Seq<char>, Seq<char>)>, token: Seq<char>) -> (
        RunView,
        StepView,
    ) {
        RunView {
            entries,
            token,
            journal: Seq::empty(),
            outcomes: Seq::empty(),
            renamed: 0,
            reverted: 0,
            target: Seq::empty(),
            phase: Phase::Done(Exit::Finished),
        }.enter(Some(starting_line()))
    }

    /// A run over `mapping`, each entry an origin with the name wanted for
    /// it, before its first step, and the answer that opens it. Every name is
    /// anchored in the directory of its origin first; where an entry gives no
    /// destination there is no run.
    pub open spec fn started(mapping: Seq<(Seq<char>, Seq<char>)>, token: Seq<char>) -> Result<
        (RunView, StepView),
        BadEntry,
    > {
        match anchored_entries(mapping, mapping.len()) {
            Ok(entries) => Ok(RunView::begin(entries, token)),
            Err(bad) => Err(bad),
        }
    }

    /// The run after a series of events, each answered by one step.
    pub open spec fn after(self, events: Seq<Event>) -> RunView
        decreases events.len(),
    {
        if events.len() == 0 {
            self
        } else {
            self.next(events[0]).0.after(events.drop_first())
        }
    }
}

/// A run of the executor over one mapping.
pub struct RenameRun {
    entries: Vec<(String, String)>,
    token: String,
    journal: Journal,
    outcomes: Vec<RenameOutcome>,
    renamed: usize,
    reverted: usize,
    target: String,
    phase: Phase,
}

impl View for RenameRun {
    type V = RunView;

    closed spec fn view(&self) -> RunView {
        RunView {
            entries: self.entries.deep_view(),
            token: self.token@,
            journal: self.journal@,
            outcomes: self.outcomes@,
            renamed: self.renamed as nat,
            reverted: self.reverted as nat,
            target: self.target@,
            phase: self.phase,
        }
    }
}

/// One more outcome adds one to the successes where it is a success, and
/// nothing where it is not.
pub proof fn lemma_successes_push(outcomes: Seq<RenameOutcome>, outcome: RenameOutcome)
    ensures
        successes(outcomes.push(outcome)) == successes(outcomes) + if outcome
            == RenameOutcome::Success {
            1nat
        } else {
            0nat
        },
{
    assert(outcomes.push(outcome).drop_last() =~= outcomes);
}

/// There are no more successes than outcomes.
pub proof fn lemma_successes_bounded(outcomes: Seq<RenameOutcome>)
    ensures
        successes(outcomes) <= outcomes.len(),
    decreases outcomes.len(),
{
    if outcomes.len() > 0 {
        lemma_successes_bounded(outcomes.drop_last());
    }
}

/// A step keeps a run well formed: whatever the event, the journal still has
/// one entry for each success, no more and no less.
pub proof fn lemma_next_keeps_wf(run: RunView, event: Event)
    requires
        run.wf(),
    ensures
        run.next(event).0.wf(),
        run.next(event).0.journal.len() == successes(run.next(event).0.outcomes),
{
    lemma_successes_push(run.outcomes, RenameOutcome::Success);
    lemma_successes_push(run.outcomes, RenameOutcome::NotFound);
    lemma_successes_push(run.outcomes, RenameOutcome::Skipped);
    lemma_successes_push(run.outcomes, RenameOutcome::Fatal);
}

/// A run is well formed when it begins.
pub proof fn lemma_begin_wf(entries: Seq<(Seq<char>, Seq<char>)>, token: Seq<char>)
    ensures
        RunView::begin(entries, token).0.wf(),
{
}

/// Journal consistency. After any series of events, the journal of a run holds
/// as many entries as the run has counted renames, and as many as there are
/// successes among the outcomes: never more, never less.
pub proof fn lemma_journal_matches_successes(run: RunView, events: Seq<Event>)
    requires
        run.wf(),
    ensures
        run.after(events).wf(),
        run.after(events).journal.len() == successes(run.after(events).outcomes),
        run.after(events).journal.len() == run.after(events).renamed,
    decreases events.len(),
{
    if events.len() > 0 {
        lemma_next_keeps_wf(run, events[0]);
        lemma_journal_matches_successes(run.next(events[0]).0, events.drop_first());
    }
}

/// The journal gets an entry only for a rename that succeeded: a step leaves
/// it as it was, unless the event says that the rename in hand was made, and
/// then the one new entry is that rename.
pub proof fn lemma_journal_records_only_successes(run: RunView, event: Event)
    requires
        run.wf(),
    ensures
        run.next(event).0.journal == run.journal || {
            &&& event == Event::Attempted(Attempt::Renamed)
            &&& (run.phase == Phase::Renaming || run.phase == Phase::Retrying)
            &&& run.next(event).0.journal == run.journal.push((run.target, run.origin()))
        },
{
}

/// Once an entry gives no destination, more entries do not mend the mapping.
pub proof fn lemma_anchoring_stays_failed(
    mapping: Seq<(Seq<char>, Seq<char>)>,
    failed: nat,
    upto: nat,
)
    requires
        failed <= upto,
        anchored_entries(mapping, failed) is Err,
    ensures
        anchored_entries(mapping, upto) == anchored_entries(mapping, failed),
    decreases upto,
{
    if failed < upto {
        lemma_anchoring_stays_failed(mapping, failed, (upto - 1) as nat);
    }
}

/// Anchoring keeps the count of the entries.
pub proof fn lemma_anchoring_keeps_count(mapping: Seq<(Seq<char>, Seq<char>)>, upto: nat)
    requires
        anchored_entries(mapping, upto) is Ok,
    ensures
        anchored_entries(mapping, upto)->Ok_0.len() == upto,
    decreases upto,
{
    if upto > 0 {
        lemma_anchoring_keeps_count(mapping, (upto - 1) as nat);
    }
}

/// The entries of a run are those of its mapping, each with its name
/// anchored.
pub proof fn lemma_entries_are_anchored(mapping: Seq<(Seq<char>, Seq<char>)>, upto: nat, at: int)
    requires
        upto <= mapping.len(),
        anchored_entries(mapping, upto) is Ok,
        0 <= at < upto,
    ensures
        anchored_entries(mapping, upto)->Ok_0.len() == upto,
        anchored_entries(mapping, upto)->Ok_0[at].0 == mapping[at].0,
        anchored(mapping[at].0, mapping[at].1) == Ok::<Seq<char>, NameError>(
            anchored_entries(mapping, upto)->Ok_0[at].1,
        ),
    decreases upto,
{
    lemma_anchoring_keeps_count(mapping, (upto - 1) as nat);
    if at < upto - 1 {
        lemma_entries_are_anchored(mapping, (upto - 1) as nat, at);
    }
}

/// A rename goes where the resolver says. For a run over `mapping` that waits
/// to hear whether the destination of the entry in hand is taken, the answer
/// asks to rename the origin of that entry to the path that `resolved` gives
/// for the entry: the wanted name in the directory of the origin where it is
/// free, the stand-in for it where it is taken. Where `resolved` gives no
/// path, nothing is renamed and the run ends.
pub proof fn lemma_rename_goes_where_resolved(
    mapping: Seq<(Seq<char>, Seq<char>)>,
    run: RunView,
    taken: bool,
)
    requires
        run.wf(),
        run.phase == Phase::Probing,
        anchored_entries(mapping, mapping.len()) == Ok::<Seq<(Seq<char>, Seq<char>)>, BadEntry>(
            run.entries,
        ),
    ensures
        match resolved(
            mapping[run.outcomes.len() as int].0,
            mapping[run.outcomes.len() as int].1,
            taken,
            run.token,
        ) {
            Ok(path) => run.next(Event::Probed(taken)).1.action == (ActionView::Rename {
                from: mapping[run.outcomes.len() as int].0,
                to: path,
            }),
            Err(_) => !(run.next(Event::Probed(taken)).1.action is Rename) && (run.next(
                Event::Probed(taken),
            ).0.phase is Reverting || run.next(Event::Probed(taken)).0.phase is Done),
        },
{
    lemma_anchoring_keeps_count(mapping, mapping.len());
    lemma_entries_are_anchored(mapping, mapping.len(), run.outcomes.len() as int);
}

/// The undoing follows the reversal plan of the journal: while a run undoes
/// its journal, the rename it asks for is the one that the plan holds at the
/// place of the renames undone so far, and a rename that was undone moves
/// that place on by one. Where the run is over after undoing, the whole plan
/// was gone through.
pub proof fn lemma_undoing_follows_plan(run: RunView, exit: Exit, done: bool)
    requires
        run.wf(),
        run.phase == Phase::Reverting(exit),
    ensures
        run.pending() == (ActionView::Revert {
            from: reversal_plan(run.journal)[run.reverted as int].0,
            to: reversal_plan(run.journal)[run.reverted as int].1,
        }),
        done ==> run.next(Event::Reverted(done)).0.reverted == run.reverted + 1,
        !done ==> run.next(Event::Reverted(done)).0.phase == Phase::Done(Exit::Stuck),
        run.next(Event::Reverted(done)).0.phase == Phase::Done(exit)
            ==> run.next(Event::Reverted(done)).0.reverted == run.journal.len(),
{
}

/// Nothing happens in silence: a step that gives an entry its outcome has a
/// line to show, and it gives one entry its outcome at most.
pub proof fn lemma_every_outcome_is_shown(run: RunView, event: Event)
    requires
        run.wf(),
    ensures
        run.next(event).0.outcomes == run.outcomes || {
            &&& run.next(event).0.outcomes.len() == run.outcomes.len() + 1
            &&& run.next(event).0.outcomes.drop_last() == run.outcomes
            &&& run.next(event).1.line is Some
        },
{
    assert(run.outcomes.push(RenameOutcome::Success).drop_last() =~= run.outcomes);
    assert(run.outcomes.push(RenameOutcome::NotFound).drop_last() =~= run.outcomes);
    assert(run.outcomes.push(RenameOutcome::Skipped).drop_last() =~= run.outcomes);
    assert(run.outcomes.push(RenameOutcome::Fatal).drop_last() =~= run.outcomes);
}

/// Once a run undoes its journal or is over, no entry of the mapping is seen
/// to any more: the outcomes and the journal stay as they are.
pub proof fn lemma_nothing_after_the_end(run: RunView, event: Event)
    requires
        run.wf(),
        run.phase is Reverting || run.phase is Done,
    ensures
        run.next(event).0.outcomes == run.outcomes,
        run.next(event).0.journal == run.journal,
        run.next(event).0.phase is Reverting || run.next(event).0.phase is Done,
{
}

impl RenameRun {
    /// Begins a run over `mapping`, each entry an origin with the name wanted
    /// for it, that tells the stand-in for a taken destination apart by
    /// `token`. Every name is anchored in the directory of its origin before
    /// anything is renamed; the first entry that gives no destination is
    /// reported, and then there is no run. The answer holds the first thing
    /// to do.
    pub fn start(mapping: &Vec<(String, String)>, token: &str) -> (begun: Result<
        (RenameRun, Step),
        BadEntry,
    >)
        ensures
            match begun {
                Ok(pair) => {
                    &&& pair.0@.wf()
                    &&& RunView::started(mapping.deep_view(), token@) == Ok::<
                        (RunView, StepView),
                        BadEntry,
                    >((pair.0@, pair.1@))
                },
                Err(bad) => RunView::started(mapping.deep_view(), token@) == Err::<
                    (RunView, StepView),
                    BadEntry,
                >(bad),
            },
    {
        let mut entries: Vec<(String, String)> = Vec::new();
        let mut i: usize = 0;
        assert(entries.deep_view() =~= Seq::<(Seq<char>, Seq<char>)>::empty());
        while i < mapping.len()
            invariant
                i <= mapping.len(),
                anchored_entries(mapping.deep_view(), i as nat) == Ok::<
                    Seq<(Seq<char>, Seq<char>)>,
                    BadEntry,
                >(entries.deep_view()),
            decreases mapping.len() - i,
        {
            let ghost before = entries.deep_view();
            match construct_new_names(mapping[i].0.as_str(), mapping[i].1.as_str()) {
                Ok(destination) => {
                    entries.push((String::from_str(mapping[i].0.as_str()), destination));
                    assert(entries.deep_view() =~= before.push(
                        (mapping.deep_view()[i as int].0, destination@),
                    ));
                },
                Err(error) => {
                    proof {
                        lemma_anchoring_stays_failed(
                            mapping.deep_view(),
                            (i + 1) as nat,
                            mapping.len() as nat,
                        );
                    }
                    return Err(BadEntry { index: i, error });
                },
            }
            i += 1;
        }
        let ghost anchored = entries.deep_view();
        let mut run = RenameRun {
            entries,
            token: String::from_str(token),
            journal: Journal::new(),
            outcomes: Vec::new(),
            renamed: 0,
            reverted: 0,
            target: String::new(),
            phase: Phase::Done(Exit::Finished),
        };
        proof {
            lemma_begin_wf(anchored, token@);
            assert(run@ =~= RunView {
                entries: anchored,
                token: token@,
                journal: Seq::empty(),
                outcomes: Seq::empty(),
                renamed: 0,
                reverted: 0,
                target: Seq::empty(),
                phase: Phase::Done(Exit::Finished),
            });
        }
        let line = String::from_str("Renaming files...");
        let answer = run.enter(Some(line));
        Ok((run, answer))
    }

    /// Where the run stands.
    pub fn phase(&self) -> (phase: Phase)
        ensures
            phase == self@.phase,
    {
        self.phase
    }

    /// How many files were renamed.
    pub fn renamed(&self) -> (count: usize)
        ensures
            count == self@.renamed,
    {
        self.renamed
    }

    /// The journal of the run.
    pub fn journal(&self) -> (journal: &Journal)
        ensures
            journal@ == self@.journal,
    {
        &self.journal
    }

    /// What came of the entries seen to so far, in the order of the mapping.
    pub fn outcomes(&self) -> (outcomes: &Vec<RenameOutcome>)
        ensures
            outcomes@ == self@.outcomes,
    {
        &self.outcomes
    }

    /// The action that renames the entry in hand.
    fn rename_action(&self) -> (action: Action)
        requires
            self@.outcomes.len() < self@.entries.len(),
        ensures
            action@ == (ActionView::Rename { from: self@.origin(), to: self@.target }),
    {
        Action::Rename {
            from: String::from_str(self.entries[self.outcomes.len()].0.as_str()),
            to: String::from_str(self.target.as_str()),
        }
    }

    /// The action that undoes the next rename of the journal.
    fn revert_action(&self) -> (action: Action)
        requires
            self@.reverted < self@.journal.len(),
        ensures
            action@ == (ActionView::Revert {
                from: self@.reversal().0,
                to: self@.reversal().1,
            }),
    {
        let index = self.journal.len() - 1 - self.reverted;
        Action::Revert {
            from: String::from_str(self.journal.destination(index)),
            to: String::from_str(self.journal.origin(index)),
        }
    }

    /// The action that ends the run.
    fn last_action(&self, exit: Exit) -> (action: Action)
        requires
            exit == Exit::Failed ==> 0 < self@.outcomes.len() <= self@.entries.len(),
            exit == Exit::Stuck ==> self@.reverted < self@.journal.len(),
        ensures
            action@ == self@.last_action(exit),
    {
        match exit {
            Exit::Finished => Action::Finish { summary: display_summary(self.renamed) },
            Exit::Aborted => Action::Abort,
            Exit::Failed => Action::Fatal {
                diagnostic: display_fatal(self.entries[self.outcomes.len() - 1].0.as_str()),
            },
            Exit::Stuck => Action::Fatal {
                diagnostic: display_fatal(
                    self.journal.destination(self.journal.len() - 1 - self.reverted),
                ),
            },
        }
    }

    /// The action that the run is waiting to hear of.
    fn pending(&self) -> (action: Action)
        requires
            self@.wf(),
        ensures
            action@ == self@.pending(),
    {
        match self.phase {
            Phase::Probing => Action::Probe { path: String::from_str(self.target.as_str()) },
            Phase::Renaming => self.rename_action(),
            Phase::Retrying => self.rename_action(),
            Phase::Asking => Action::ReadKey,
            Phase::Reverting(_) => self.revert_action(),
            Phase::Done(exit) => self.last_action(exit),
        }
    }

    /// Turns to the next entry of the mapping, or ends the run where none is
    /// left.
    fn enter(&mut self, line: Option<String>) -> (answer: Step)
        requires
            old(self)@.outcomes.len() <= old(self)@.entries.len(),
        ensures
            final(self)@ == old(self)@.enter(line.deep_view()).0,
            answer@ == old(self)@.enter(line.deep_view()).1,
    {
        if self.outcomes.len() >= self.entries.len() {
            self.phase = Phase::Done(Exit::Finished);
            let action = self.last_action(Exit::Finished);
            assert(self@ =~= old(self)@.enter(line.deep_view()).0);
            Step { line, action }
        } else {
            let destination = String::from_str(self.entries[self.outcomes.len()].1.as_str());
            let path = String::from_str(destination.as_str());
            self.target = destination;
            self.phase = Phase::Probing;
            let answer = Step { line, action: Action::Probe { path } };
            assert(self@ =~= old(self)@.enter(line.deep_view()).0);
            assert(answer@ =~= old(self)@.enter(line.deep_view()).1);
            answer
        }
    }

    /// Gives the entry in hand its outcome and turns to the next.
    fn settle(&mut self, outcome: RenameOutcome, line: String) -> (answer: Step)
        requires
            old(self)@.outcomes.len() < old(self)@.entries.len(),
        ensures
            final(self)@ == old(self)@.settle(outcome, line@).0,
            answer@ == old(self)@.settle(outcome, line@).1,
    {
        self.outcomes.push(outcome);
        assert(self@ =~= RunView { outcomes: old(self)@.outcomes.push(outcome), ..old(self)@ });
        self.enter(Some(line))
    }

    /// Records the rename of the entry in hand and turns to the next.
    fn succeed(&mut self) -> (answer: Step)
        requires
            old(self)@.wf(),
            old(self)@.outcomes.len() < old(self)@.entries.len(),
        ensures
            final(self)@ == old(self)@.succeed().0,
            answer@ == old(self)@.succeed().1,
    {
        proof {
            lemma_successes_bounded(self@.outcomes);
            assert(self@.entries.len() == self.entries.len());
            assert(self.renamed < self.entries.len());
        }
        let line = display_result(
            self.entries[self.outcomes.len()].0.as_str(),
            self.target.as_str(),
        );
        self.journal.record(self.target.as_str(), self.entries[self.outcomes.len()].0.as_str());
        self.renamed = self.renamed + 1;
        assert(self@ =~= RunView {
            journal: old(self)@.journal.push((old(self)@.target, old(self)@.origin())),
            renamed: old(self)@.renamed + 1,
            ..old(self)@
        });
        self.settle(RenameOutcome::Success, line)
    }

    /// Ends the run on the entry in hand: the journal is undone first.
    fn give_up(&mut self, exit: Exit) -> (answer: Step)
        requires
            old(self)@.outcomes.len() < old(self)@.entries.len(),
            old(self)@.reverted == 0,
            exit == Exit::Aborted || exit == Exit::Failed,
        ensures
            final(self)@ == old(self)@.give_up(exit).0,
            answer@ == old(self)@.give_up(exit).1,
    {
        self.outcomes.push(RenameOutcome::Fatal);
        let line = String::from_str("Rolling back!");
        if self.journal.len() == 0 {
            self.phase = Phase::Done(exit);
            let action = self.last_action(exit);
            let answer = Step { line: Some(line), action };
            assert(self@ =~= old(self)@.give_up(exit).0);
            assert(answer@ =~= old(self)@.give_up(exit).1);
            answer
        } else {
            self.phase = Phase::Reverting(exit);
            let action = self.revert_action();
            let answer = Step { line: Some(line), action };
            assert(self@ =~= old(self)@.give_up(exit).0);
            assert(answer@ =~= old(self)@.give_up(exit).1);
            answer
        }
    }

    /// Hears whether the destination is taken.
    fn on_probed(&mut self, taken: bool) -> (answer: Step)
        requires
            old(self)@.wf(),
            old(self)@.phase == Phase::Probing,
        ensures
            final(self)@ == old(self)@.probed(taken).0,
            answer@ == old(self)@.probed(taken).1,
    {
        match check_new_names_with(self.target.as_str(), taken, self.token.as_str()) {
            Ok(path) => {
                self.target = path;
                self.phase = Phase::Renaming;
                let action = self.rename_action();
                let answer = Step { line: None, action };
                assert(self@ =~= old(self)@.probed(taken).0);
                assert(answer@ =~= old(self)@.probed(taken).1);
                answer
            },
            Err(_) => self.give_up(Exit::Failed),
        }
    }

    /// Hears how the rename went.
    fn on_attempted(&mut self, attempt: Attempt) -> (answer: Step)
        requires
            old(self)@.wf(),
            old(self)@.phase == Phase::Renaming || old(self)@.phase == Phase::Retrying,
        ensures
            final(self)@ == old(self)@.attempted(attempt).0,
            answer@ == old(self)@.attempted(attempt).1,
    {
        let again = match self.phase {
            Phase::Retrying => true,
            _ => false,
        };
        match attempt {
            Attempt::Renamed => self.succeed(),
            _ => {
                if again {
                    let line = display_still_denied(self.entries[self.outcomes.len()].0.as_str());
                    self.settle(RenameOutcome::Skipped, line)
                } else {
                    match attempt {
                        Attempt::PermissionDenied => {
                            let line = display_denied(self.entries[self.outcomes.len()].0.as_str());
                            self.phase = Phase::Asking;
                            let question = String::from_str(
                                "What would you like to do: [r]etry/[c]ontinue/[a]bort? ",
                            );
                            let answer = Step {
                                line: Some(line),
                                action: Action::Prompt { question },
                            };
                            assert(self@ =~= old(self)@.attempted(attempt).0);
                            assert(answer@ =~= old(self)@.attempted(attempt).1);
                            answer
                        },
                        Attempt::NotFound => {
                            let line = display_not_found(
                                self.entries[self.outcomes.len()].0.as_str(),
                            );
                            self.settle(RenameOutcome::NotFound, line)
                        },
                        _ => self.give_up(Exit::Failed),
                    }
                }
            },
        }
    }

    /// Hears the key that the operator pressed.
    fn on_key(&mut self, key: u8) -> (answer: Step)
        requires
            old(self)@.wf(),
            old(self)@.phase == Phase::Asking,
        ensures
            final(self)@ == old(self)@.keyed(key).0,
            answer@ == old(self)@.keyed(key).1,
    {
        match get_user_input(key) {
            None => {
                let line = String::from_str("Incorrect input! Please, try again...");
                let answer = Step { line: Some(line), action: Action::ReadKey };
                assert(answer@ =~= old(self)@.keyed(key).1);
                answer
            },
            Some(Directive::Retry) => {
                self.phase = Phase::Retrying;
                let action = self.rename_action();
                let answer = Step { line: None, action };
                assert(self@ =~= old(self)@.keyed(key).0);
                assert(answer@ =~= old(self)@.keyed(key).1);
                answer
            },
            Some(Directive::Continue) => {
                let line = display_skipping(self.entries[self.outcomes.len()].0.as_str());
                self.settle(RenameOutcome::Skipped, line)
            },
            Some(Directive::Abort) => self.give_up(Exit::Aborted),
        }
    }

    /// Hears how the undoing of one rename went.
    fn on_reverted(&mut self, exit: Exit, done: bool) -> (answer: Step)
        requires
            old(self)@.wf(),
            old(self)@.phase == Phase::Reverting(exit),
        ensures
            final(self)@ == old(self)@.reverted_one(exit, done).0,
            answer@ == old(self)@.reverted_one(exit, done).1,
    {
        let index = self.journal.len() - 1 - self.reverted;
        if !done {
            self.phase = Phase::Done(Exit::Stuck);
            let action = self.last_action(Exit::Stuck);
            let answer = Step { line: None, action };
            assert(self@ =~= old(self)@.reverted_one(exit, done).0);
            assert(answer@ =~= old(self)@.reverted_one(exit, done).1);
            answer
        } else {
            let line = display_result(
                self.journal.destination(index),
                self.journal.origin(index),
            );
            self.reverted = self.reverted + 1;
            if self.reverted < self.journal.len() {
                let action = self.revert_action();
                let answer = Step { line: Some(line), action };
                assert(self@ =~= old(self)@.reverted_one(exit, done).0);
                assert(answer@ =~= old(self)@.reverted_one(exit, done).1);
                answer
            } else {
                self.phase = Phase::Done(exit);
                let action = self.last_action(exit);
                let answer = Step { line: Some(line), action };
                assert(self@ =~= old(self)@.reverted_one(exit, done).0);
                assert(answer@ =~= old(self)@.reverted_one(exit, done).1);
                answer
            }
        }
    }

    /// One step of the run: takes what the caller found out and answers with
    /// a line to show and the next thing to do. An event that the run is not
    /// waiting for changes nothing, and the answer asks again for what the run
    /// is waiting for.
    pub fn step(&mut self, event: Event) -> (answer: Step)
        requires
            old(self)@.wf(),
        ensures
            final(self)@.wf(),
            final(self)@ == old(self)@.next(event).0,
            answer@ == old(self)@.next(event).1,
    {
        proof {
            lemma_next_keeps_wf(self@, event);
        }
        match (self.phase, event) {
            (Phase::Probing, Event::Probed(taken)) => self.on_probed(taken),
            (Phase::Renaming, Event::Attempted(attempt)) => self.on_attempted(attempt),
            (Phase::Retrying, Event::Attempted(attempt)) => self.on_attempted(attempt),
            (Phase::Asking, Event::Key(key)) => self.on_key(key),
            (Phase::Reverting(exit), Event::Reverted(done)) => self.on_reverted(exit, done),
            _ => {
                let action = self.pending();
                let answer = Step { line: None, action };
                assert(answer@ =~= old(self)@.next(event).1);
                answer
            },
        }
    }
}

/// Begins a run over `filenames`, each entry an origin with the name wanted
/// for it, with the token `_renamerdup` for the stand-in of a taken
/// destination.
pub fn rename_files(filenames: &Vec<(String, String)>) -> (begun: Result<
    (RenameRun, Step),
    BadEntry,
>)
    ensures
        match begun {
            Ok(pair) => {
                &&& pair.0@.wf()
                &&& RunView::started(filenames.deep_view(), default_token()) == Ok::<
                    (RunView, StepView),
                    BadEntry,
                >((pair.0@, pair.1@))
            },
            Err(bad) => RunView::started(filenames.deep_view(), default_token()) == Err::<
                (RunView, StepView),
                BadEntry,
            >(bad),
        },
{
    RenameRun::start(filenames, duplicate_token())
}

} // verus!
