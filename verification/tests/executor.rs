use renamer::executor::{
    rename_files, Action, Attempt, BadEntry, Event, Exit, Phase, RenameOutcome, RenameRun, Step,
};
use renamer::paths::NameError;

fn mapping(pairs: &[(&str, &str)]) -> Vec<(String, String)> {
    pairs.iter().map(|p| (String::from(p.0), String::from(p.1))).collect()
}

fn begin(pairs: &[(&str, &str)]) -> (RenameRun, Step) {
    rename_files(&mapping(pairs)).unwrap()
}

fn journal_of(run: &RenameRun) -> Vec<(String, String)> {
    run.journal().entries()
}

fn expect_probe(step: &Step, wanted: &str) {
    match &step.action {
        Action::Probe { path } => assert_eq!(wanted, path),
        other => panic!("expected a probe, got {:?}", other),
    }
}

fn expect_rename(step: &Step, origin: &str, target: &str) {
    match &step.action {
        Action::Rename { from, to } => {
            assert_eq!(origin, from);
            assert_eq!(target, to);
        }
        other => panic!("expected a rename, got {:?}", other),
    }
}

fn expect_revert(step: &Step, origin: &str, target: &str) {
    match &step.action {
        Action::Revert { from, to } => {
            assert_eq!(origin, from);
            assert_eq!(target, to);
        }
        other => panic!("expected a reversal, got {:?}", other),
    }
}

fn expect_finish(step: &Step, wanted: &str) {
    match &step.action {
        Action::Finish { summary } => assert_eq!(wanted, summary),
        other => panic!("expected the end, got {:?}", other),
    }
}

fn expect_fatal(step: &Step, wanted: &str) {
    match &step.action {
        Action::Fatal { diagnostic } => assert_eq!(wanted, diagnostic),
        other => panic!("expected a fatal end, got {:?}", other),
    }
}

fn line(step: &Step) -> &str {
    match &step.line {
        Some(line) => line.as_str(),
        None => panic!("expected a line"),
    }
}

#[test]
fn rename_to_free_name_succeeds() {
    let (mut run, first) = begin(&[("a.fastq.gz", "b.fastq.gz")]);
    assert_eq!("Renaming files...", line(&first));
    expect_probe(&first, "b.fastq.gz");

    let second = run.step(Event::Probed(false));
    assert!(second.line.is_none());
    expect_rename(&second, "a.fastq.gz", "b.fastq.gz");

    let third = run.step(Event::Attempted(Attempt::Renamed));
    assert_eq!("\"a.fastq.gz\" \x1b[0;36m => \x1b[0m \"b.fastq.gz\"", line(&third));
    expect_finish(&third, "\nTotal files renamed: 1");

    assert_eq!(mapping(&[("b.fastq.gz", "a.fastq.gz")]), journal_of(&run));
    assert_eq!(1, run.journal().len());
    assert_eq!(1, run.renamed());
    assert_eq!(&vec![RenameOutcome::Success], run.outcomes());
    assert_eq!(Phase::Done(Exit::Finished), run.phase());
}

#[test]
fn rename_to_taken_name_goes_to_stand_in() {
    let (mut run, first) = RenameRun::start(&mapping(&[("a.fastq.gz", "b.fastq.gz")]), "_dup").unwrap();
    expect_probe(&first, "b.fastq.gz");

    let second = run.step(Event::Probed(true));
    expect_rename(&second, "a.fastq.gz", "b_dup.fastq.gz");

    let third = run.step(Event::Attempted(Attempt::Renamed));
    assert_eq!("\"a.fastq.gz\" \x1b[0;36m => \x1b[0m \"b_dup.fastq.gz\"", line(&third));
    assert_eq!(mapping(&[("b_dup.fastq.gz", "a.fastq.gz")]), journal_of(&run));
}

#[test]
fn rename_to_taken_name_with_default_token() {
    let (mut run, _) = begin(&[("a.fastq.gz", "b.fastq.gz")]);
    let second = run.step(Event::Probed(true));
    expect_rename(&second, "a.fastq.gz", "b_renamerdup.fastq.gz");
}

#[test]
fn missing_origin_is_passed_over() {
    let (mut run, _) = begin(&[("gone.gz", "b.gz"), ("c.gz", "d.gz")]);
    run.step(Event::Probed(false));
    let step = run.step(Event::Attempted(Attempt::NotFound));
    assert_eq!("\"gone.gz\" \x1b[0;41mNOT FOUND!\x1b[0m", line(&step));
    expect_probe(&step, "d.gz");
    assert_eq!(&vec![RenameOutcome::NotFound], run.outcomes());
    assert_eq!(0, run.journal().len());
    assert_eq!(Phase::Probing, run.phase());

    run.step(Event::Probed(false));
    let last = run.step(Event::Attempted(Attempt::Renamed));
    expect_finish(&last, "\nTotal files renamed: 1");
    assert_eq!(&vec![RenameOutcome::NotFound, RenameOutcome::Success], run.outcomes());
    assert_eq!(mapping(&[("d.gz", "c.gz")]), journal_of(&run));
    assert_eq!(Phase::Done(Exit::Finished), run.phase());
}

#[test]
fn abort_undoes_the_journal_and_stops() {
    let (mut run, _) = begin(&[
        ("a.gz", "b.gz"),
        ("c.gz", "d.gz"),
        ("e.gz", "f.gz"),
        ("g.gz", "h.gz"),
    ]);
    run.step(Event::Probed(false));
    run.step(Event::Attempted(Attempt::Renamed));
    run.step(Event::Probed(false));
    run.step(Event::Attempted(Attempt::Renamed));
    run.step(Event::Probed(false));

    let denied = run.step(Event::Attempted(Attempt::PermissionDenied));
    assert_eq!("Can't rename \"e.gz\". It may be used by another program.", line(&denied));
    match &denied.action {
        Action::Prompt { question } => {
            assert_eq!("What would you like to do: [r]etry/[c]ontinue/[a]bort? ", question)
        }
        other => panic!("expected a prompt, got {:?}", other),
    }
    assert_eq!(Phase::Asking, run.phase());

    let first = run.step(Event::Key(b'a'));
    assert_eq!("Rolling back!", line(&first));
    expect_revert(&first, "d.gz", "c.gz");
    assert_eq!(Phase::Reverting(Exit::Aborted), run.phase());

    let second = run.step(Event::Reverted(true));
    assert_eq!("\"d.gz\" \x1b[0;36m => \x1b[0m \"c.gz\"", line(&second));
    expect_revert(&second, "b.gz", "a.gz");

    let third = run.step(Event::Reverted(true));
    assert_eq!("\"b.gz\" \x1b[0;36m => \x1b[0m \"a.gz\"", line(&third));
    assert!(matches!(third.action, Action::Abort));
    assert_eq!(Phase::Done(Exit::Aborted), run.phase());

    assert_eq!(
        &vec![RenameOutcome::Success, RenameOutcome::Success, RenameOutcome::Fatal],
        run.outcomes()
    );

    let after = run.step(Event::Probed(false));
    assert!(after.line.is_none());
    assert!(matches!(after.action, Action::Abort));
    assert_eq!(3, run.outcomes().len());
    assert_eq!(2, run.renamed());
}

#[test]
fn abort_with_empty_journal() {
    let (mut run, _) = begin(&[("a.gz", "b.gz"), ("c.gz", "d.gz")]);
    run.step(Event::Probed(false));
    run.step(Event::Attempted(Attempt::PermissionDenied));
    let step = run.step(Event::Key(b'a'));
    assert_eq!("Rolling back!", line(&step));
    assert!(matches!(step.action, Action::Abort));
    assert_eq!(Phase::Done(Exit::Aborted), run.phase());
    assert_eq!(&vec![RenameOutcome::Fatal], run.outcomes());
}

#[test]
fn retry_that_succeeds() {
    let (mut run, _) = begin(&[("a.gz", "b.gz")]);
    run.step(Event::Probed(false));
    run.step(Event::Attempted(Attempt::PermissionDenied));
    let again = run.step(Event::Key(b'r'));
    assert!(again.line.is_none());
    expect_rename(&again, "a.gz", "b.gz");
    assert_eq!(Phase::Retrying, run.phase());
    let done = run.step(Event::Attempted(Attempt::Renamed));
    assert_eq!("\"a.gz\" \x1b[0;36m => \x1b[0m \"b.gz\"", line(&done));
    expect_finish(&done, "\nTotal files renamed: 1");
    assert_eq!(mapping(&[("b.gz", "a.gz")]), journal_of(&run));
}

#[test]
fn retry_that_fails_is_skipped() {
    for attempt in [Attempt::PermissionDenied, Attempt::NotFound, Attempt::Failed] {
        let (mut run, _) = begin(&[("a.gz", "b.gz"), ("c.gz", "d.gz")]);
        run.step(Event::Probed(false));
        run.step(Event::Attempted(Attempt::PermissionDenied));
        run.step(Event::Key(b'r'));
        let step = run.step(Event::Attempted(attempt));
        assert_eq!("Still can't rename \"a.gz\". Skipping it...", line(&step));
        expect_probe(&step, "d.gz");
        assert_eq!(&vec![RenameOutcome::Skipped], run.outcomes());
        assert_eq!(0, run.journal().len());
    }
}

#[test]
fn continue_skips_the_file() {
    let (mut run, _) = begin(&[("a.gz", "b.gz")]);
    run.step(Event::Probed(false));
    run.step(Event::Attempted(Attempt::PermissionDenied));
    let step = run.step(Event::Key(b'c'));
    assert_eq!("Skipping \"a.gz\"", line(&step));
    expect_finish(&step, "\nTotal files renamed: 0");
    assert_eq!(&vec![RenameOutcome::Skipped], run.outcomes());
    assert_eq!(0, run.journal().len());
}

#[test]
fn other_keys_are_asked_again() {
    let (mut run, _) = begin(&[("a.gz", "b.gz")]);
    run.step(Event::Probed(false));
    run.step(Event::Attempted(Attempt::PermissionDenied));
    for key in [b'x', b'\n', b'R', b'A', 0u8, 255u8] {
        let step = run.step(Event::Key(key));
        assert_eq!("Incorrect input! Please, try again...", line(&step));
        assert!(matches!(step.action, Action::ReadKey));
        assert_eq!(Phase::Asking, run.phase());
        assert_eq!(0, run.outcomes().len());
    }
    let step = run.step(Event::Key(b'c'));
    assert_eq!("Skipping \"a.gz\"", line(&step));
}

#[test]
fn unknown_failure_undoes_the_journal_and_is_fatal() {
    let (mut run, _) = begin(&[("a.gz", "b.gz"), ("c.gz", "d.gz"), ("e.gz", "f.gz")]);
    run.step(Event::Probed(false));
    run.step(Event::Attempted(Attempt::Renamed));
    run.step(Event::Probed(false));
    let step = run.step(Event::Attempted(Attempt::Failed));
    assert_eq!("Rolling back!", line(&step));
    expect_revert(&step, "b.gz", "a.gz");
    assert_eq!(Phase::Reverting(Exit::Failed), run.phase());
    let last = run.step(Event::Reverted(true));
    assert_eq!("\"b.gz\" \x1b[0;36m => \x1b[0m \"a.gz\"", line(&last));
    expect_fatal(&last, "CAN'T RENAME THE FILE \"c.gz\"");
    assert_eq!(Phase::Done(Exit::Failed), run.phase());
    assert_eq!(&vec![RenameOutcome::Success, RenameOutcome::Fatal], run.outcomes());
}

#[test]
fn failed_reversal_is_stuck() {
    let (mut run, _) = begin(&[("a.gz", "b.gz"), ("c.gz", "d.gz"), ("e.gz", "f.gz")]);
    run.step(Event::Probed(false));
    run.step(Event::Attempted(Attempt::Renamed));
    run.step(Event::Probed(false));
    run.step(Event::Attempted(Attempt::Renamed));
    run.step(Event::Probed(false));
    run.step(Event::Attempted(Attempt::PermissionDenied));
    run.step(Event::Key(b'a'));
    let step = run.step(Event::Reverted(false));
    assert!(step.line.is_none());
    expect_fatal(&step, "CAN'T RENAME THE FILE \"d.gz\"");
    assert_eq!(Phase::Done(Exit::Stuck), run.phase());
    let again = run.step(Event::Reverted(true));
    expect_fatal(&again, "CAN'T RENAME THE FILE \"d.gz\"");
    assert_eq!(2, run.journal().len());
}

#[test]
fn entry_without_destination_stops_the_start() {
    assert_eq!(
        Some(BadEntry { index: 0, error: NameError::NoExtension }),
        rename_files(&mapping(&[("a", "README")])).err()
    );
    assert_eq!(
        Some(BadEntry { index: 1, error: NameError::NoFileName }),
        rename_files(&mapping(&[("a.gz", "b.gz"), ("x.gz", ".."), ("", "y.gz")])).err()
    );
    assert_eq!(
        Some(BadEntry { index: 2, error: NameError::NoParent }),
        RenameRun::start(&mapping(&[("a.gz", "b.gz"), ("x.gz", "y.gz"), ("", "y.gz")]), "_dup").err()
    );
}

#[test]
fn renames_stay_in_the_directory_of_the_origin() {
    let (mut run, first) = begin(&[
        ("data/a.fastq.gz", "elsewhere/b.fastq.gz"),
        ("data/c.fq.gzip", "/d.fq.gz"),
    ]);
    expect_probe(&first, "data/b.fastq.gz");
    let step = run.step(Event::Probed(true));
    expect_rename(&step, "data/a.fastq.gz", "data/b_renamerdup.fastq.gz");
    let step = run.step(Event::Attempted(Attempt::Renamed));
    expect_probe(&step, "data/d.fq.gzip");
    let step = run.step(Event::Probed(false));
    expect_rename(&step, "data/c.fq.gzip", "data/d.fq.gzip");
    run.step(Event::Attempted(Attempt::Renamed));
    assert_eq!(
        mapping(&[("data/b_renamerdup.fastq.gz", "data/a.fastq.gz"), ("data/d.fq.gzip", "data/c.fq.gzip")]),
        journal_of(&run)
    );
}

#[test]
fn empty_mapping_finishes_at_once() {
    let (mut run, first) = rename_files(&Vec::new()).unwrap();
    assert_eq!("Renaming files...", line(&first));
    expect_finish(&first, "\nTotal files renamed: 0");
    assert_eq!(Phase::Done(Exit::Finished), run.phase());
    let again = run.step(Event::Attempted(Attempt::Renamed));
    assert!(again.line.is_none());
    expect_finish(&again, "\nTotal files renamed: 0");
    assert_eq!(0, run.journal().len());
}

#[test]
fn unexpected_events_change_nothing() {
    let (mut run, _) = begin(&[("a.gz", "b.gz")]);
    let step = run.step(Event::Attempted(Attempt::Renamed));
    assert!(step.line.is_none());
    expect_probe(&step, "b.gz");
    assert_eq!(0, run.journal().len());
    assert_eq!(Phase::Probing, run.phase());

    run.step(Event::Probed(false));
    let step = run.step(Event::Key(b'a'));
    assert!(step.line.is_none());
    expect_rename(&step, "a.gz", "b.gz");
    let step = run.step(Event::Reverted(true));
    expect_rename(&step, "a.gz", "b.gz");
    assert_eq!(Phase::Renaming, run.phase());

    run.step(Event::Attempted(Attempt::PermissionDenied));
    let step = run.step(Event::Probed(true));
    assert!(step.line.is_none());
    assert!(matches!(step.action, Action::ReadKey));
    assert_eq!(Phase::Asking, run.phase());
}

#[test]
fn journal_has_one_entry_per_success() {
    let (mut run, _) = begin(&[
        ("a.gz", "b.gz"),
        ("c.gz", "d.gz"),
        ("e.gz", "f.gz"),
        ("g.gz", "h.gz"),
        ("i.gz", "j.gz"),
    ]);
    let script = [
        Event::Probed(false),
        Event::Attempted(Attempt::Renamed),
        Event::Probed(true),
        Event::Attempted(Attempt::NotFound),
        Event::Probed(false),
        Event::Attempted(Attempt::PermissionDenied),
        Event::Key(b'?'),
        Event::Key(b'c'),
        Event::Probed(true),
        Event::Attempted(Attempt::PermissionDenied),
        Event::Key(b'r'),
        Event::Attempted(Attempt::Renamed),
        Event::Probed(false),
        Event::Attempted(Attempt::Renamed),
    ];
    for event in script {
        run.step(event);
        let successes = run.outcomes().iter().filter(|o| **o == RenameOutcome::Success).count();
        assert_eq!(successes, run.journal().len());
        assert_eq!(successes, run.renamed());
    }
    assert_eq!(Phase::Done(Exit::Finished), run.phase());
    assert_eq!(
        mapping(&[("b.gz", "a.gz"), ("h_renamerdup.gz", "g.gz"), ("j.gz", "i.gz")]),
        journal_of(&run)
    );
    assert_eq!(
        &vec![
            RenameOutcome::Success,
            RenameOutcome::NotFound,
            RenameOutcome::Skipped,
            RenameOutcome::Success,
            RenameOutcome::Success
        ],
        run.outcomes()
    );
}
