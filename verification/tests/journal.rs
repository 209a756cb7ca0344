use renamer::journal::Journal;

fn pairs(list: &[(&str, &str)]) -> Vec<(String, String)> {
    list.iter().map(|p| (String::from(p.0), String::from(p.1))).collect()
}

#[test]
fn new_journal_is_empty() {
    let journal = Journal::new();
    assert_eq!(0, journal.len());
    assert!(journal.entries().is_empty());
    assert!(journal.reverse_all().is_empty());
}

#[test]
fn record_appends() {
    let mut journal = Journal::new();
    journal.record("b.fastq.gz", "a.fastq.gz");
    assert_eq!(pairs(&[("b.fastq.gz", "a.fastq.gz")]), journal.entries());
    journal.record("d.gz", "c.gz");
    journal.record("b.fastq.gz", "x.gz");
    assert_eq!(3, journal.len());
    assert_eq!(
        pairs(&[("b.fastq.gz", "a.fastq.gz"), ("d.gz", "c.gz"), ("b.fastq.gz", "x.gz")]),
        journal.entries()
    );
    assert_eq!("d.gz", journal.destination(1));
    assert_eq!("c.gz", journal.origin(1));
}

#[test]
fn reverse_all_undoes_latest_first() {
    let mut journal = Journal::new();
    journal.record("b", "a");
    journal.record("c", "b");
    journal.record("z", "y");
    assert_eq!(pairs(&[("z", "y"), ("c", "b"), ("b", "a")]), journal.reverse_all());
    assert_eq!(3, journal.len());
}

#[test]
fn reversal_puts_every_file_back() {
    let mut disk: Vec<(String, u32)> = vec![(String::from("a"), 1), (String::from("y"), 2)];
    let before = disk.clone();
    let mut journal = Journal::new();
    for (from, to) in [("a", "b"), ("b", "c"), ("y", "z")] {
        let at = disk.iter().position(|f| f.0 == from).unwrap();
        assert!(disk.iter().all(|f| f.0 != to));
        disk[at].0 = String::from(to);
        journal.record(to, from);
    }
    for (from, to) in journal.reverse_all() {
        let at = disk.iter().position(|f| f.0 == from).unwrap();
        disk[at].0 = to;
    }
    assert_eq!(before, disk);
}
