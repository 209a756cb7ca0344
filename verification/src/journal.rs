//! The record of the renames that were made, kept so that they can be undone,
//! and a model of the disk on which undoing is shown to restore what was there.

use vstd::prelude::*;
use vstd::string::*;

verus! {

/// The renames that succeeded, oldest first, each as the path a file went to
/// and the path it came from. Entries are only ever added.
pub struct Journal {
    entries: Vec<(String, String)>,
}

impl View for Journal {
    type V = Seq<(Seq<char>, Seq<char>)>;

    /// The entries as (destination, origin), oldest first.
    closed spec fn view(&self) -> Seq<(Seq<char>, Seq<char>)> {
        self.entries.deep_view()
    }
}

/// The renames that undo a journal, in the order in which they are made: the
/// latest rename is undone first, and each goes from the destination back to
/// the origin.
pub open spec fn reversal_plan(journal: Seq<(Seq<char>, Seq<char>)>) -> Seq<
    (Seq<char>, Seq<char>),
> {
    Seq::new(journal.len(), |i: int| journal[journal.len() - 1 - i])
}

impl Journal {
    /// A journal without entries.
    pub fn new() -> (journal: Journal)
        ensures
            journal@ == Seq::<(Seq<char>, Seq<char>)>::empty(),
    {
        let journal = Journal { entries: Vec::new() };
        assert(journal@ =~= Seq::<(Seq<char>, Seq<char>)>::empty());
        journal
    }

    /// How many renames are recorded.
    pub fn len(&self) -> (count: usize)
        ensures
            count == self@.len(),
    {
        self.entries.len()
    }

    /// Records that the file at `origin` is now at `destination`. To be called
    /// once the rename has succeeded, never before.
    pub fn record(&mut self, destination: &str, origin: &str)
        ensures
            final(self)@ == old(self)@.push((destination@, origin@)),
    {
        self.entries.push((String::from_str(destination), String::from_str(origin)));
        assert(self@ =~= old(self)@.push((destination@, origin@)));
    }

    /// The destination of entry `index`, counted from the oldest.
    pub fn destination(&self, index: usize) -> (path: &str)
        requires
            index < self@.len(),
        ensures
            path@ == self@[index as int].0,
    {
        self.entries[index].0.as_str()
    }

    /// The origin of entry `index`, counted from the oldest.
    pub fn origin(&self, index: usize) -> (path: &str)
        requires
            index < self@.len(),
        ensures
            path@ == self@[index as int].1,
    {
        self.entries[index].1.as_str()
    }

    /// The entries as pairs of destination and origin, oldest first.
    pub fn entries(&self) -> (listed: Vec<(String, String)>)
        ensures
            listed.deep_view() == self@,
    {
        let mut listed: Vec<(String, String)> = Vec::new();
        let mut i: usize = 0;
        while i < self.entries.len()
            invariant
                i <= self.entries.len(),
                listed.len() == i,
                self@.len() == self.entries.len(),
                listed.deep_view() == self@.subrange(0, i as int),
            decreases self.entries.len() - i,
        {
            let destination = String::from_str(self.entries[i].0.as_str());
            let origin = String::from_str(self.entries[i].1.as_str());
            let ghost before = listed.deep_view();
            listed.push((destination, origin));
            i += 1;
            assert forall|j: int| 0 <= j < i implies listed.deep_view()[j] == self@[j] by {
                if j < i - 1 {
                    assert(before[j] == self@.subrange(0, i - 1)[j]);
                }
            }
            assert(listed.deep_view() =~= self@.subrange(0, i as int));
        }
        assert(self@.subrange(0, self@.len() as int) =~= self@);
        listed
    }

    /// The renames that undo the journal, each as the path to rename from and
    /// the path to rename to, in the order in which to make them: the latest
    /// rename is undone first.
    pub fn reverse_all(&self) -> (plan: Vec<(String, String)>)
        ensures
            plan.deep_view() == reversal_plan(self@),
    {
        let total = self.entries.len();
        let mut plan: Vec<(String, String)> = Vec::new();
        let mut i: usize = 0;
        while i < total
            invariant
                total == self.entries.len(),
                i <= total,
                plan.len() == i,
                self@.len() == total,
                plan.deep_view() == reversal_plan(self@).subrange(0, i as int),
            decreases total - i,
        {
            let from = String::from_str(self.entries[total - 1 - i].0.as_str());
            let to = String::from_str(self.entries[total - 1 - i].1.as_str());
            let ghost before = plan.deep_view();
            plan.push((from, to));
            i += 1;
            assert forall|j: int| 0 <= j < i implies plan.deep_view()[j] == reversal_plan(
                self@,
            )[j] by {
                if j < i - 1 {
                    assert(before[j] == reversal_plan(self@).subrange(0, i - 1)[j]);
                }
            }
            assert(plan.deep_view() =~= reversal_plan(self@).subrange(0, i as int));
        }
        assert(reversal_plan(self@).subrange(0, total as int) =~= reversal_plan(self@));
        plan
    }
}

/// The files on a disk: each path that names a file, with a number that tells
/// the file apart from every other.
pub type Disk = Map<Seq<char>, int>;

/// The disk after the file at `from` was renamed to `to`. A file that was at
/// `to` before is gone.
pub open spec fn after_rename(disk: Disk, from: Seq<char>, to: Seq<char>) -> Disk {
    disk.remove(from).insert(to, disk[from])
}

/// The disk after the renames of a journal were made on it, oldest first.
pub open spec fn after_renames(disk: Disk, journal: Seq<(Seq<char>, Seq<char>)>) -> Disk
    decreases journal.len(),
{
    if journal.len() == 0 {
        disk
    } else {
        let last = journal.last();
        after_rename(after_renames(disk, journal.drop_last()), last.1, last.0)
    }
}

/// Whether every rename of a journal, made on `disk` oldest first, found its
/// file and put it where no other file was.
pub open spec fn renames_clean(disk: Disk, journal: Seq<(Seq<char>, Seq<char>)>) -> bool
    decreases journal.len(),
{
    journal.len() == 0 || {
        let last = journal.last();
        let before = after_renames(disk, journal.drop_last());
        &&& renames_clean(disk, journal.drop_last())
        &&& before.dom().contains(last.1)
        &&& (last.0 == last.1 || !before.dom().contains(last.0))
    }
}

/// The disk after the renames of `plan` were made on it, first to last, each
/// from the first path of the pair to the second.
pub open spec fn after_plan(disk: Disk, plan: Seq<(Seq<char>, Seq<char>)>) -> Disk
    decreases plan.len(),
{
    if plan.len() == 0 {
        disk
    } else {
        after_plan(after_rename(disk, plan[0].0, plan[0].1), plan.drop_first())
    }
}

/// Whether every rename of `plan`, made on `disk` first to last, finds its
/// file.
pub open spec fn plan_succeeds(disk: Disk, plan: Seq<(Seq<char>, Seq<char>)>) -> bool
    decreases plan.len(),
{
    plan.len() == 0 || {
        &&& disk.dom().contains(plan[0].0)
        &&& plan_succeeds(after_rename(disk, plan[0].0, plan[0].1), plan.drop_first())
    }
}

/// Undoing restores the disk. Where every recorded rename found its file and
/// overwrote no other, each rename of the reversal plan finds its file, and
/// after the last of them the disk is as it was before the first recorded
/// rename: every renamed file is back at its origin and none is missing.
pub proof fn lemma_reversal_restores_disk(disk: Disk, journal: Seq<(Seq<char>, Seq<char>)>)
    requires
        renames_clean(disk, journal),
    ensures
        plan_succeeds(after_renames(disk, journal), reversal_plan(journal)),
        after_plan(after_renames(disk, journal), reversal_plan(journal)) == disk,
    decreases journal.len(),
{
    if journal.len() > 0 {
        let last = journal.last();
        let earlier = journal.drop_last();
        let before = after_renames(disk, earlier);
        let now = after_renames(disk, journal);
        let plan = reversal_plan(journal);
        lemma_reversal_restores_disk(disk, earlier);
        assert(plan[0] == last);
        assert(plan.drop_first() =~= reversal_plan(earlier));
        assert(now == after_rename(before, last.1, last.0));
        assert(now.dom().contains(last.0));
        assert(after_rename(now, last.0, last.1) =~= before);
    }
}

} // verus!
