//! Per-target ledger of delivery outcomes.

use vstd::prelude::*;

verus! {

/// Counters kept for one target. They only ever grow.
pub struct TargetCounts {
    pub attempts: nat,
    pub successes: nat,
    pub failures: nat,
}

/// What the dispatcher records in the ledger.
#[derive(Clone, Copy, Debug, PartialEq, Eq, Structural)]
pub enum LogEvent {
    /// A delivery attempt that reached the target.
    Delivered,
    /// A delivery attempt that failed.
    FailedAttempt,
    /// The task was given up on because its budget ran out.
    Dropped,
}

/// A counter one step further; it stays at the largest value of `u64`.
pub open spec fn bump(n: nat) -> nat {
    if n < u64::MAX {
        n + 1
    } else {
        n
    }
}

/// Counters of a target that has not been attempted yet.
pub open spec fn no_counts() -> TargetCounts {
    TargetCounts { attempts: 0, successes: 0, failures: 0 }
}

/// The counters after one more event.
pub open spec fn count_event(counts: TargetCounts, event: LogEvent) -> TargetCounts {
    match event {
        LogEvent::Delivered => TargetCounts {
            attempts: bump(counts.attempts),
            successes: bump(counts.successes),
            failures: counts.failures,
        },
        LogEvent::FailedAttempt => TargetCounts {
            attempts: bump(counts.attempts),
            successes: counts.successes,
            failures: counts.failures,
        },
        LogEvent::Dropped => TargetCounts {
            attempts: counts.attempts,
            successes: counts.successes,
            failures: bump(counts.failures),
        },
    }
}

/// The counters of `target` in a ledger; zero for a target without entry.
pub open spec fn counts_of(log: Map<Seq<char>, TargetCounts>, target: Seq<char>) -> TargetCounts {
    if log.contains_key(target) {
        log[target]
    } else {
        no_counts()
    }
}

/// The ledger after one more event for `target`. The target's entry is
/// created by its first event; no other entry changes.
pub open spec fn log_event(
    log: Map<Seq<char>, TargetCounts>,
    target: Seq<char>,
    event: LogEvent,
) -> Map<Seq<char>, TargetCounts> {
    log.insert(target, count_event(counts_of(log, target), event))
}

/// The ledger line of one target.
#[derive(Clone, Debug)]
pub struct TargetLogEntry {
    pub target: String,
    pub attempts: u64,
    pub successes: u64,
    pub failures: u64,
}

impl TargetLogEntry {
    /// The counters of this line.
    pub open spec fn counts(self) -> TargetCounts {
        TargetCounts {
            attempts: self.attempts as nat,
            successes: self.successes as nat,
            failures: self.failures as nat,
        }
    }
}

/// The targets of a sequence of ledger lines, in order.
pub open spec fn entry_targets(entries: Seq<TargetLogEntry>) -> Seq<Seq<char>> {
    Seq::new(entries.len(), |i: int| entries[i].target@)
}

/// The ledger that a sequence of lines with distinct targets stands for.
pub open spec fn entries_map(entries: Seq<TargetLogEntry>) -> Map<Seq<char>, TargetCounts> {
    Map::new(
        |target: Seq<char>| entry_targets(entries).contains(target),
        |target: Seq<char>| entries[entry_targets(entries).index_of(target)].counts(),
    )
}

proof fn lemma_entry_lookup(entries: Seq<TargetLogEntry>, i: int)
    requires
        entry_targets(entries).no_duplicates(),
        0 <= i < entries.len(),
    ensures
        entries_map(entries).contains_key(entries[i].target@),
        entries_map(entries)[entries[i].target@] == entries[i].counts(),
{
    let names = entry_targets(entries);
    assert(names[i] == entries[i].target@);
    let j = names.index_of(entries[i].target@);
    assert(0 <= j < names.len() && names[j] == names[i]);
}

proof fn lemma_entry_absent(entries: Seq<TargetLogEntry>, target: Seq<char>)
    requires
        forall|i: int| 0 <= i < entries.len() ==> (#[trigger] entries[i]).target@ != target,
    ensures
        !entries_map(entries).contains_key(target),
{
    let names = entry_targets(entries);
    if names.contains(target) {
        let j = choose|j: int| 0 <= j < names.len() && names[j] == target;
        assert(entries[j].target@ == target);
    }
}

proof fn lemma_entry_replaced(entries: Seq<TargetLogEntry>, i: int, line: TargetLogEntry)
    requires
        entry_targets(entries).no_duplicates(),
        0 <= i < entries.len(),
        line.target@ == entries[i].target@,
    ensures
        entry_targets(entries.update(i, line)) == entry_targets(entries),
        entries_map(entries.update(i, line)) == entries_map(entries).insert(
            line.target@,
            line.counts(),
        ),
{
    let after = entries.update(i, line);
    let names = entry_targets(entries);
    let expected = entries_map(entries).insert(line.target@, line.counts());
    assert(entry_targets(after) =~= names);
    assert(names[i] == line.target@);
    assert(names.contains(line.target@));
    assert forall|target: Seq<char>| #[trigger] expected.contains_key(target) implies entries_map(
        after,
    ).contains_key(target) && entries_map(after)[target] == expected[target] by {
        let j = names.index_of(target);
        assert(0 <= j < names.len() && names[j] == target);
        if target == line.target@ {
            assert(j == i);
            assert(after[j] == line);
        } else {
            assert(j != i);
            assert(after[j] == entries[j]);
        }
    }
    assert(entries_map(after) =~= expected);
}

proof fn lemma_entry_added(entries: Seq<TargetLogEntry>, line: TargetLogEntry)
    requires
        entry_targets(entries).no_duplicates(),
        forall|i: int| 0 <= i < entries.len() ==> (#[trigger] entries[i]).target@ != line.target@,
    ensures
        entry_targets(entries.push(line)).no_duplicates(),
        entries_map(entries.push(line)) == entries_map(entries).insert(
            line.target@,
            line.counts(),
        ),
{
    let after = entries.push(line);
    let names = entry_targets(entries);
    let names_after = entry_targets(after);
    assert(names_after =~= names.push(line.target@));
    assert forall|a: int, b: int|
        0 <= a < names_after.len() && 0 <= b < names_after.len() && a != b implies names_after[a]
        != names_after[b] by {
        if a < entries.len() {
            assert(entries[a].target@ == names_after[a]);
        }
        if b < entries.len() {
            assert(entries[b].target@ == names_after[b]);
        }
    }
    let expected = entries_map(entries).insert(line.target@, line.counts());
    assert forall|target: Seq<char>| #[trigger] expected.contains_key(target) implies entries_map(
        after,
    ).contains_key(target) && entries_map(after)[target] == expected[target] by {
        if target == line.target@ {
            assert(after[entries.len() as int] == line);
            lemma_entry_lookup(after, entries.len() as int);
        } else {
            let j = names.index_of(target);
            assert(0 <= j < names.len() && names[j] == target);
            assert(after[j] == entries[j]);
            lemma_entry_lookup(after, j);
            lemma_entry_lookup(entries, j);
        }
    }
    assert forall|target: Seq<char>| #[trigger] entries_map(after).contains_key(target) implies
        expected.contains_key(target) by {
        let j = names_after.index_of(target);
        assert(0 <= j < names_after.len() && names_after[j] == target);
        if j < entries.len() {
            assert(names[j] == target);
        }
    }
    assert(entries_map(after) =~= expected);
}

/// Ledger of delivery outcomes, one line per target that was attempted.
/// Lines are created by the first event of their target and never removed.
#[derive(Debug)]
pub struct TargetLog {
    entries: Vec<TargetLogEntry>,
}

impl View for TargetLog {
    type V = Map<Seq<char>, TargetCounts>;

    closed spec fn view(&self) -> Map<Seq<char>, TargetCounts> {
        entries_map(self.entries@)
    }
}

fn step(n: u64) -> (r: u64)
    ensures
        r == bump(n as nat),
{
    if n < u64::MAX {
        n + 1
    } else {
        n
    }
}

impl TargetLogEntry {
    /// The line of a target whose first event is `event`.
    pub fn first(target: String, event: LogEvent) -> (r: Self)
        ensures
            r.target == target,
            r.counts() == count_event(no_counts(), event),
    {
        match event {
            LogEvent::Delivered => TargetLogEntry { target, attempts: 1, successes: 1, failures: 0 },
            LogEvent::FailedAttempt => TargetLogEntry {
                target,
                attempts: 1,
                successes: 0,
                failures: 0,
            },
            LogEvent::Dropped => TargetLogEntry { target, attempts: 0, successes: 0, failures: 1 },
        }
    }

    /// This line after one more event.
    pub fn after(&self, event: LogEvent) -> (r: Self)
        ensures
            r.target@ == self.target@,
            r.counts() == count_event(self.counts(), event),
    {
        let target = self.target.clone();
        match event {
            LogEvent::Delivered => TargetLogEntry {
                target,
                attempts: step(self.attempts),
                successes: step(self.successes),
                failures: self.failures,
            },
            LogEvent::FailedAttempt => TargetLogEntry {
                target,
                attempts: step(self.attempts),
                successes: self.successes,
                failures: self.failures,
            },
            LogEvent::Dropped => TargetLogEntry {
                target,
                attempts: self.attempts,
                successes: self.successes,
                failures: step(self.failures),
            },
        }
    }
}

impl TargetLog {
    /// Well-formedness: no two lines are about the same target.
    pub closed spec fn wf(&self) -> bool {
        entry_targets(self.entries@).no_duplicates()
    }

    /// An empty ledger.
    pub fn new() -> (r: Self)
        ensures
            r.wf(),
            r@ == Map::<Seq<char>, TargetCounts>::empty(),
    {
        let r = TargetLog { entries: Vec::new() };
        assert(r@ =~= Map::<Seq<char>, TargetCounts>::empty());
        r
    }

    fn position(&self, target: &String) -> (r: Option<usize>)
        ensures
            match r {
                Some(i) => i < self.entries@.len() && self.entries@[i as int].target@ == target@,
                None => forall|j: int|
                    0 <= j < self.entries@.len() ==> (#[trigger] self.entries@[j]).target@
                        != target@,
            },
    {
        let mut i: usize = 0;
        while i < self.entries.len()
            invariant
                i <= self.entries@.len(),
                forall|j: int| 0 <= j < i ==> (#[trigger] self.entries@[j]).target@ != target@,
            decreases self.entries@.len() - i,
        {
            if self.entries[i].target == *target {
                return Some(i);
            }
            i = i + 1;
        }
        None
    }

    /// The line of `target`, if the target has one.
    pub fn get(&self, target: &String) -> (r: Option<&TargetLogEntry>)
        requires
            self.wf(),
        ensures
            match r {
                Some(line) => {
                    &&& self@.contains_key(target@)
                    &&& line.target@ == target@
                    &&& line.counts() == self@[target@]
                },
                None => !self@.contains_key(target@),
            },
    {
        match self.position(target) {
            Some(i) => {
                proof {
                    lemma_entry_lookup(self.entries@, i as int);
                }
                Some(&self.entries[i])
            },
            None => {
                proof {
                    lemma_entry_absent(self.entries@, target@);
                }
                None
            },
        }
    }

    /// Counts one event for `target`, creating the target's line if this
    /// is its first event. No other line changes.
    pub fn record(&mut self, target: &String, event: LogEvent)
        requires
            old(self).wf(),
        ensures
            final(self).wf(),
            final(self)@ == log_event(old(self)@, target@, event),
    {
        match self.position(target) {
            Some(i) => {
                let line = self.entries[i].after(event);
                proof {
                    lemma_entry_lookup(self.entries@, i as int);
                    lemma_entry_replaced(self.entries@, i as int, line);
                }
                self.entries.set(i, line);
            },
            None => {
                let line = TargetLogEntry::first(target.clone(), event);
                proof {
                    lemma_entry_absent(self.entries@, target@);
                    lemma_entry_added(self.entries@, line);
                }
                self.entries.push(line);
            },
        }
    }

    /// All lines, for observation. Every target of the ledger has exactly
    /// one line, and every line shows the counters of its target.
    pub fn entries(&self) -> (r: &Vec<TargetLogEntry>)
        requires
            self.wf(),
        ensures
            entry_targets(r@).no_duplicates(),
            self@ == entries_map(r@),
    {
        &self.entries
    }
}

} // verus!
