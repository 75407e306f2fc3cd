//! Bounded per-service history of check results.
use vstd::prelude::*;

verus! {

/// One recorded probe result.
pub struct Check {
    /// When the check ran, as an RFC 3339 timestamp.
    pub timestamp: String,
    /// Whether the service was up.
    pub status: bool,
}

/// The checks kept for one service, oldest first.
pub struct HistoryEntry {
    pub name: String,
    pub checks: Vec<Check>,
}

/// The history document: for each service name, its capped sequence of checks.
/// Names are kept in the order in which they were first recorded.
pub struct History {
    pub entries: Vec<HistoryEntry>,
}

/// Abstract history: pairs of service name and checks, oldest first.
pub type HistoryModel = Seq<(Seq<char>, Seq<Check>)>;

/// The last `n` elements of `s` (all of `s` when it is shorter).
pub open spec fn keep_last(s: Seq<Check>, n: nat) -> Seq<Check> {
    if s.len() <= n {
        s
    } else {
        s.subrange(s.len() - n, s.len() as int)
    }
}

/// No two entries of the document share a name.
pub open spec fn unique_names(doc: HistoryModel) -> bool {
    forall|i: int, j: int|
        0 <= i < doc.len() && 0 <= j < doc.len() && i != j ==> #[trigger] doc[i].0 != #[trigger] doc[j].0
}

/// The document holds an entry for `name`.
pub open spec fn has_entry(doc: HistoryModel, name: Seq<char>) -> bool {
    exists|i: int| 0 <= i < doc.len() && #[trigger] doc[i].0 == name
}

/// Position of the entry for `name` (meaningful when `has_entry`).
pub open spec fn entry_index(doc: HistoryModel, name: Seq<char>) -> int {
    choose|i: int| 0 <= i < doc.len() && #[trigger] doc[i].0 == name
}

/// The checks recorded for `name`; empty when there are none.
pub open spec fn checks_for(doc: HistoryModel, name: Seq<char>) -> Seq<Check> {
    if has_entry(doc, name) {
        doc[entry_index(doc, name)].1
    } else {
        Seq::empty()
    }
}

/// Append `c` to the checks of `name` (creating the entry at the end if absent),
/// then drop the oldest checks until at most `max` remain.
pub open spec fn record_spec(doc: HistoryModel, name: Seq<char>, c: Check, max: nat) -> HistoryModel {
    if has_entry(doc, name) {
        let i = entry_index(doc, name);
        doc.update(i, (name, keep_last(doc[i].1.push(c), max)))
    } else {
        doc.push((name, keep_last(seq![c], max)))
    }
}

/// Record each of `arrivals` for `name`, in order.
pub open spec fn record_each(doc: HistoryModel, name: Seq<char>, arrivals: Seq<Check>, max: nat) -> HistoryModel
    decreases arrivals.len(),
{
    if arrivals.len() == 0 {
        doc
    } else {
        record_each(record_spec(doc, name, arrivals[0], max), name, arrivals.drop_first(), max)
    }
}

/// Trimming before appending more checks does not change what a later trim keeps.
pub proof fn lemma_keep_last_absorbs(s: Seq<Check>, t: Seq<Check>, n: nat)
    ensures
        keep_last(keep_last(s, n) + t, n) == keep_last(s + t, n),
{
    let a = keep_last(s, n) + t;
    let b = s + t;
    if s.len() > n {
        if a.len() > n {
            assert(keep_last(a, n) =~= keep_last(b, n));
        }
    } else {
        assert(a =~= b);
    }
}

/// Recording for `name` keeps names unique, changes only the checks of `name`, and
/// leaves there the last `max` of its previous checks followed by `c`.
pub proof fn lemma_record_checks(doc: HistoryModel, name: Seq<char>, c: Check, max: nat)
    requires
        unique_names(doc),
    ensures
        unique_names(record_spec(doc, name, c, max)),
        has_entry(record_spec(doc, name, c, max), name),
        checks_for(record_spec(doc, name, c, max), name) == keep_last(checks_for(doc, name).push(c), max),
        forall|other: Seq<char>|
            other != name ==> #[trigger] checks_for(record_spec(doc, name, c, max), other) == checks_for(doc, other),
{
    let d = record_spec(doc, name, c, max);
    if has_entry(doc, name) {
        let i = entry_index(doc, name);
        assert(d[i].0 == name);
        assert forall|a: int, b: int| 0 <= a < d.len() && 0 <= b < d.len() && a != b implies #[trigger] d[a].0 != #[trigger] d[b].0 by {
            assert(doc[a].0 == d[a].0 && doc[b].0 == d[b].0);
        }
        assert(has_entry(d, name));
        let k = entry_index(d, name);
        assert(k == i);
        assert forall|other: Seq<char>| other != name implies #[trigger] checks_for(d, other) == checks_for(doc, other) by {
            if has_entry(doc, other) {
                let j = entry_index(doc, other);
                assert(d[j].0 == other);
                assert(has_entry(d, other));
                assert(entry_index(d, other) == j);
            }
            if has_entry(d, other) {
                let j = entry_index(d, other);
                assert(doc[j].0 == other);
            }
        }
    } else {
        let i = doc.len() as int;
        assert(d[i].0 == name);
        assert forall|a: int, b: int| 0 <= a < d.len() && 0 <= b < d.len() && a != b implies #[trigger] d[a].0 != #[trigger] d[b].0 by {
            if a < i && b < i {
                assert(doc[a].0 == d[a].0 && doc[b].0 == d[b].0);
            } else if a < i {
                assert(doc[a].0 == d[a].0);
            } else {
                assert(doc[b].0 == d[b].0);
            }
        }
        assert(has_entry(d, name));
        assert(entry_index(d, name) == i);
        assert(checks_for(doc, name) =~= Seq::<Check>::empty());
        assert(checks_for(doc, name).push(c) =~= seq![c]);
        assert forall|other: Seq<char>| other != name implies #[trigger] checks_for(d, other) == checks_for(doc, other) by {
            if has_entry(doc, other) {
                let j = entry_index(doc, other);
                assert(d[j].0 == other);
                assert(has_entry(d, other));
                assert(entry_index(d, other) == j);
            }
            if has_entry(d, other) {
                let j = entry_index(d, other);
                assert(j != i);
                assert(doc[j].0 == other);
            }
        }
    }
}

/// However many checks are recorded for a service, at most `max` are kept, and
/// they are exactly the most recent ones, in the order in which they arrived.
pub proof fn lemma_history_keeps_latest(doc: HistoryModel, name: Seq<char>, arrivals: Seq<Check>, max: nat)
    requires
        unique_names(doc),
        checks_for(doc, name).len() <= max,
    ensures
        unique_names(record_each(doc, name, arrivals, max)),
        checks_for(record_each(doc, name, arrivals, max), name) == keep_last(checks_for(doc, name) + arrivals, max),
        checks_for(record_each(doc, name, arrivals, max), name).len() <= max,
    decreases arrivals.len(),
{
    if arrivals.len() == 0 {
        assert(checks_for(doc, name) + arrivals =~= checks_for(doc, name));
    } else {
        let c = arrivals[0];
        let rest = arrivals.drop_first();
        let d1 = record_spec(doc, name, c, max);
        lemma_record_checks(doc, name, c, max);
        lemma_history_keeps_latest(d1, name, rest, max);
        lemma_keep_last_absorbs(checks_for(doc, name).push(c), rest, max);
        assert(checks_for(doc, name).push(c) + rest =~= checks_for(doc, name) + arrivals);
    }
}

impl HistoryEntry {
    pub open spec fn view(&self) -> (Seq<char>, Seq<Check>) {
        (self.name@, self.checks@)
    }
}

impl History {
    pub open spec fn view(&self) -> HistoryModel {
        self.entries@.map_values(|e: HistoryEntry| e@)
    }

    /// Names are unique.
    pub open spec fn wf(&self) -> bool {
        unique_names(self@)
    }

    /// An empty document.
    pub fn new() -> (r: History)
        ensures
            r@ == Seq::<(Seq<char>, Seq<Check>)>::empty(),
            r.wf(),
    {
        History { entries: Vec::new() }
    }

    /// Position of the entry named `name`, if any.
    pub fn find(&self, name: &String) -> (r: Option<usize>)
        requires
            self.wf(),
        ensures
            r is None <==> !has_entry(self@, name@),
            r matches Some(i) ==> i < self@.len() && i == entry_index(self@, name@),
    {
        let mut i: usize = 0;
        while i < self.entries.len()
            invariant
                i <= self.entries.len(),
                self.wf(),
                forall|j: int| 0 <= j < i ==> #[trigger] self@[j].0 != name@,
            decreases self.entries.len() - i,
        {
            if self.entries[i].name == *name {
                proof {
                    assert(self@[i as int].0 == name@);
                    assert(has_entry(self@, name@));
                    let k = entry_index(self@, name@);
                    assert(0 <= k < self@.len() && self@[k].0 == name@);
                    assert(unique_names(self@));
                    if k != i as int {
                        assert(self@[k].0 != self@[i as int].0);
                    }
                }
                return Some(i);
            }
            i += 1;
        }
        None
    }

    /// The checks recorded for `name`, oldest first (empty when there are none).
    pub fn checks(&self, name: &String) -> (r: &[Check])
        requires
            self.wf(),
        ensures
            r@ == checks_for(self@, name@),
    {
        match self.find(name) {
            Some(i) => self.entries[i].checks.as_slice(),
            None => &[],
        }
    }

    /// Append `check` to the history of `name`, creating the entry if absent, then
    /// evict the oldest checks until at most `max_history` remain.
    pub fn record(&mut self, name: &String, check: Check, max_history: u32)
        requires
            old(self).wf(),
        ensures
            final(self).wf(),
            final(self)@ == record_spec(old(self)@, name@, check, max_history as nat),
    {
        let ghost doc = self@;
        match self.find(name) {
            Some(i) => {
                let mut entry = self.entries.remove(i);
                entry.checks.push(check);
                let ghost pushed = entry.checks@;
                while entry.checks.len() > max_history as usize
                    invariant
                        entry.name@ == name@,
                        i < doc.len(),
                        pushed.len() <= max_history ==> entry.checks@.len() == pushed.len(),
                        pushed.len() > max_history ==> entry.checks@.len() >= max_history,
                        pushed == doc[i as int].1.push(check),
                        pushed.len() >= entry.checks@.len(),
                        entry.checks@ == pushed.subrange(pushed.len() - entry.checks@.len(), pushed.len() as int),
                    decreases entry.checks.len(),
                {
                    entry.checks.remove(0);
                }
                assert(entry.checks@ =~= keep_last(pushed, max_history as nat));
                self.entries.insert(i, entry);
                assert(self@ =~= doc.update(i as int, (name@, keep_last(pushed, max_history as nat))));
            },
            None => {
                let mut checks = Vec::new();
                checks.push(check);
                if max_history == 0 {
                    checks.remove(0);
                }
                assert(checks@ =~= keep_last(seq![check], max_history as nat));
                self.entries.push(HistoryEntry { name: name.clone(), checks });
                assert(self@ =~= doc.push((name@, keep_last(seq![check], max_history as nat))));
            },
        }
    }
}

} // verus!
