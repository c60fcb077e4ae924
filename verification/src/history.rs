//! Append-only per-entity version history with single-step undo.
//!
//! Every write of an entity appends a snapshot of its previous raw
//! tree payload under the next version number; versions for one entity
//! are `1..n` and are never reused. Entries accumulate without bound:
//! the ledger never compacts, which is a known resource-growth
//! characteristic of the design, not an oversight.

use vstd::prelude::*;

use crate::models::{same_tree_data, ApiFullTreeData};

verus! {

/// One immutable history entry: the owning entity, its version number
/// and a snapshot of the full raw tree payload at that version.
#[derive(Debug)]
pub struct HistoryEntry {
    pub record_id: String,
    pub version_number: u32,
    pub data: ApiFullTreeData,
}

/// Whether two history entries carry the same content.
pub open spec fn same_history_entry(a: HistoryEntry, b: HistoryEntry) -> bool {
    &&& a.record_id == b.record_id
    &&& a.version_number == b.version_number
    &&& same_tree_data(a.data, b.data)
}

impl Clone for HistoryEntry {
    /// A copy with the same content.
    fn clone(&self) -> (r: Self)
        ensures
            same_history_entry(r, *self),
    {
        HistoryEntry {
            record_id: self.record_id.clone(),
            version_number: self.version_number,
            data: self.data.clone(),
        }
    }
}

/// The entries belonging to one entity, in the order they were
/// appended.
pub open spec fn history_for(entries: Seq<HistoryEntry>, id: Seq<char>) -> Seq<HistoryEntry>
    decreases entries.len(),
{
    if entries.len() == 0 {
        Seq::empty()
    } else {
        let rest = history_for(entries.drop_last(), id);
        if entries.last().record_id@ == id {
            rest.push(entries.last())
        } else {
            rest
        }
    }
}

/// The highest version number an entity's entries reach, or 0 when it
/// has none.
pub open spec fn max_version_for(entries: Seq<HistoryEntry>, id: Seq<char>) -> int
    decreases entries.len(),
{
    if entries.len() == 0 {
        0
    } else {
        let rest = max_version_for(entries.drop_last(), id);
        if entries.last().record_id@ == id && entries.last().version_number as int > rest {
            entries.last().version_number as int
        } else {
            rest
        }
    }
}

/// An entity's versions are exactly `1..n` in append order.
pub open spec fn versions_contiguous(entries: Seq<HistoryEntry>, id: Seq<char>) -> bool {
    forall|j: int|
        0 <= j < history_for(entries, id).len() ==> (#[trigger] history_for(entries, id)[j])
            .version_number as int == j + 1
}

/// Every entity's versions are exactly `1..n`: the shape every ledger
/// reachable through this module's operations keeps.
pub open spec fn ledger_well_formed(entries: Seq<HistoryEntry>) -> bool {
    forall|id: Seq<char>| #[trigger] versions_contiguous(entries, id)
}

/// With contiguous versions, the highest version an entity reaches is
/// the number of its entries.
pub proof fn lemma_max_is_count(entries: Seq<HistoryEntry>, id: Seq<char>)
    requires
        versions_contiguous(entries, id),
    ensures
        max_version_for(entries, id) == history_for(entries, id).len(),
    decreases entries.len(),
{
    if entries.len() == 0 {
    } else {
        let t = entries.drop_last();
        let e = entries.last();
        assert forall|j: int|
            0 <= j < history_for(t, id).len() implies (#[trigger] history_for(t, id)[j])
            .version_number as int == j + 1 by {
            if e.record_id@ == id {
                assert(history_for(entries, id) == history_for(t, id).push(e));
            }
            assert(history_for(entries, id)[j] == history_for(t, id)[j]);
        }
        assert(versions_contiguous(t, id));
        lemma_max_is_count(t, id);
        if e.record_id@ == id {
            let h = history_for(entries, id);
            assert(h == history_for(t, id).push(e));
            assert(h[h.len() - 1].version_number as int == h.len() as int);
        }
    }
}

/// Removing the last entry of one entity shortens that entity's
/// history by one and leaves every other entity's history unchanged.
pub proof fn lemma_history_for_remove_last(s: Seq<HistoryEntry>, id: Seq<char>, idx: int)
    requires
        0 <= idx < s.len(),
        s[idx].record_id@ == id,
        forall|m: int| idx < m < s.len() ==> (#[trigger] s[m]).record_id@ != id,
    ensures
        history_for(s.remove(idx), id) == history_for(s, id).drop_last(),
        forall|id2: Seq<char>|
            id2 != id ==> history_for(s.remove(idx), id2) == #[trigger] history_for(s, id2),
    decreases s.len(),
{
    if idx == s.len() - 1 {
        assert(s.remove(idx) =~= s.drop_last());
        assert(history_for(s, id).drop_last() =~= history_for(s.drop_last(), id));
        assert(forall|id2: Seq<char>|
            id2 != id ==> history_for(s.remove(idx), id2) == #[trigger] history_for(s, id2));
    } else {
        let t = s.drop_last();
        let e = s.last();
        assert(e.record_id@ != id);
        lemma_history_for_remove_last(t, id, idx);
        assert(s.remove(idx).drop_last() =~= t.remove(idx));
        assert(s.remove(idx).last() == e);
        assert(history_for(s.remove(idx), id) == history_for(t.remove(idx), id));
        assert(history_for(s, id) == history_for(t, id));
        assert forall|id2: Seq<char>| id2 != id implies history_for(s.remove(idx), id2)
            == #[trigger] history_for(s, id2) by {
            if e.record_id@ == id2 {
                assert(history_for(s.remove(idx), id2) == history_for(t.remove(idx), id2).push(e));
                assert(history_for(s, id2) == history_for(t, id2).push(e));
            } else {
                assert(history_for(s.remove(idx), id2) == history_for(t.remove(idx), id2));
                assert(history_for(s, id2) == history_for(t, id2));
            }
        }
    }
}

/// Every entry in an entity's history belongs to that entity.
pub proof fn lemma_history_for_members(s: Seq<HistoryEntry>, id: Seq<char>)
    ensures
        forall|j: int|
            0 <= j < history_for(s, id).len() ==> (#[trigger] history_for(s, id)[j]).record_id@
                == id,
    decreases s.len(),
{
    if s.len() > 0 {
        lemma_history_for_members(s.drop_last(), id);
        assert forall|j: int|
            0 <= j < history_for(s, id).len() implies (#[trigger] history_for(s, id)[j])
            .record_id@ == id by {
            if j < history_for(s.drop_last(), id).len() {
                assert(history_for(s, id)[j] == history_for(s.drop_last(), id)[j]);
            }
        }
    }
}

/// The append-only ledger itself. Only [`HistoryLedger::new`] builds
/// one, so every ledger a caller can hold is well-formed.
#[derive(Debug)]
pub struct HistoryLedger {
    entries: Vec<HistoryEntry>,
}

impl View for HistoryLedger {
    type V = Seq<HistoryEntry>;

    closed spec fn view(&self) -> Seq<HistoryEntry> {
        self.entries@
    }
}

impl HistoryLedger {
    /// A ledger with no entries.
    pub fn new() -> (r: HistoryLedger)
        ensures
            r@ == Seq::<HistoryEntry>::empty(),
            ledger_well_formed(r@),
    {
        let r = HistoryLedger { entries: Vec::new() };
        proof {
            assert forall|id: Seq<char>| #[trigger] versions_contiguous(r@, id) by {
                assert(history_for(r@, id).len() == 0);
            }
        }
        r
    }

    /// Appends a snapshot of the given payload for the entity, under
    /// the next version number: one more than the highest version the
    /// entity has reached, so 1 for its first entry. Existing entries
    /// are never touched.
    pub fn record_tree_update(&mut self, record_id: &String, data: ApiFullTreeData)
        requires
            ledger_well_formed(old(self)@),
            max_version_for(old(self)@, record_id@) < u32::MAX as int,
        ensures
            ledger_well_formed(final(self)@),
            final(self)@ == old(self)@.push(
                (HistoryEntry {
                    record_id: *record_id,
                    version_number: (max_version_for(old(self)@, record_id@) + 1) as u32,
                    data,
                }),
            ),
    {
        let mut highest: u32 = 0;
        let mut i: usize = 0;
        proof {
            assert(self@.take(0) =~= Seq::<HistoryEntry>::empty());
        }
        while i < self.entries.len()
            invariant
                i <= self@.len(),
                self@ == old(self)@,
                highest as int == max_version_for(self@.take(i as int), record_id@),
                max_version_for(self@, record_id@) < u32::MAX as int,
            decreases self@.len() - i,
        {
            proof {
                assert(self@.take(i as int + 1).drop_last() =~= self@.take(i as int));
                assert(self@.take(i as int + 1).last() == self@[i as int]);
                lemma_max_version_take_bound(self@, record_id@, i as int + 1);
            }
            let e = &self.entries[i];
            if e.record_id == *record_id && e.version_number > highest {
                highest = e.version_number;
            }
            i += 1;
        }
        proof {
            assert(self@.take(self@.len() as int) =~= self@);
        }
        let entry = HistoryEntry {
            record_id: record_id.clone(),
            version_number: highest + 1,
            data,
        };
        let ghost before = self@;
        self.entries.push(entry);
        proof {
            let e = (HistoryEntry {
                record_id: *record_id,
                version_number: (max_version_for(before, record_id@) + 1) as u32,
                data,
            });
            assert(final(self)@ =~= before.push(e));
            lemma_max_is_count(before, record_id@);
            assert forall|id2: Seq<char>| #[trigger] versions_contiguous(final(self)@, id2) by {
                assert(final(self)@.drop_last() =~= before);
                let h0 = history_for(before, id2);
                let h1 = history_for(final(self)@, id2);
                assert(versions_contiguous(before, id2));
                assert forall|j: int|
                    0 <= j < h1.len() implies (#[trigger] h1[j]).version_number as int == j
                    + 1 by {
                    if id2 == record_id@ {
                        assert(h1 == h0.push(e));
                        assert(e.version_number as int == h0.len() + 1);
                        if j < h0.len() {
                            assert(h1[j] == h0[j]);
                        }
                    } else {
                        assert(h1 == h0);
                        assert(h1[j] == h0[j]);
                    }
                }
            }
        }
    }

    /// The entries of one entity, in version order, as copies.
    pub fn list_history(&self, record_id: &String) -> (r: Vec<HistoryEntry>)
        ensures
            r@.len() == history_for(self@, record_id@).len(),
            forall|j: int|
                0 <= j < r@.len() ==> same_history_entry(
                    #[trigger] r@[j],
                    history_for(self@, record_id@)[j],
                ),
    {
        let mut r: Vec<HistoryEntry> = Vec::new();
        let mut i: usize = 0;
        proof {
            assert(self@.take(0) =~= Seq::<HistoryEntry>::empty());
        }
        while i < self.entries.len()
            invariant
                i <= self@.len(),
                r@.len() == history_for(self@.take(i as int), record_id@).len(),
                forall|j: int|
                    0 <= j < r@.len() ==> same_history_entry(
                        #[trigger] r@[j],
                        history_for(self@.take(i as int), record_id@)[j],
                    ),
            decreases self@.len() - i,
        {
            proof {
                assert(self@.take(i as int + 1).drop_last() =~= self@.take(i as int));
                assert(self@.take(i as int + 1).last() == self@[i as int]);
            }
            let e = &self.entries[i];
            if e.record_id == *record_id {
                r.push(e.clone());
            }
            i += 1;
        }
        proof {
            assert(self@.take(self@.len() as int) =~= self@);
        }
        r
    }

    /// Single-step undo: with fewer than two entries for the entity
    /// there is nothing to go back to and the ledger is untouched.
    /// Otherwise the single highest-version entry is deleted and the
    /// then-highest snapshot's payload is returned; writing it back as
    /// the live tree is the caller's responsibility.
    pub fn move_back_tree_update(&mut self, record_id: &String) -> (r: Option<ApiFullTreeData>)
        requires
            ledger_well_formed(old(self)@),
        ensures
            ledger_well_formed(final(self)@),
            history_for(old(self)@, record_id@).len() < 2 ==> final(self)@ == old(self)@ && r
                is None,
            history_for(old(self)@, record_id@).len() >= 2 ==> {
                let h = history_for(old(self)@, record_id@);
                &&& match r {
                    Some(d) => same_tree_data(d, h[h.len() - 2].data),
                    None => false,
                }
                &&& history_for(final(self)@, record_id@) == h.drop_last()
                &&& forall|id2: Seq<char>|
                    id2 != record_id@ ==> history_for(final(self)@, id2) == #[trigger] history_for(
                        old(self)@,
                        id2,
                    )
            },
    {
        let ghost h = history_for(self@, record_id@);
        let mut idxs: Vec<usize> = Vec::new();
        let mut i: usize = 0;
        proof {
            assert(self@.take(0) =~= Seq::<HistoryEntry>::empty());
        }
        while i < self.entries.len()
            invariant
                i <= self@.len(),
                self@ == old(self)@,
                h == history_for(self@, record_id@),
                idxs@.len() == history_for(self@.take(i as int), record_id@).len(),
                forall|m: int|
                    0 <= m < idxs@.len() ==> (#[trigger] idxs@[m]) < i && self@[idxs@[m] as int]
                        == history_for(self@.take(i as int), record_id@)[m],
                forall|k: int|
                    0 <= k < i && (#[trigger] self@[k]).record_id@ == record_id@ ==> (idxs@.len()
                        > 0 && idxs@.last() as int >= k),
            decreases self@.len() - i,
        {
            proof {
                assert(self@.take(i as int + 1).drop_last() =~= self@.take(i as int));
                assert(self@.take(i as int + 1).last() == self@[i as int]);
            }
            let e = &self.entries[i];
            if e.record_id == *record_id {
                idxs.push(i);
            }
            i += 1;
        }
        proof {
            assert(self@.take(self@.len() as int) =~= self@);
        }
        if idxs.len() < 2 {
            return None;
        }
        let last_idx = idxs[idxs.len() - 1];
        let prev_idx = idxs[idxs.len() - 2];
        let payload = self.entries[prev_idx].data.clone();
        proof {
            lemma_history_for_members(self@, record_id@);
            assert(self@[last_idx as int] == h[h.len() - 1]);
            assert(self@[prev_idx as int] == h[h.len() - 2]);
            assert forall|m: int| last_idx < m < self@.len() implies (#[trigger] self@[m])
                .record_id@ != record_id@ by {
                if self@[m].record_id@ == record_id@ {
                    assert(idxs@.last() as int >= m);
                }
            }
            lemma_history_for_remove_last(self@, record_id@, last_idx as int);
        }
        let ghost before = self@;
        self.entries.remove(last_idx);
        proof {
            assert(final(self)@ == before.remove(last_idx as int));
            assert forall|id2: Seq<char>| #[trigger] versions_contiguous(final(self)@, id2) by {
                let h0 = history_for(before, id2);
                let h1 = history_for(final(self)@, id2);
                assert(versions_contiguous(before, id2));
                assert forall|j: int|
                    0 <= j < h1.len() implies (#[trigger] h1[j]).version_number as int == j
                    + 1 by {
                    if id2 == record_id@ {
                        assert(h1 == h0.drop_last());
                    } else {
                        assert(h1 == h0);
                    }
                    assert(h1[j] == h0[j]);
                }
            }
        }
        Some(payload)
    }
}

/// The highest version seen in a prefix never exceeds the one seen in
/// the whole ledger.
pub proof fn lemma_max_version_take_bound(s: Seq<HistoryEntry>, id: Seq<char>, n: int)
    requires
        0 <= n <= s.len(),
    ensures
        max_version_for(s.take(n), id) <= max_version_for(s, id),
    decreases s.len() - n,
{
    if n == s.len() {
        assert(s.take(n) =~= s);
    } else {
        lemma_max_version_take_bound(s, id, n + 1);
        assert(s.take(n + 1).drop_last() =~= s.take(n));
        assert(s.take(n + 1).last() == s[n]);
    }
}

} // verus!
