//! The requests of a relay session that have not been answered yet.
use vstd::prelude::*;

verus! {

/// A request that waits for its answer, or for the rest of it.
#[derive(Clone, Copy, Debug, PartialEq, Eq, Structural)]
pub struct PendingResponse {
    pub request_id: u64,
    /// The status and the headers have come already.
    pub head_sent: bool,
}

/// The requests that wait, each under an id of its own.
#[derive(Debug)]
pub struct PendingTable {
    pub entries: Vec<PendingResponse>,
}

/// A request of this id is among the entries.
pub open spec fn is_pending(entries: Seq<PendingResponse>, request_id: u64) -> bool {
    exists|i: int| 0 <= i < entries.len() && (#[trigger] entries[i]).request_id == request_id
}

/// For each request that waits, whether its head has come.
pub open spec fn head_table(entries: Seq<PendingResponse>) -> Map<u64, bool> {
    Map::new(
        |request_id: u64| is_pending(entries, request_id),
        |request_id: u64|
            entries[choose|i: int|
                0 <= i < entries.len() && (#[trigger] entries[i]).request_id
                    == request_id].head_sent,
    )
}

/// No id stands twice among the entries.
pub open spec fn ids_are_distinct(entries: Seq<PendingResponse>) -> bool {
    forall|i: int, j: int|
        0 <= i < j < entries.len() ==> (#[trigger] entries[i]).request_id != (
        #[trigger] entries[j]).request_id
}

impl View for PendingTable {
    type V = Map<u64, bool>;

    open spec fn view(&self) -> Map<u64, bool> {
        head_table(self.entries@)
    }
}

proof fn lemma_entry(entries: Seq<PendingResponse>, i: int)
    requires
        ids_are_distinct(entries),
        0 <= i < entries.len(),
    ensures
        head_table(entries).dom().contains(entries[i].request_id),
        head_table(entries)[entries[i].request_id] == entries[i].head_sent,
{
    let at = choose|at: int|
        0 <= at < entries.len() && (#[trigger] entries[at]).request_id == entries[i].request_id;
    assert(at == i);
}

impl PendingTable {
    pub open spec fn well_formed(self) -> bool {
        ids_are_distinct(self.entries@)
    }

    pub fn new() -> (res: PendingTable)
        ensures
            res.well_formed(),
            res@ == Map::<u64, bool>::empty(),
    {
        let res = PendingTable { entries: Vec::new() };
        assert(res@ =~= Map::<u64, bool>::empty());
        res
    }

    fn position(&self, request_id: u64) -> (res: Option<usize>)
        ensures
            match res {
                Some(i) => i < self.entries@.len() && self.entries@[i as int].request_id
                    == request_id,
                None => !is_pending(self.entries@, request_id),
            },
    {
        let mut i: usize = 0;
        while i < self.entries.len()
            invariant
                i <= self.entries@.len(),
                forall|k: int|
                    0 <= k < i ==> (#[trigger] self.entries@[k]).request_id != request_id,
            decreases self.entries@.len() - i,
        {
            if self.entries[i].request_id == request_id {
                return Some(i);
            }
            i = i + 1;
        }
        None
    }

    /// Whether the head of a request has come, where the request waits.
    pub fn get(&self, request_id: u64) -> (res: Option<bool>)
        requires
            self.well_formed(),
        ensures
            res == (if self@.dom().contains(request_id) {
                Some(self@[request_id])
            } else {
                None
            }),
    {
        match self.position(request_id) {
            Some(i) => {
                proof {
                    lemma_entry(self.entries@, i as int);
                }
                Some(self.entries[i].head_sent)
            },
            None => None,
        }
    }

    /// Adds a request, in place of one of the same id.
    pub fn insert(&mut self, request_id: u64, head_sent: bool)
        requires
            old(self).well_formed(),
        ensures
            final(self).well_formed(),
            final(self)@ == old(self)@.insert(request_id, head_sent),
    {
        let ghost before = self.entries@;
        let entry = PendingResponse { request_id, head_sent };
        match self.position(request_id) {
            Some(i) => {
                self.entries.set(i, entry);
                proof {
                    let after = self.entries@;
                    assert forall|id: u64| is_pending(after, id) == (id == request_id
                        || is_pending(before, id)) by {
                        if is_pending(before, id) {
                            let k = choose|k: int|
                                0 <= k < before.len() && (#[trigger] before[k]).request_id == id;
                            assert(after[k].request_id == id);
                        }
                        if is_pending(after, id) {
                            let k = choose|k: int|
                                0 <= k < after.len() && (#[trigger] after[k]).request_id == id;
                            assert(before[k].request_id == id);
                        }
                        assert(after[i as int].request_id == request_id);
                    }
                    lemma_entry(after, i as int);
                    assert forall|id: u64|
                        id != request_id && is_pending(before, id) implies #[trigger] head_table(
                        after,
                    )[id] == head_table(before)[id] by {
                        let k = choose|k: int|
                            0 <= k < before.len() && (#[trigger] before[k]).request_id == id;
                        lemma_entry(before, k);
                        assert(after[k] == before[k]);
                        lemma_entry(after, k);
                    }
                    assert(self@ =~= head_table(before).insert(request_id, head_sent));
                }
            },
            None => {
                self.entries.push(entry);
                proof {
                    let after = self.entries@;
                    let last = before.len() as int;
                    assert(ids_are_distinct(after)) by {
                        assert forall|i: int, j: int| 0 <= i < j < after.len() implies (
                        #[trigger] after[i]).request_id != (#[trigger] after[j]).request_id by {
                            assert(after[i] == before[i]);
                            if j < last {
                                assert(after[j] == before[j]);
                            }
                        }
                    }
                    assert forall|id: u64| is_pending(after, id) == (id == request_id
                        || is_pending(before, id)) by {
                        if is_pending(before, id) {
                            let k = choose|k: int|
                                0 <= k < before.len() && (#[trigger] before[k]).request_id == id;
                            assert(after[k].request_id == id);
                        }
                        if is_pending(after, id) {
                            let k = choose|k: int|
                                0 <= k < after.len() && (#[trigger] after[k]).request_id == id;
                            if k < last {
                                assert(before[k].request_id == id);
                            }
                        }
                        assert(after[last].request_id == request_id);
                    }
                    lemma_entry(after, last);
                    assert forall|id: u64|
                        id != request_id && is_pending(before, id) implies #[trigger] head_table(
                        after,
                    )[id] == head_table(before)[id] by {
                        let k = choose|k: int|
                            0 <= k < before.len() && (#[trigger] before[k]).request_id == id;
                        lemma_entry(before, k);
                        assert(after[k] == before[k]);
                        lemma_entry(after, k);
                    }
                    assert(self@ =~= head_table(before).insert(request_id, head_sent));
                }
            },
        }
    }

    /// Takes a request out, and says whether its head had come.
    pub fn remove(&mut self, request_id: u64) -> (res: Option<bool>)
        requires
            old(self).well_formed(),
        ensures
            final(self).well_formed(),
            final(self)@ == old(self)@.remove(request_id),
            res == (if old(self)@.dom().contains(request_id) {
                Some(old(self)@[request_id])
            } else {
                None
            }),
    {
        let ghost before = self.entries@;
        match self.position(request_id) {
            Some(i) => {
                let entry = self.entries.remove(i);
                proof {
                    let after = self.entries@;
                    lemma_entry(before, i as int);
                    assert(ids_are_distinct(after)) by {
                        assert forall|a: int, b: int| 0 <= a < b < after.len() implies (
                        #[trigger] after[a]).request_id != (#[trigger] after[b]).request_id by {
                            let c = if a < i {
                                a
                            } else {
                                a + 1
                            };
                            let d = if b < i {
                                b
                            } else {
                                b + 1
                            };
                            assert(after[a] == before[c] && after[b] == before[d]);
                        }
                    }
                    assert forall|id: u64| is_pending(after, id) == (id != request_id
                        && is_pending(before, id)) by {
                        if is_pending(before, id) && id != request_id {
                            let k = choose|k: int|
                                0 <= k < before.len() && (#[trigger] before[k]).request_id == id;
                            let m = if k < i {
                                k
                            } else {
                                k - 1
                            };
                            assert(after[m].request_id == id);
                        }
                        if is_pending(after, id) {
                            let k = choose|k: int|
                                0 <= k < after.len() && (#[trigger] after[k]).request_id == id;
                            let m = if k < i {
                                k
                            } else {
                                k + 1
                            };
                            assert(before[m].request_id == id);
                            assert(m != i);
                        }
                    }
                    assert forall|id: u64| is_pending(after, id) implies #[trigger] head_table(
                        after,
                    )[id] == head_table(before)[id] by {
                        let k = choose|k: int|
                            0 <= k < after.len() && (#[trigger] after[k]).request_id == id;
                        let m = if k < i {
                            k
                        } else {
                            k + 1
                        };
                        assert(after[k] == before[m]);
                        lemma_entry(after, k);
                        lemma_entry(before, m);
                    }
                    assert(self@ =~= head_table(before).remove(request_id));
                }
                Some(entry.head_sent)
            },
            None => {
                assert(self@ =~= head_table(before).remove(request_id));
                None
            },
        }
    }
}

} // verus!
