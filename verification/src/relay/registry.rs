//! The sessions of a relay under their public ids.
use vstd::prelude::*;

use crate::text;

verus! {

/// A session under its public id.
#[derive(Debug)]
pub struct Registered<S> {
    pub public_id: String,
    pub session: S,
}

/// Sessions, each under a public id of its own.
#[derive(Debug)]
pub struct Registry<S> {
    pub entries: Vec<Registered<S>>,
}

/// A session is registered under this id.
pub open spec fn is_registered<S>(entries: Seq<Registered<S>>, public_id: Seq<char>) -> bool {
    exists|i: int| 0 <= i < entries.len() && (#[trigger] entries[i]).public_id@ == public_id
}

/// The session under each id.
pub open spec fn session_table<S>(entries: Seq<Registered<S>>) -> Map<Seq<char>, S> {
    Map::new(
        |public_id: Seq<char>| is_registered(entries, public_id),
        |public_id: Seq<char>|
            entries[choose|i: int|
                0 <= i < entries.len() && (#[trigger] entries[i]).public_id@ == public_id].session,
    )
}

/// No id stands twice among the entries.
pub open spec fn ids_are_distinct<S>(entries: Seq<Registered<S>>) -> bool {
    forall|i: int, j: int|
        0 <= i < j < entries.len() ==> (#[trigger] entries[i]).public_id@ != (
        #[trigger] entries[j]).public_id@
}

impl<S> View for Registry<S> {
    type V = Map<Seq<char>, S>;

    open spec fn view(&self) -> Map<Seq<char>, S> {
        session_table(self.entries@)
    }
}

proof fn lemma_entry<S>(entries: Seq<Registered<S>>, i: int)
    requires
        ids_are_distinct(entries),
        0 <= i < entries.len(),
    ensures
        session_table(entries).dom().contains(entries[i].public_id@),
        session_table(entries)[entries[i].public_id@] == entries[i].session,
{
    let at = choose|at: int|
        0 <= at < entries.len() && (#[trigger] entries[at]).public_id@ == entries[i].public_id@;
    assert(at == i);
}

impl<S> Registry<S> {
    pub open spec fn well_formed(self) -> bool {
        ids_are_distinct(self.entries@)
    }

    pub fn new() -> (res: Registry<S>)
        ensures
            res.well_formed(),
            res@ == Map::<Seq<char>, S>::empty(),
    {
        let res = Registry { entries: Vec::new() };
        assert(res@ =~= Map::<Seq<char>, S>::empty());
        res
    }

    fn position(&self, public_id: &str) -> (res: Option<usize>)
        ensures
            match res {
                Some(i) => i < self.entries@.len() && self.entries@[i as int].public_id@
                    == public_id@,
                None => !is_registered(self.entries@, public_id@),
            },
    {
        let mut i: usize = 0;
        while i < self.entries.len()
            invariant
                i <= self.entries@.len(),
                forall|k: int|
                    0 <= k < i ==> (#[trigger] self.entries@[k]).public_id@ != public_id@,
            decreases self.entries@.len() - i,
        {
            if text::same(self.entries[i].public_id.as_str(), public_id) {
                return Some(i);
            }
            i = i + 1;
        }
        None
    }

    /// The session under this id.
    pub fn find(&self, public_id: &str) -> (res: Option<&S>)
        requires
            self.well_formed(),
        ensures
            match res {
                Some(session) => self@.dom().contains(public_id@) && self@[public_id@] == *session,
                None => !self@.dom().contains(public_id@),
            },
    {
        match self.position(public_id) {
            Some(i) => {
                proof {
                    lemma_entry(self.entries@, i as int);
                }
                Some(&self.entries[i].session)
            },
            None => None,
        }
    }

    /// Takes the session under this id out.
    pub fn remove(&mut self, public_id: &str)
        requires
            old(self).well_formed(),
        ensures
            final(self).well_formed(),
            final(self)@ == old(self)@.remove(public_id@),
            final(self).entries@.len() <= old(self).entries@.len(),
            !is_registered(final(self).entries@, public_id@),
    {
        let ghost before = self.entries@;
        match self.position(public_id) {
            Some(i) => {
                let _ = self.entries.remove(i);
                proof {
                    let after = self.entries@;
                    assert(ids_are_distinct(after)) by {
                        assert forall|a: int, b: int| 0 <= a < b < after.len() implies (
                        #[trigger] after[a]).public_id@ != (#[trigger] after[b]).public_id@ by {
                            let c = if a < i {
                                a
                            } else {
                                a + 1
                            };
                            let d = if b < i {
                                b
                            } else {
                                b + 1
                            };
                            assert(after[a] == before[c] && after[b] == before[d]);
                        }
                    }
                    assert forall|id: Seq<char>| is_registered(after, id) == (id != public_id@
                        && is_registered(before, id)) by {
                        if is_registered(before, id) && id != public_id@ {
                            let k = choose|k: int|
                                0 <= k < before.len() && (#[trigger] before[k]).public_id@ == id;
                            let m = if k < i {
                                k
                            } else {
                                k - 1
                            };
                            assert(after[m].public_id@ == id);
                        }
                        if is_registered(after, id) {
                            let k = choose|k: int|
                                0 <= k < after.len() && (#[trigger] after[k]).public_id@ == id;
                            let m = if k < i {
                                k
                            } else {
                                k + 1
                            };
                            assert(before[m].public_id@ == id);
                            assert(m != i);
                        }
                    }
                    assert forall|id: Seq<char>|
                        is_registered(after, id) implies #[trigger] session_table(after)[id]
                        == session_table(before)[id] by {
                        let k = choose|k: int|
                            0 <= k < after.len() && (#[trigger] after[k]).public_id@ == id;
                        let m = if k < i {
                            k
                        } else {
                            k + 1
                        };
                        assert(after[k] == before[m]);
                        lemma_entry(after, k);
                        lemma_entry(before, m);
                    }
                    assert(self@ =~= session_table(before).remove(public_id@));
                }
            },
            None => {
                assert(self@ =~= session_table(before).remove(public_id@));
            },
        }
    }

    /// Puts a session under this id, in place of one that was there.
    pub fn insert(&mut self, public_id: String, session: S)
        requires
            old(self).well_formed(),
        ensures
            final(self).well_formed(),
            final(self)@ == old(self)@.insert(public_id@, session),
    {
        let ghost first = self@;
        self.remove(public_id.as_str());
        let ghost before = self.entries@;
        let ghost id_view = public_id@;
        self.entries.push(Registered { public_id, session });
        proof {
            let after = self.entries@;
            let last = before.len() as int;
            assert(ids_are_distinct(after)) by {
                assert forall|i: int, j: int| 0 <= i < j < after.len() implies (
                #[trigger] after[i]).public_id@ != (#[trigger] after[j]).public_id@ by {
                    assert(after[i] == before[i]);
                    if j < last {
                        assert(after[j] == before[j]);
                    }
                }
            }
            assert forall|id: Seq<char>| is_registered(after, id) == (id == id_view
                || is_registered(before, id)) by {
                if is_registered(before, id) {
                    let k = choose|k: int|
                        0 <= k < before.len() && (#[trigger] before[k]).public_id@ == id;
                    assert(after[k].public_id@ == id);
                }
                if is_registered(after, id) {
                    let k = choose|k: int|
                        0 <= k < after.len() && (#[trigger] after[k]).public_id@ == id;
                    if k < last {
                        assert(before[k].public_id@ == id);
                    }
                }
                assert(after[last].public_id@ == id_view);
            }
            lemma_entry(after, last);
            assert forall|id: Seq<char>|
                id != id_view && is_registered(before, id) implies #[trigger] session_table(
                after,
            )[id] == session_table(before)[id] by {
                let k = choose|k: int|
                    0 <= k < before.len() && (#[trigger] before[k]).public_id@ == id;
                lemma_entry(before, k);
                assert(after[k] == before[k]);
                lemma_entry(after, k);
            }
            assert(session_table(before) == first.remove(id_view));
            let wanted = first.insert(id_view, session);
            assert forall|id: Seq<char>| self@.dom().contains(id) == wanted.dom().contains(id) by {
                assert(session_table(before).dom().contains(id) == is_registered(before, id));
                assert(self@.dom().contains(id) == is_registered(after, id));
            }
            assert forall|id: Seq<char>| wanted.dom().contains(id) implies #[trigger] self@[id]
                == wanted[id] by {
                if id != id_view {
                    assert(session_table(before).dom().contains(id));
                    assert(session_table(after)[id] == session_table(before)[id]);
                }
            }
            assert(self@ =~= wanted);
        }
    }
}

} // verus!
