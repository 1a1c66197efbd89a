use crate::player::PlayerId;
use vstd::prelude::*;

verus! {

/// The live sessions of a game: for each connected identity, the conduit that
/// carries messages out to it.
pub struct SessionRegistry<C> {
    entries: Vec<(PlayerId, C)>,
    mapping: Ghost<Map<PlayerId, C>>,
}

impl<C> View for SessionRegistry<C> {
    type V = Map<PlayerId, C>;

    closed spec fn view(&self) -> Map<PlayerId, C> {
        self.mapping@
    }
}

impl<C> SessionRegistry<C> {
    /// The entries list each identity once, and are what the mapping holds.
    pub closed spec fn wf(&self) -> bool {
        let e = self.entries@;
        &&& forall|i: int, j: int|
            0 <= i < e.len() && 0 <= j < e.len() && i != j ==> (#[trigger] e[i]).0 != (#[trigger] e[j]).0
        &&& forall|i: int|
            0 <= i < e.len() ==> self.mapping@.contains_key((#[trigger] e[i]).0) && self.mapping@[e[i].0]
                == e[i].1
        &&& forall|k: PlayerId|
            #[trigger] self.mapping@.contains_key(k) ==> exists|i: int| 0 <= i < e.len() && e[i].0 == k
    }

    /// A registry without sessions.
    pub fn new() -> (r: SessionRegistry<C>)
        ensures
            r.wf(),
            r@ == Map::<PlayerId, C>::empty(),
    {
        SessionRegistry { entries: Vec::new(), mapping: Ghost(Map::empty()) }
    }

    /// The number of sessions.
    pub fn len(&self) -> (r: usize)
        requires
            self.wf(),
        ensures
            r == self@.len(),
    {
        proof {
            self.lemma_len();
        }
        self.entries.len()
    }

    proof fn lemma_len(&self)
        requires
            self.wf(),
        ensures
            self@.dom().finite(),
            self@.len() == self.entries@.len(),
    {
        let e = self.entries@;
        let ids = e.map_values(|p: (PlayerId, C)| p.0);
        assert forall|i: int, j: int| 0 <= i < ids.len() && 0 <= j < ids.len() && i != j implies ids[i]
            != ids[j] by {
            assert(e[i].0 != e[j].0);
        }
        assert(ids.no_duplicates());
        assert(ids.to_set() =~= self@.dom()) by {
            assert forall|k: PlayerId| self@.dom().contains(k) implies ids.to_set().contains(k) by {
                let i = choose|i: int| 0 <= i < e.len() && e[i].0 == k;
                assert(ids[i] == k);
            }
            assert forall|k: PlayerId| ids.to_set().contains(k) implies self@.dom().contains(k) by {
                let i = choose|i: int| 0 <= i < ids.len() && ids[i] == k;
                assert(self@.contains_key(e[i].0));
            }
        }
        ids.unique_seq_to_set();
    }

    /// The index of the entry for `id`, if any.
    fn find(&self, id: PlayerId) -> (r: Option<usize>)
        requires
            self.wf(),
        ensures
            r matches Some(i) ==> i < self.entries@.len() && self.entries@[i as int].0 == id,
            r is None ==> !self@.contains_key(id),
    {
        let mut i: usize = 0;
        while i < self.entries.len()
            invariant
                self.wf(),
                i <= self.entries@.len(),
                forall|j: int| 0 <= j < i ==> (#[trigger] self.entries@[j]).0 != id,
            decreases self.entries@.len() - i,
        {
            if self.entries[i].0 == id {
                return Some(i);
            }
            i = i + 1;
        }
        proof {
            if self@.contains_key(id) {
                let j = choose|j: int| 0 <= j < self.entries@.len() && self.entries@[j].0 == id;
                assert(self.entries@[j].0 != id);
            }
        }
        None
    }

    /// Whether `id` has a session.
    pub fn contains(&self, id: PlayerId) -> (r: bool)
        requires
            self.wf(),
        ensures
            r == self@.contains_key(id),
    {
        self.find(id).is_some()
    }

    /// Records `conduit` as the session of `id`, in place of any earlier one.
    pub fn register(&mut self, id: PlayerId, conduit: C)
        requires
            old(self).wf(),
        ensures
            final(self).wf(),
            final(self)@ == old(self)@.insert(id, conduit),
    {
        let ghost m = self.mapping@.insert(id, conduit);
        match self.find(id) {
            Some(i) => {
                self.entries.set(i, (id, conduit));
                self.mapping = Ghost(m);
                proof {
                    let e = self.entries@;
                    assert forall|k: PlayerId| #[trigger] m.contains_key(k) implies exists|j: int|
                        0 <= j < e.len() && e[j].0 == k by {
                        if k == id {
                            assert(e[i as int].0 == k);
                        } else {
                            assert(old(self)@.contains_key(k));
                            let j = choose|j: int|
                                0 <= j < old(self).entries@.len() && old(self).entries@[j].0 == k;
                            assert(e[j].0 == k);
                        }
                    }
                }
            },
            None => {
                self.entries.push((id, conduit));
                self.mapping = Ghost(m);
                proof {
                    let e = self.entries@;
                    let n = e.len() - 1;
                    assert forall|k: PlayerId| #[trigger] m.contains_key(k) implies exists|j: int|
                        0 <= j < e.len() && e[j].0 == k by {
                        if k == id {
                            assert(e[n].0 == k);
                        } else {
                            assert(old(self)@.contains_key(k));
                            let j = choose|j: int|
                                0 <= j < old(self).entries@.len() && old(self).entries@[j].0 == k;
                            assert(e[j].0 == k);
                        }
                    }
                }
            },
        }
    }

    /// Drops the session of `id`, and reports whether there was one.
    pub fn unregister(&mut self, id: PlayerId) -> (r: bool)
        requires
            old(self).wf(),
        ensures
            final(self).wf(),
            r == old(self)@.contains_key(id),
            final(self)@ == old(self)@.remove(id),
    {
        match self.find(id) {
            Some(i) => {
                let ghost old_e = self.entries@;
                let _ = self.entries.remove(i);
                let ghost m = self.mapping@.remove(id);
                self.mapping = Ghost(m);
                proof {
                    let e = self.entries@;
                    assert forall|j: int| 0 <= j < e.len() implies #[trigger] e[j] == (if j < i {
                        old_e[j]
                    } else {
                        old_e[j + 1]
                    }) by {}
                    assert forall|a: int, b: int|
                        0 <= a < e.len() && 0 <= b < e.len() && a != b implies (#[trigger] e[a]).0
                        != (#[trigger] e[b]).0 by {
                        let a0 = if a < i { a } else { a + 1 };
                        let b0 = if b < i { b } else { b + 1 };
                        assert(old_e[a0].0 != old_e[b0].0);
                    }
                    assert forall|j: int| 0 <= j < e.len() implies m.contains_key(
                        (#[trigger] e[j]).0,
                    ) && m[e[j].0] == e[j].1 by {
                        let j0 = if j < i { j } else { j + 1 };
                        assert(old_e[j0].0 != old_e[i as int].0);
                    }
                    assert forall|k: PlayerId| #[trigger] m.contains_key(k) implies exists|j: int|
                        0 <= j < e.len() && e[j].0 == k by {
                        let j0 = choose|j: int| 0 <= j < old_e.len() && old_e[j].0 == k;
                        if j0 < i {
                            assert(e[j0].0 == k);
                        } else {
                            assert(j0 != i);
                            assert(e[j0 - 1].0 == k);
                        }
                    }
                }
                true
            },
            None => {
                proof {
                    assert(self.mapping@.remove(id) =~= self.mapping@);
                }
                false
            },
        }
    }

    /// The conduit of `id`, if it has a session.
    pub fn conduit(&self, id: PlayerId) -> (r: Option<&C>)
        requires
            self.wf(),
        ensures
            r == (if self@.contains_key(id) {
                Some(&self@[id])
            } else {
                None
            }),
    {
        match self.find(id) {
            Some(i) => Some(&self.entries[i].1),
            None => None,
        }
    }

    /// Every identity with a session, each once.
    pub fn ids(&self) -> (r: Vec<PlayerId>)
        requires
            self.wf(),
        ensures
            r@.no_duplicates(),
            r@.to_set() == self@.dom(),
    {
        let mut r: Vec<PlayerId> = Vec::new();
        let mut i: usize = 0;
        while i < self.entries.len()
            invariant
                self.wf(),
                i <= self.entries@.len(),
                r@.len() == i,
                forall|j: int| 0 <= j < i ==> #[trigger] r@[j] == self.entries@[j].0,
            decreases self.entries@.len() - i,
        {
            r.push(self.entries[i].0);
            i = i + 1;
        }
        proof {
            let e = self.entries@;
            assert forall|a: int, b: int| 0 <= a < r@.len() && 0 <= b < r@.len() && a != b implies r@[a]
                != r@[b] by {
                assert(e[a].0 != e[b].0);
            }
            assert forall|k: PlayerId| self@.dom().contains(k) implies r@.to_set().contains(k) by {
                let j = choose|j: int| 0 <= j < e.len() && e[j].0 == k;
                assert(r@[j] == k);
            }
            assert forall|k: PlayerId| r@.to_set().contains(k) implies self@.dom().contains(k) by {
                let j = choose|j: int| 0 <= j < r@.len() && r@[j] == k;
                assert(self@.contains_key(e[j].0));
            }
            assert(r@.to_set() =~= self@.dom());
        }
        r
    }
}

} // verus!
