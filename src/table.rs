use vstd::prelude::*;

use crate::endpoint::Endpoint;

verus! {

/// The open stream connections of a node, keyed by remote endpoint: at most
/// one entry for each endpoint.
///
/// `S` is the handle through which a stream is written. Every table that
/// these functions build is well formed ([`SocketTable::wf`]).
pub struct SocketTable<S> {
    entries: Vec<(Endpoint, S)>,
}

impl<S> SocketTable<S> {
    /// The entries, in the order in which the table keeps them.
    pub closed spec fn entries(&self) -> Seq<(Endpoint, S)> {
        self.entries@
    }

    /// Well-formed: no two entries share an endpoint.
    pub closed spec fn wf(&self) -> bool {
        forall|i: int, j: int|
            0 <= i < self.entries@.len() && 0 <= j < self.entries@.len() && i != j
                ==> #[trigger] self.entries@[i].0 != #[trigger] self.entries@[j].0
    }

    /// Whether the table has an entry for `remote`.
    pub open spec fn has_entry(&self, remote: Endpoint) -> bool {
        exists|i: int| 0 <= i < self.entries().len() && #[trigger] self.entries()[i].0 == remote
    }

    /// Whether the table has one entry for `remote`, and one only.
    pub open spec fn has_single_entry(&self, remote: Endpoint) -> bool {
        exists|i: int|
            0 <= i < self.entries().len() && #[trigger] self.entries()[i].0 == remote && forall|
                j: int,
            |
                0 <= j < self.entries().len() && #[trigger] self.entries()[j].0 == remote ==> j
                    == i
    }

    /// The table as a map from remote endpoint to stream.
    pub open spec fn view(&self) -> Map<Endpoint, S> {
        Map::new(
            |e: Endpoint| self.has_entry(e),
            |e: Endpoint|
                self.entries()[choose|i: int|
                    0 <= i < self.entries().len() && #[trigger] self.entries()[i].0 == e].1,
        )
    }

    proof fn lemma_entries_single(&self, remote: Endpoint)
        requires
            self.wf(),
            self.has_entry(remote),
        ensures
            self.has_single_entry(remote),
    {
        let i = choose|i: int| 0 <= i < self.entries().len() && #[trigger] self.entries()[i].0 == remote;
        assert(self.entries()[i].0 == remote);
    }

    /// An empty table.
    pub fn new() -> (r: SocketTable<S>)
        ensures
            r.wf(),
            r@ == Map::<Endpoint, S>::empty(),
            r.entries().len() == 0,
    {
        let r = SocketTable { entries: Vec::new() };
        assert(r@ =~= Map::<Endpoint, S>::empty());
        r
    }

    /// The number of entries.
    pub fn len(&self) -> (r: usize)
        requires
            self.wf(),
        ensures
            r == self.entries().len(),
            r == self@.dom().len(),
    {
        proof {
            self.lemma_dom_len();
        }
        self.entries.len()
    }

    proof fn lemma_dom_len(&self)
        requires
            self.wf(),
        ensures
            self@.dom().len() == self.entries().len(),
            self@.dom().finite(),
    {
        let keys = self.entries().map_values(|p: (Endpoint, S)| p.0);
        assert forall|i: int, j: int| 0 <= i < keys.len() && 0 <= j < keys.len() && i != j
            implies keys[i] != keys[j] by {
            assert(self.entries@[i].0 != self.entries@[j].0);
        }
        assert(keys.no_duplicates());
        keys.unique_seq_to_set();
        assert forall|e: Endpoint| #[trigger] self@.dom().contains(e) <==> keys.to_set().contains(e) by {
            if self@.dom().contains(e) {
                let i = choose|i: int| 0 <= i < self.entries().len() && #[trigger] self.entries()[i].0 == e;
                assert(keys[i] == e);
            }
            if keys.to_set().contains(e) {
                let i = choose|i: int| 0 <= i < keys.len() && keys[i] == e;
                assert(self.entries()[i].0 == e);
            }
        }
        assert(self@.dom() =~= keys.to_set());
    }

    /// The index of the entry for `remote`, if there is one.
    fn find(&self, remote: &Endpoint) -> (r: Option<usize>)
        ensures
            match r {
                Some(i) => i < self.entries().len() && self.entries()[i as int].0 == *remote,
                None => !self.has_entry(*remote),
            },
    {
        let mut i: usize = 0;
        while i < self.entries.len()
            invariant
                0 <= i <= self.entries@.len(),
                forall|j: int| 0 <= j < i ==> #[trigger] self.entries@[j].0 != *remote,
            decreases self.entries.len() - i,
        {
            if self.entries[i].0 == *remote {
                return Some(i);
            }
            i = i + 1;
        }
        None
    }

    proof fn lemma_view_at(&self, i: int)
        requires
            self.wf(),
            0 <= i < self.entries().len(),
        ensures
            self@.contains_key(self.entries()[i].0),
            self@[self.entries()[i].0] == self.entries()[i].1,
    {
        let e = self.entries()[i].0;
        let k = choose|k: int| 0 <= k < self.entries().len() && #[trigger] self.entries()[k].0 == e;
        assert(self.entries@[k].0 == self.entries@[i].0);
    }

    /// The stream for `remote`, if the table has one.
    pub fn get(&self, remote: &Endpoint) -> (r: Option<&S>)
        requires
            self.wf(),
        ensures
            match r {
                Some(s) => self@.contains_key(*remote) && *s == self@[*remote],
                None => !self@.contains_key(*remote),
            },
    {
        match self.find(remote) {
            Some(i) => {
                proof {
                    self.lemma_view_at(i as int);
                }
                Some(&self.entries[i].1)
            },
            None => None,
        }
    }

    /// Stores `stream` as the one entry for `remote`, and hands back the
    /// stream that it replaces.
    pub fn insert(&mut self, remote: Endpoint, stream: S) -> (r: Option<S>)
        requires
            old(self).wf(),
        ensures
            final(self).wf(),
            final(self)@ == old(self)@.insert(remote, stream),
            final(self).has_single_entry(remote),
            match r {
                Some(s) => old(self)@.contains_key(remote) && s == old(self)@[remote],
                None => !old(self)@.contains_key(remote),
            },
    {
        let previous = self.remove(&remote);
        let ghost mid = self.entries@;
        let ghost removed = *self;
        assert(!self.has_entry(remote)) by {
            assert(!self@.dom().contains(remote));
        }
        assert(forall|k: int| 0 <= k < mid.len() ==> #[trigger] mid[k].0 != remote);
        self.entries.push((remote, stream));
        assert(self.entries@ == mid.push((remote, stream)));
        proof {
            assert forall|i: int, j: int|
                0 <= i < self.entries@.len() && 0 <= j < self.entries@.len() && i != j
                    implies #[trigger] self.entries@[i].0 != #[trigger] self.entries@[j].0 by {
                if i < mid.len() && j < mid.len() {
                    assert(mid[i].0 != mid[j].0);
                } else if i < mid.len() {
                    assert(self.entries@[i] == mid[i]);
                } else {
                    assert(self.entries@[j] == mid[j]);
                }
            }
            let n = mid.len() as int;
            assert(self.entries()[n].0 == remote);
            assert(self.has_entry(remote));
            self.lemma_entries_single(remote);
            self.lemma_view_at(n);
            assert forall|e: Endpoint| e != remote implies #[trigger] self@.contains_key(e)
                == removed@.contains_key(e) && (self@.contains_key(e) ==> self@[e]
                == removed@[e]) by {
                if self@.contains_key(e) {
                    let k = choose|k: int|
                        0 <= k < self.entries().len() && #[trigger] self.entries()[k].0 == e;
                    assert(k < n);
                    assert(self.entries@[k] == mid[k]);
                    self.lemma_view_at(k);
                    removed.lemma_view_at(k);
                }
                if removed@.contains_key(e) {
                    let k = choose|k: int|
                        0 <= k < removed.entries().len() && #[trigger] removed.entries()[k].0 == e;
                    assert(self.entries@[k] == mid[k]);
                    assert(self.entries()[k].0 == e);
                }
            }
            assert(self@ =~= old(self)@.insert(remote, stream));
        }
        previous
    }

    /// Takes the entry for `remote` out of the table and hands back its stream.
    pub fn remove(&mut self, remote: &Endpoint) -> (r: Option<S>)
        requires
            old(self).wf(),
        ensures
            final(self).wf(),
            final(self)@ == old(self)@.remove(*remote),
            match r {
                Some(s) => old(self)@.contains_key(*remote) && s == old(self)@[*remote],
                None => !old(self)@.contains_key(*remote) && final(self)@ == old(self)@,
            },
    {
        match self.find(remote) {
            Some(i) => {
                proof {
                    self.lemma_view_at(i as int);
                }
                let ghost before = *self;
                let (_, stream) = self.entries.remove(i);
                proof {
                    assert forall|a: int, b: int|
                        0 <= a < self.entries@.len() && 0 <= b < self.entries@.len() && a != b
                            implies #[trigger] self.entries@[a].0 != #[trigger] self.entries@[b].0 by {
                        let ab = if a < i { a } else { a + 1 };
                        let bb = if b < i { b } else { b + 1 };
                        assert(before.entries@[ab] == self.entries@[a]);
                        assert(before.entries@[bb] == self.entries@[b]);
                    }
                    assert forall|e: Endpoint| #[trigger] self@.contains_key(e) == (before@.contains_key(e)
                        && e != *remote) && (self@.contains_key(e) ==> self@[e] == before@[e]) by {
                        if self@.contains_key(e) {
                            let k = choose|k: int|
                                0 <= k < self.entries().len() && #[trigger] self.entries()[k].0 == e;
                            let kb = if k < i { k } else { k + 1 };
                            assert(before.entries()[kb] == self.entries()[k]);
                            before.lemma_view_at(kb);
                            self.lemma_view_at(k);
                            assert(before.entries@[kb].0 != before.entries@[i as int].0);
                        }
                        if before@.contains_key(e) && e != *remote {
                            let kb = choose|k: int|
                                0 <= k < before.entries().len() && #[trigger] before.entries()[k].0 == e;
                            let k = if kb < i { kb } else { kb - 1 };
                            assert(kb != i);
                            assert(before.entries()[kb] == self.entries()[k]);
                        }
                    }
                    assert(self@ =~= old(self)@.remove(*remote));
                }
                Some(stream)
            },
            None => {
                assert(self@ =~= old(self)@.remove(*remote));
                None
            },
        }
    }
}

} // verus!
