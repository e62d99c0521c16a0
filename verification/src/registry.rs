//! The subscription registry: the single-owner table from subscription
//! identifier to caller sink. Only the connection worker touches it, so it
//! needs no locking; its view is the mathematical map from identifier to
//! sink.

use vstd::prelude::*;

verus! {

/// A 128-bit subscription identifier, as carried in every frame header.
#[derive(Clone, Copy, Debug, PartialEq, Eq, Structural)]
pub struct MsgId(pub u128);

/// The identifier-to-sink table. `S` is the caller-sink handle; the
/// registry never looks inside it.
pub struct Registry<S> {
    entries: Vec<(MsgId, S)>,
}

/// The map an entry list denotes, later entries winning.
pub open spec fn map_of<S>(es: Seq<(MsgId, S)>) -> Map<u128, S>
    decreases es.len(),
{
    if es.len() == 0 {
        Map::empty()
    } else {
        map_of(es.drop_last()).insert(es.last().0.0, es.last().1)
    }
}

pub open spec fn keys_distinct<S>(es: Seq<(MsgId, S)>) -> bool {
    forall|i: int, j: int| 0 <= i < j < es.len() ==> es[i].0.0 != es[j].0.0
}

/// A key is in the map exactly when some entry carries it.
pub proof fn lemma_map_of_contains<S>(es: Seq<(MsgId, S)>, k: u128)
    ensures
        map_of(es).contains_key(k) <==> exists|i: int| 0 <= i < es.len() && es[i].0.0 == k,
    decreases es.len(),
{
    if es.len() > 0 {
        lemma_map_of_contains(es.drop_last(), k);
        if es.last().0.0 == k {
            assert(es[es.len() - 1].0.0 == k);
        } else if map_of(es).contains_key(k) {
            let i = choose|i: int| 0 <= i < es.drop_last().len() && es.drop_last()[i].0.0 == k;
            assert(es[i].0.0 == k);
        } else {
            assert(forall|i: int|
                0 <= i < es.len() - 1 ==> es.drop_last()[i] == #[trigger] es[i]);
        }
    }
}

/// With distinct keys, the map reads each entry's own sink.
pub proof fn lemma_map_of_index<S>(es: Seq<(MsgId, S)>, i: int)
    requires
        keys_distinct(es),
        0 <= i < es.len(),
    ensures
        map_of(es).contains_key(es[i].0.0),
        map_of(es)[es[i].0.0] == es[i].1,
    decreases es.len(),
{
    lemma_map_of_contains(es, es[i].0.0);
    if i == es.len() - 1 {
    } else {
        assert(es.drop_last()[i] == es[i]);
        assert(keys_distinct(es.drop_last())) by {
            assert(forall|a: int, b: int|
                0 <= a < b < es.len() - 1 ==> es.drop_last()[a] == #[trigger] es[a]
                    && es.drop_last()[b] == #[trigger] es[b]);
        }
        lemma_map_of_index(es.drop_last(), i);
        assert(es.last().0.0 != es[i].0.0);
    }
}

/// Removing the entry that carries a key removes just that key.
pub proof fn lemma_map_of_remove<S>(es: Seq<(MsgId, S)>, i: int)
    requires
        keys_distinct(es),
        0 <= i < es.len(),
    ensures
        map_of(es.remove(i)) == map_of(es).remove(es[i].0.0),
    decreases es.len(),
{
    let k = es[i].0.0;
    if i == es.len() - 1 {
        assert(es.remove(i) =~= es.drop_last());
        lemma_map_of_contains(es.drop_last(), k);
        assert(forall|a: int| 0 <= a < es.len() - 1 ==> es.drop_last()[a] == #[trigger] es[a]);
        assert(!map_of(es.drop_last()).contains_key(k));
        assert(map_of(es).remove(k) =~= map_of(es.drop_last()));
    } else {
        assert(keys_distinct(es.drop_last())) by {
            assert(forall|a: int, b: int|
                0 <= a < b < es.len() - 1 ==> es.drop_last()[a] == #[trigger] es[a]
                    && es.drop_last()[b] == #[trigger] es[b]);
        }
        assert(es.drop_last()[i] == es[i]);
        lemma_map_of_remove(es.drop_last(), i);
        assert(es.remove(i).drop_last() =~= es.drop_last().remove(i));
        assert(es.remove(i).last() == es.last());
        assert(map_of(es.remove(i)) == map_of(es.drop_last().remove(i)).insert(
            es.last().0.0,
            es.last().1,
        ));
        assert(es.last().0.0 != k);
        assert(map_of(es.drop_last()).remove(k).insert(es.last().0.0, es.last().1)
            =~= map_of(es.drop_last()).insert(es.last().0.0, es.last().1).remove(k));
    }
}

/// Appending an entry inserts its key.
pub proof fn lemma_map_of_push<S>(es: Seq<(MsgId, S)>, id: MsgId, sink: S)
    ensures
        map_of(es.push((id, sink))) == map_of(es).insert(id.0, sink),
{
    assert(es.push((id, sink)).drop_last() =~= es);
    assert(es.push((id, sink)).last() == (id, sink));
}

impl<S> Registry<S> {
    pub closed spec fn view(&self) -> Map<u128, S> {
        map_of(self.entries@)
    }

    /// The registry's own invariant: one entry per identifier.
    pub closed spec fn wf(&self) -> bool {
        keys_distinct(self.entries@)
    }

    pub closed spec fn spec_len(&self) -> nat {
        self.entries@.len()
    }

    pub fn new() -> (r: Self)
        ensures
            r.wf(),
            r@ == Map::<u128, S>::empty(),
            r.spec_len() == 0,
    {
        Registry { entries: Vec::new() }
    }

    pub fn len(&self) -> (r: usize)
        ensures
            r == self.spec_len(),
    {
        self.entries.len()
    }

    /// Index of the entry holding `id`, if any.
    fn find(&self, id: MsgId) -> (r: Option<usize>)
        requires
            self.wf(),
        ensures
            match r {
                Some(i) => i < self.entries@.len() && self.entries@[i as int].0.0 == id.0
                    && self@.contains_key(id.0) && self@[id.0] == self.entries@[i as int].1,
                None => !self@.contains_key(id.0),
            },
    {
        let mut i: usize = 0;
        while i < self.entries.len()
            invariant
                0 <= i <= self.entries@.len(),
                self.wf(),
                forall|j: int| 0 <= j < i ==> self.entries@[j].0.0 != id.0,
            decreases self.entries@.len() - i,
        {
            if self.entries[i].0.0 == id.0 {
                proof {
                    lemma_map_of_index(self.entries@, i as int);
                }
                return Some(i);
            }
            i = i + 1;
        }
        proof {
            lemma_map_of_contains(self.entries@, id.0);
        }
        None
    }

    /// Registers `sink` under `id`, handing back a previously registered
    /// sink if the identifier was already taken: registration replaces.
    pub fn insert(&mut self, id: MsgId, sink: S) -> (prior: Option<S>)
        requires
            old(self).wf(),
        ensures
            final(self).wf(),
            final(self)@ == old(self)@.insert(id.0, sink),
            match prior {
                Some(s) => old(self)@.contains_key(id.0) && s == old(self)@[id.0],
                None => !old(self)@.contains_key(id.0),
            },
    {
        match self.find(id) {
            Some(i) => {
                let (_, prior_sink) = self.entries.remove(i);
                proof {
                    lemma_map_of_remove(old(self).entries@, i as int);
                }
                self.entries.insert(i, (id, sink));
                proof {
                    let es0 = old(self).entries@;
                    let es2 = self.entries@;
                    assert(es2 =~= es0.update(i as int, (id, sink)));
                    lemma_map_of_update(es0, i as int, id, sink);
                    assert(forall|a: int, b: int|
                        0 <= a < b < es2.len() ==> es2[a].0.0 == es0.update(
                            i as int,
                            (id, sink),
                        )[a].0.0 && es2[b].0.0 == es0.update(i as int, (id, sink))[b].0.0);
                    assert(keys_distinct(es2)) by {
                        assert(forall|a: int|
                            0 <= a < es2.len() && a != i ==> #[trigger] es2[a].0.0
                                == es0[a].0.0);
                    }
                }
                Some(prior_sink)
            },
            None => {
                self.entries.push((id, sink));
                proof {
                    lemma_map_of_push(old(self).entries@, id, sink);
                    lemma_map_of_contains(old(self).entries@, id.0);
                    let es2 = self.entries@;
                    assert(keys_distinct(es2)) by {
                        assert(forall|a: int|
                            0 <= a < es2.len() - 1 ==> #[trigger] es2[a]
                                == old(self).entries@[a]);
                    }
                }
                None
            },
        }
    }

    /// The sink registered under `id`, if any.
    pub fn lookup(&self, id: MsgId) -> (r: Option<&S>)
        requires
            self.wf(),
        ensures
            match r {
                Some(s) => self@.contains_key(id.0) && *s == self@[id.0],
                None => !self@.contains_key(id.0),
            },
    {
        match self.find(id) {
            Some(i) => Some(&self.entries[i].1),
            None => None,
        }
    }

    /// Removes the entry under `id`; on a terminal frame, dropping the
    /// returned sink closes the caller's stream.
    pub fn remove(&mut self, id: MsgId) -> (r: Option<S>)
        requires
            old(self).wf(),
        ensures
            final(self).wf(),
            final(self)@ == old(self)@.remove(id.0),
            match r {
                Some(s) => old(self)@.contains_key(id.0) && s == old(self)@[id.0],
                None => !old(self)@.contains_key(id.0) && final(self)@ == old(self)@,
            },
    {
        match self.find(id) {
            Some(i) => {
                let (_, sink) = self.entries.remove(i);
                proof {
                    lemma_map_of_remove(old(self).entries@, i as int);
                    let es0 = old(self).entries@;
                    let es2 = self.entries@;
                    assert(es2 =~= es0.remove(i as int));
                    assert(keys_distinct(es2)) by {
                        assert(forall|a: int|
                            0 <= a < es2.len() ==> #[trigger] es2[a] == if a < i {
                                es0[a]
                            } else {
                                es0[a + 1]
                            });
                    }
                }
                Some(sink)
            },
            None => {
                proof {
                    assert(final(self)@ =~= old(self)@.remove(id.0));
                }
                None
            },
        }
    }

    /// Empties the registry, handing every entry out; used when a fatal
    /// transport error must reach every live caller.
    pub fn drain(&mut self) -> (r: Vec<(MsgId, S)>)
        requires
            old(self).wf(),
        ensures
            final(self).wf(),
            final(self)@ == Map::<u128, S>::empty(),
            keys_distinct(r@),
            forall|i: int|
                0 <= i < r@.len() ==> old(self)@.contains_key(#[trigger] r@[i].0.0)
                    && old(self)@[r@[i].0.0] == r@[i].1,
            r@.len() == old(self).spec_len(),
    {
        let mut out: Vec<(MsgId, S)> = Vec::new();
        core::mem::swap(&mut self.entries, &mut out);
        proof {
            assert forall|i: int| 0 <= i < out@.len() implies old(self)@.contains_key(
                #[trigger] out@[i].0.0,
            ) && old(self)@[out@[i].0.0] == out@[i].1 by {
                lemma_map_of_index(out@, i);
            }
        }
        out
    }
}

/// Replacing an entry's sink updates just its key.
pub proof fn lemma_map_of_update<S>(es: Seq<(MsgId, S)>, i: int, id: MsgId, sink: S)
    requires
        keys_distinct(es),
        0 <= i < es.len(),
        es[i].0.0 == id.0,
    ensures
        map_of(es.update(i, (id, sink))) == map_of(es).insert(id.0, sink),
    decreases es.len(),
{
    if i == es.len() - 1 {
        assert(es.update(i, (id, sink)).drop_last() =~= es.drop_last());
        assert(es.update(i, (id, sink)).last() == (id, sink));
        assert(map_of(es).insert(id.0, sink) =~= map_of(es.drop_last()).insert(id.0, sink));
    } else {
        assert(keys_distinct(es.drop_last())) by {
            assert(forall|a: int, b: int|
                0 <= a < b < es.len() - 1 ==> es.drop_last()[a] == #[trigger] es[a]
                    && es.drop_last()[b] == #[trigger] es[b]);
        }
        assert(es.drop_last()[i] == es[i]);
        lemma_map_of_update(es.drop_last(), i, id, sink);
        assert(es.update(i, (id, sink)).drop_last() =~= es.drop_last().update(i, (id, sink)));
        assert(es.update(i, (id, sink)).last() == es.last());
        assert(es.last().0.0 != id.0);
        assert(map_of(es.drop_last()).insert(id.0, sink).insert(es.last().0.0, es.last().1)
            =~= map_of(es.drop_last()).insert(es.last().0.0, es.last().1).insert(id.0, sink));
    }
}

} // verus!
