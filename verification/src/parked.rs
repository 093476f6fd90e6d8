//! Deferred realization: a built value parked under the id of a handle the asset store has
//! reserved for it, and moved into the store only when something bound to that handle is drawn.
//!
//! The store itself is the app's; what the table decides is here. [`Parked::realize`] and
//! [`Parked::realize_visible`] answer from the table and from what the store holds — a flag
//! the app reads off the store — and hand back the values the app then inserts.

use std::collections::HashMap;
use vstd::prelude::*;

verus! {

broadcast use vstd::std_specs::hash::group_hash_axioms;

/// What [`Parked::realize`] answers.
pub enum Realized<A> {
    /// The store already holds the asset.
    InStore,
    /// The value was parked: it leaves the table, for the app to insert.
    Insert(A),
    /// The table never saw the id and the store lacks it.
    Unknown,
}

/// The walk over bound handles `(id, visible, in the store)`: every visible-or-unlaned binding
/// whose asset the store lacks takes its value out of the table, first binding first. Answers
/// the table left and the values taken, in binding order.
pub open spec fn visible_walk<A>(t: Map<u64, A>, bound: Seq<(u64, Option<bool>, bool)>) -> (Map<
    u64,
    A,
>, Seq<(u64, A)>)
    decreases bound.len(),
{
    if bound.len() == 0 {
        (t, Seq::empty())
    } else {
        let (t0, taken) = visible_walk(t, bound.drop_last());
        let (id, visible, present) = bound.last();
        if visible != Some(false) && !present && t0.contains_key(id) {
            (t0.remove(id), taken.push((id, t0[id])))
        } else {
            (t0, taken)
        }
    }
}

/// The parked values of one asset type: built, handle reserved, not yet in the store.
pub struct Parked<A> {
    values: HashMap<u64, A>,
}

impl<A> Parked<A> {
    /// The parked values by reserved id.
    pub closed spec fn table(&self) -> Map<u64, A> {
        self.values@
    }

    /// An empty table.
    pub fn new() -> (p: Self)
        ensures
            p.table() == Map::<u64, A>::empty(),
    {
        Parked { values: HashMap::new() }
    }

    /// Park `asset` under the id of the handle the store reserved for it (a value parked under
    /// the id before is replaced).
    pub fn defer(&mut self, id: u64, asset: A)
        ensures
            final(self).table() == old(self).table().insert(id, asset),
    {
        let _ = self.values.insert(id, asset);
    }

    /// `realize(id)`: with `in_store` whether the store holds the asset behind `id`. The app
    /// answers `true` for `InStore`, `false` for `Unknown`, and for `Insert` whether the store
    /// took the value.
    pub fn realize(&mut self, id: u64, in_store: bool) -> (r: Realized<A>)
        ensures
            in_store ==> r is InStore && final(self).table() == old(self).table(),
            !in_store && old(self).table().contains_key(id) ==> r == Realized::Insert(
                old(self).table()[id],
            ) && final(self).table() == old(self).table().remove(id),
            !in_store && !old(self).table().contains_key(id) ==> r is Unknown && final(self).table()
                == old(self).table(),
    {
        if in_store {
            return Realized::InStore;
        }
        match self.values.remove(&id) {
            Some(a) => Realized::Insert(a),
            None => {
                assert(old(self).table().remove(id) =~= old(self).table());
                Realized::Unknown
            },
        }
    }

    /// Every parked value, for the app to insert: the table is left empty.
    pub fn realize_all(&mut self) -> (all: HashMap<u64, A>)
        ensures
            final(self).table() == Map::<u64, A>::empty(),
            all@ == old(self).table(),
    {
        let mut all: HashMap<u64, A> = HashMap::new();
        std::mem::swap(&mut all, &mut self.values);
        all
    }

    /// The store reported `id` unused: its parked value goes.
    pub fn purge(&mut self, id: u64)
        ensures
            final(self).table() == old(self).table().remove(id),
    {
        let _ = self.values.remove(&id);
    }

    /// The walk over bound handles, each `(id, visible, whether the store holds it)` —
    /// `visible` is `None` for a binding not on the visibility lane, which counts as visible.
    /// Answers the values to insert, in binding order.
    pub fn realize_visible(&mut self, bound: &[(u64, Option<bool>, bool)]) -> (taken: Vec<
        (u64, A),
    >)
        ensures
            (final(self).table(), taken@) == visible_walk(old(self).table(), bound@),
    {
        let mut taken: Vec<(u64, A)> = Vec::new();
        let mut k: usize = 0;
        while k < bound.len()
            invariant
                k <= bound@.len(),
                (self.table(), taken@) == visible_walk(old(self).table(), bound@.take(k as int)),
            decreases bound@.len() - k,
        {
            assert(bound@.take(k + 1).drop_last() =~= bound@.take(k as int));
            let (id, visible, present) = bound[k];
            let shown = match visible {
                Some(v) => v,
                None => true,
            };
            if shown && !present {
                let ghost before = self.table();
                match self.values.remove(&id) {
                    Some(a) => {
                        taken.push((id, a));
                    },
                    None => {
                        assert(before.remove(id) =~= before);
                    },
                }
            }
            k = k + 1;
        }
        assert(bound@.take(k as int) =~= bound@);
        taken
    }

    /// How many values are parked.
    pub fn len(&self) -> (n: usize)
        ensures
            self.table().dom().finite(),
            n == self.table().dom().len(),
    {
        self.values.len()
    }

    /// Whether nothing is parked.
    pub fn is_empty(&self) -> (b: bool)
        ensures
            b == (self.table() == Map::<u64, A>::empty()),
    {
        let b = self.values.is_empty();
        proof {
            if b {
                assert(self.table().dom() =~= Set::<u64>::empty());
                assert(self.table() =~= Map::<u64, A>::empty());
            } else {
                let k = choose|k: u64| self.table().dom().contains(k);
                assert(self.table().dom().contains(k));
                assert(!Map::<u64, A>::empty().dom().contains(k));
            }
        }
        b
    }
}

} // verus!
