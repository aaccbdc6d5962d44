//! The in-flight registry: the identifiers that await a remote response.

use std::collections::HashSet;
use vstd::prelude::*;

verus! {

broadcast use vstd::std_specs::hash::group_hash_axioms;

/// The set of identifiers for which a mutation is outstanding.
#[derive(Debug)]
pub struct InFlight {
    ids: HashSet<u128>,
}

impl View for InFlight {
    type V = Set<u128>;

    closed spec fn view(&self) -> Set<u128> {
        self.ids@
    }
}

impl InFlight {
    /// The registry with nothing outstanding.
    pub fn new() -> (registry: InFlight)
        ensures
            registry@ == Set::<u128>::empty(),
    {
        InFlight { ids: HashSet::new() }
    }

    /// Records that a mutation for `id` is outstanding.
    pub fn mark(&mut self, id: u128)
        ensures
            final(self)@ == old(self)@.insert(id),
    {
        self.ids.insert(id);
    }

    /// Records that the mutation for `id` has been reconciled.
    pub fn clear(&mut self, id: u128)
        ensures
            final(self)@ == old(self)@.remove(id),
    {
        self.ids.remove(&id);
    }

    /// Whether a mutation for `id` is outstanding.
    pub fn is_in_flight(&self, id: u128) -> (outstanding: bool)
        ensures
            outstanding == self@.contains(id),
    {
        self.ids.contains(&id)
    }

    /// Records every identifier of `ids` as outstanding.
    pub fn mark_all(&mut self, ids: &Vec<u128>)
        ensures
            final(self)@ == old(self)@.union(ids@.to_set()),
    {
        let mut i: usize = 0;
        while i < ids.len()
            invariant
                i <= ids.len(),
                self@ == old(self)@.union(ids@.take(i as int).to_set()),
            decreases ids.len() - i,
        {
            self.mark(ids[i]);
            proof {
                let done = ids@.take(i as int);
                let more = ids@.take(i + 1);
                assert(more == done.push(ids@[i as int]));
                assert forall|x: u128| more.to_set().contains(x) <==> (done.to_set().contains(x)
                    || x == ids@[i as int]) by {
                    if more.contains(x) {
                        let k = choose|k: int| 0 <= k < more.len() && more[k] == x;
                        if k < i {
                            assert(done[k] == x);
                        }
                    }
                    if done.contains(x) {
                        let k = choose|k: int| 0 <= k < done.len() && done[k] == x;
                        assert(more[k] == x);
                    }
                    if x == ids@[i as int] {
                        assert(more[i as int] == x);
                    }
                }
                assert(self@ =~= old(self)@.union(more.to_set()));
            }
            i += 1;
        }
        assert(ids@.take(ids.len() as int) =~= ids@);
    }
}

} // verus!
