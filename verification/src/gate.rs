//! The concurrency gate: admission control over simultaneous dispatches.

use vstd::prelude::*;
use crate::object_id::ObjectId;

verus! {

/// The test that `released` applies to each holder.
pub open spec fn other_holder(id: ObjectId) -> spec_fn(ObjectId) -> bool {
    |holder: ObjectId| holder != id
}

/// The holders of slots once `id` has given its slot back.
pub open spec fn released(holders: Seq<ObjectId>, id: ObjectId) -> Seq<ObjectId> {
    holders.filter(other_holder(id))
}

/// A counting gate with a fixed number of slots. A dispatch takes a slot, in
/// the name of its task, before it starts and gives it back when it has
/// finished, so the number of dispatches under way never exceeds the number
/// of slots, and no task is dispatched twice at a time.
#[derive(Debug)]
pub struct DispatchGate {
    limit: usize,
    holders: Vec<ObjectId>,
}

impl DispatchGate {
    /// Number of slots.
    pub closed spec fn spec_limit(&self) -> nat {
        self.limit as nat
    }

    /// The tasks that hold a slot, in the order in which they took it.
    pub closed spec fn spec_holders(&self) -> Seq<ObjectId> {
        self.holders@
    }

    /// What holds of every gate: it has a slot, no more slots are taken than
    /// it has, and no task holds two.
    pub open spec fn wf(&self) -> bool {
        &&& 1 <= self.spec_limit()
        &&& self.spec_holders().len() <= self.spec_limit()
        &&& self.spec_holders().no_duplicates()
    }

    /// A gate with `limit` free slots; `None` where `limit` is zero.
    pub fn new(limit: usize) -> (gate: Option<DispatchGate>)
        ensures
            gate.is_some() <==> limit >= 1,
            gate matches Some(g) ==> {
                &&& g.wf()
                &&& g.spec_limit() == limit
                &&& g.spec_holders() == Seq::<ObjectId>::empty()
            },
    {
        if limit == 0 {
            None
        } else {
            Some(DispatchGate { limit, holders: Vec::new() })
        }
    }

    /// Number of slots.
    pub fn limit(&self) -> (limit: usize)
        ensures
            limit == self.spec_limit(),
    {
        self.limit
    }

    /// Number of slots taken.
    pub fn active(&self) -> (active: usize)
        ensures
            active == self.spec_holders().len(),
    {
        self.holders.len()
    }

    /// Position at which `id` holds a slot.
    fn position(&self, id: &ObjectId) -> (found: Option<usize>)
        ensures
            found.is_some() <==> self.spec_holders().contains(*id),
            found matches Some(i) ==> i < self.spec_holders().len() && self.spec_holders()[i as int]
                == *id,
    {
        let mut i: usize = 0;
        while i < self.holders.len()
            invariant
                i <= self.holders.len(),
                forall|j: int| 0 <= j < i ==> self.holders@[j] != *id,
            decreases self.holders.len() - i,
        {
            if self.holders[i] == *id {
                return Some(i);
            }
            i += 1;
        }
        None
    }

    /// Whether `id` holds a slot.
    pub fn holds(&self, id: &ObjectId) -> (held: bool)
        ensures
            held == self.spec_holders().contains(*id),
    {
        self.position(id).is_some()
    }

    /// Takes a slot for `id` if one is free and `id` holds none, and tells
    /// whether it did.
    pub fn try_acquire(&mut self, id: ObjectId) -> (taken: bool)
        requires
            old(self).wf(),
        ensures
            final(self).wf(),
            final(self).spec_limit() == old(self).spec_limit(),
            taken == (old(self).spec_holders().len() < old(self).spec_limit() && !old(
                self,
            ).spec_holders().contains(id)),
            final(self).spec_holders() == if taken {
                old(self).spec_holders().push(id)
            } else {
                old(self).spec_holders()
            },
    {
        if self.holders.len() < self.limit && self.position(&id).is_none() {
            self.holders.push(id);
            true
        } else {
            false
        }
    }

    /// Gives the slot of `id` back if it holds one, and tells whether it
    /// did.
    pub fn release(&mut self, id: &ObjectId) -> (given: bool)
        requires
            old(self).wf(),
        ensures
            final(self).wf(),
            final(self).spec_limit() == old(self).spec_limit(),
            given == old(self).spec_holders().contains(*id),
            final(self).spec_holders() == released(old(self).spec_holders(), *id),
            given ==> final(self).spec_holders().len() + 1 == old(self).spec_holders().len(),
            !given ==> final(self).spec_holders() == old(self).spec_holders(),
    {
        match self.position(id) {
            Some(i) => {
                let _holder: ObjectId = self.holders.remove(i);
                proof {
                    lemma_release_removes(old(self).holders@, *id, i as int);
                }
                true
            },
            None => {
                proof {
                    lemma_release_absent(self.holders@, *id);
                }
                false
            },
        }
    }
}

/// A task that holds no slot has none to give back.
pub proof fn lemma_release_absent(holders: Seq<ObjectId>, id: ObjectId)
    requires
        !holders.contains(id),
    ensures
        released(holders, id) == holders,
    decreases holders.len(),
{
    reveal(Seq::filter);
    if holders.len() > 0 {
        let front = holders.drop_last();
        assert forall|i: int| 0 <= i < front.len() implies front[i] != id by {
            assert(holders[i] == front[i]);
            assert(holders.contains(holders[i]));
        }
        assert(!front.contains(id));
        lemma_release_absent(front, id);
        assert(holders.contains(holders[holders.len() - 1]));
        assert(front.push(holders.last()) =~= holders);
    }
}

/// Where no task holds two slots, giving the slot of `id` back takes away
/// the one position at which `id` stands, and no task holds two afterwards.
pub proof fn lemma_release_removes(holders: Seq<ObjectId>, id: ObjectId, at: int)
    requires
        holders.no_duplicates(),
        0 <= at < holders.len(),
        holders[at] == id,
    ensures
        released(holders, id) == holders.remove(at),
        holders.remove(at).no_duplicates(),
        !holders.remove(at).contains(id),
    decreases holders.len(),
{
    reveal(Seq::filter);
    let rest = holders.remove(at);
    assert forall|i: int, j: int|
        0 <= i < rest.len() && 0 <= j < rest.len() && i != j implies rest[i] != rest[j] by {
        let a = if i < at {
            i
        } else {
            i + 1
        };
        let b = if j < at {
            j
        } else {
            j + 1
        };
        assert(rest[i] == holders[a]);
        assert(rest[j] == holders[b]);
    }
    assert forall|i: int| 0 <= i < rest.len() implies rest[i] != id by {
        let a = if i < at {
            i
        } else {
            i + 1
        };
        assert(rest[i] == holders[a]);
    }
    let front = holders.drop_last();
    if at == holders.len() - 1 {
        assert(rest =~= front);
        assert(!front.contains(id));
        lemma_release_absent(front, id);
    } else {
        assert(front.no_duplicates()) by {
            assert forall|i: int, j: int|
                0 <= i < front.len() && 0 <= j < front.len() && i != j implies front[i]
                != front[j] by {
                assert(front[i] == holders[i]);
                assert(front[j] == holders[j]);
            }
        }
        assert(front[at] == holders[at]);
        lemma_release_removes(front, id, at);
        assert(holders[holders.len() - 1] != holders[at]);
        assert(rest =~= front.remove(at).push(holders.last()));
    }
}

} // verus!
