//! The slot table of the worker dispatcher.
//!
//! A pool has a fixed number of slots, each of which runs at most one task at
//! a time. Submitting a task claims the first slot that is vacant or whose
//! task has reported completion; while every slot runs a task there is none
//! to claim, and the submitter has to wait and ask again. The table records
//! what the dispatcher knows of each slot; the threads themselves belong to
//! the program around it.

use vstd::prelude::*;

verus! {

/// What the dispatcher knows of one slot.
#[derive(Debug, Clone, Copy, PartialEq, Eq, Structural)]
pub enum Slot {
    /// No task was ever installed.
    Vacant,
    /// The installed task has not reported completion.
    Running,
    /// The installed task completed, successfully or not.
    Finished,
}

/// A slot that a new task may be installed in.
pub open spec fn reusable(slot: Slot) -> bool {
    slot != Slot::Running
}

/// `k` is the first reusable slot of the table.
pub open spec fn first_reusable(slots: Seq<Slot>, k: int) -> bool {
    &&& 0 <= k < slots.len()
    &&& reusable(slots[k])
    &&& forall|m: int| 0 <= m < k ==> !reusable(#[trigger] slots[m])
}

/// Every slot of the table runs a task.
pub open spec fn all_running(slots: Seq<Slot>) -> bool {
    forall|m: int| 0 <= m < slots.len() ==> !reusable(#[trigger] slots[m])
}

/// The table of a new pool: `capacity` vacant slots.
pub open spec fn fresh(capacity: nat) -> Seq<Slot> {
    Seq::new(capacity, |i: int| Slot::Vacant)
}

/// One submission: the table behind it and the slot it claimed. With a
/// reusable slot the first of them now runs the task; without, the table is
/// as it was and nothing is claimed.
pub open spec fn claim(slots: Seq<Slot>) -> (Seq<Slot>, Option<int>) {
    if all_running(slots) {
        (slots, None)
    } else {
        let k = choose|k: int| first_reusable(slots, k);
        (slots.update(k, Slot::Running), Some(k))
    }
}

/// The completion of the task in slot `index`: a running slot becomes
/// finished, anything else stays.
pub open spec fn complete(slots: Seq<Slot>, index: int) -> Seq<Slot> {
    if 0 <= index < slots.len() && slots[index] == Slot::Running {
        slots.update(index, Slot::Finished)
    } else {
        slots
    }
}

/// The table after `count` submissions in a row, with no completion between.
pub open spec fn claims(slots: Seq<Slot>, count: nat) -> Seq<Slot>
    decreases count,
{
    if count == 0 {
        slots
    } else {
        claim(claims(slots, (count - 1) as nat)).0
    }
}

/// The first reusable slot is the only first reusable slot, and a table has
/// one unless all its slots run a task.
pub proof fn lemma_claim(slots: Seq<Slot>)
    ensures
        all_running(slots) ==> claim(slots) == (slots, None::<int>),
        forall|k: int|
            first_reusable(slots, k) ==> claim(slots) == (
                slots.update(k, Slot::Running),
                Some(k),
            ),
        !all_running(slots) ==> first_reusable(slots, claim(slots).1->0),
{
    if !all_running(slots) {
        let some = choose|m: int| 0 <= m < slots.len() && reusable(#[trigger] slots[m]);
        lemma_has_first(slots, some);
        let c = choose|k: int| first_reusable(slots, k);
        assert forall|k: int| first_reusable(slots, k) implies k == c by {
            if k < c {
                assert(!reusable(slots[k]));
            }
            if c < k {
                assert(!reusable(slots[c]));
            }
        }
    } else {
        assert forall|k: int| !first_reusable(slots, k) by {
            if 0 <= k < slots.len() {
                assert(!reusable(slots[k]));
            }
        }
    }
}

proof fn lemma_has_first(slots: Seq<Slot>, at: int)
    requires
        0 <= at < slots.len(),
        reusable(slots[at]),
    ensures
        exists|k: int| first_reusable(slots, k),
    decreases at,
{
    if exists|m: int| 0 <= m < at && reusable(#[trigger] slots[m]) {
        let m = choose|m: int| 0 <= m < at && reusable(#[trigger] slots[m]);
        lemma_has_first(slots, m);
    } else {
        assert(first_reusable(slots, at));
    }
}

/// A pool of worker slots.
pub struct Threadpool {
    threads: Vec<Slot>,
}

impl View for Threadpool {
    type V = Seq<Slot>;

    closed spec fn view(&self) -> Seq<Slot> {
        self.threads@
    }
}

impl Threadpool {
    /// A pool of `pool_count` vacant slots. The count never changes.
    pub fn new(pool_count: usize) -> (pool: Threadpool)
        ensures
            pool@ == fresh(pool_count as nat),
    {
        let mut threads: Vec<Slot> = Vec::with_capacity(pool_count);
        let mut k: usize = 0;
        while k < pool_count
            invariant
                k <= pool_count,
                threads@ == fresh(k as nat),
            decreases pool_count - k,
        {
            threads.push(Slot::Vacant);
            assert(threads@ =~= fresh((k + 1) as nat));
            k += 1;
        }
        Threadpool { threads }
    }

    /// The number of slots.
    pub fn capacity(&self) -> (count: usize)
        ensures
            count == self@.len(),
    {
        self.threads.len()
    }

    /// What the pool knows of slot `index`; `None` behind the last slot.
    pub fn slot(&self, index: usize) -> (slot: Option<Slot>)
        ensures
            slot == if index < self@.len() {
                Some(self@[index as int])
            } else {
                None
            },
    {
        if index < self.threads.len() {
            Some(self.threads[index])
        } else {
            None
        }
    }

    /// Records that the task in slot `index` reported completion, whether it
    /// succeeded or failed. The slot can be claimed again.
    pub fn finished(&mut self, index: usize)
        ensures
            final(self)@ == complete(old(self)@, index as int),
            final(self)@.len() == old(self)@.len(),
    {
        if index < self.threads.len() {
            if self.threads[index] == Slot::Running {
                self.threads.set(index, Slot::Finished);
            }
        }
    }

    /// Submits one task: claims the first reusable slot and returns its
    /// index, where the caller installs the task. `None` means that every
    /// slot runs a task: the caller waits for a completion and asks again.
    pub fn execute(&mut self) -> (slot: Option<usize>)
        ensures
            slot is None <==> all_running(old(self)@),
            match slot {
                Some(k) => first_reusable(old(self)@, k as int) && claim(old(self)@) == (
                    final(self)@,
                    Some(k as int),
                ),
                None => claim(old(self)@) == (final(self)@, None::<int>),
            },
            final(self)@.len() == old(self)@.len(),
    {
        proof {
            lemma_claim(self@);
        }
        let mut k: usize = 0;
        while k < self.threads.len()
            invariant
                k <= self.threads.len(),
                self.threads@ == old(self).threads@,
                forall|m: int| 0 <= m < k ==> !reusable(#[trigger] self.threads@[m]),
            decreases self.threads.len() - k,
        {
            if self.threads[k] != Slot::Running {
                self.threads.set(k, Slot::Running);
                return Some(k);
            }
            k += 1;
        }
        None
    }
}

/// The table with its first `count` slots running and the others vacant.
pub open spec fn busy_prefix(capacity: nat, count: nat) -> Seq<Slot> {
    Seq::new(
        capacity,
        |i: int|
            if i < count {
                Slot::Running
            } else {
                Slot::Vacant
            },
    )
}

/// Submissions to a new pool fill its slots in order: the first `count`
/// submissions, `count` no more than the capacity, claim the slots
/// `0..count`.
pub proof fn lemma_claims_fill_in_order(capacity: nat, count: nat)
    requires
        count <= capacity,
    ensures
        claims(fresh(capacity), count) == busy_prefix(capacity, count),
        count < capacity ==> claim(claims(fresh(capacity), count)).1 == Some(count as int),
    decreases count,
{
    if count == 0 {
        assert(fresh(capacity) =~= busy_prefix(capacity, 0));
    } else {
        lemma_claims_fill_in_order(capacity, (count - 1) as nat);
        let before = busy_prefix(capacity, (count - 1) as nat);
        assert(first_reusable(before, count - 1));
        lemma_claim(before);
        assert(before.update(count - 1, Slot::Running) =~= busy_prefix(capacity, count));
    }
    let now = busy_prefix(capacity, count);
    if count < capacity {
        assert(first_reusable(now, count as int));
        lemma_claim(now);
    }
}

/// A pool is full after as many submissions as it has slots: one more
/// submission claims nothing and changes nothing, for as long as no task
/// completes; once the task of a slot completes, it claims that slot.
pub proof fn lemma_full_pool_blocks(capacity: nat, index: int)
    requires
        0 <= index < capacity,
    ensures
        all_running(claims(fresh(capacity), capacity)),
        claim(claims(fresh(capacity), capacity)) == (
            claims(fresh(capacity), capacity),
            None::<int>,
        ),
        claim(complete(claims(fresh(capacity), capacity), index)).1 == Some(index),
{
    lemma_claims_fill_in_order(capacity, capacity);
    let full = busy_prefix(capacity, capacity);
    lemma_claim(full);
    let freed = complete(full, index);
    assert(first_reusable(freed, index));
    lemma_claim(freed);
}

} // verus!
