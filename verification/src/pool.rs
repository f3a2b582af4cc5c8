//! Bounded pool of reusable, exclusively-held handles.
//!
//! The pool owns a fixed number of slots and mediates their checkout and
//! return: a slot is held by at most one live [`Handle`] at a time, and the
//! number of slots in use can never exceed the configured capacity. The
//! handles are opaque to the pool: it manages their lifecycle, not their
//! semantics, and underlying connections are established lazily by the
//! embedding application.

use vstd::prelude::*;

verus! {

/// Acquisition failure: every slot is checked out (or the backing connection
/// could not be established within policy). Transient — the caller may retry
/// — and distinguishable from a data-level failure.
#[derive(Debug, Clone, Copy, PartialEq, Eq, Structural)]
pub enum PoolError {
    ExhaustedOrBackendUnavailable,
}

/// An exclusively-owned handle checked out of a [`ResourcePool`].
///
/// A handle is neither clonable nor copyable: returning it to the pool
/// consumes it, so a released handle cannot be used or released again.
#[derive(Debug)]
pub struct Handle {
    slot: usize,
}

impl View for Handle {
    type V = int;

    /// The pool slot this handle occupies.
    closed spec fn view(&self) -> int {
        self.slot as int
    }
}

impl Handle {
    /// The pool slot this handle occupies.
    pub fn slot(&self) -> (r: usize)
        ensures
            r == self@,
    {
        self.slot
    }
}

/// How many slots of a pool state are in use.
pub open spec fn count_in_use(s: Seq<bool>) -> nat
    decreases s.len(),
{
    if s.len() == 0 {
        0
    } else {
        count_in_use(s.drop_last()) + if s.last() {
            1nat
        } else {
            0nat
        }
    }
}

/// The in-use count never exceeds the number of slots: a pool can never
/// hand out more live handles than its configured maximum.
pub proof fn lemma_in_use_bounded(s: Seq<bool>)
    ensures
        count_in_use(s) <= s.len(),
    decreases s.len(),
{
    if s.len() > 0 {
        lemma_in_use_bounded(s.drop_last());
    }
}

/// Setting one slot changes the in-use count by exactly the difference
/// between the new and the old occupancy of that slot.
pub proof fn lemma_count_update(s: Seq<bool>, i: int, b: bool)
    requires
        0 <= i < s.len(),
    ensures
        count_in_use(s.update(i, b)) + (if s[i] {
            1nat
        } else {
            0nat
        }) == count_in_use(s) + (if b {
            1nat
        } else {
            0nat
        }),
    decreases s.len(),
{
    let t = s.update(i, b);
    if i == s.len() - 1 {
        assert(t.drop_last() =~= s.drop_last());
    } else {
        assert(t.drop_last() =~= s.drop_last().update(i, b));
        lemma_count_update(s.drop_last(), i, b);
    }
}

/// Pool exclusivity: a slot occupied by a live handle is marked held, and
/// acquisition only ever returns a slot that was not held, so no two live
/// handles returned by the pool can occupy the same slot at the same
/// instant.
pub proof fn lemma_handle_exclusivity(s: Seq<bool>, live: int, fresh: int)
    requires
        0 <= live < s.len(),
        s[live],
        0 <= fresh < s.len(),
        !s[fresh],
    ensures
        live != fresh,
{
}

/// A bounded pool of reusable handles. Its abstract state is one boolean
/// per slot: `true` when the slot's handle is checked out.
pub struct ResourcePool {
    held: Vec<bool>,
}

impl View for ResourcePool {
    type V = Seq<bool>;

    closed spec fn view(&self) -> Seq<bool> {
        self.held@
    }
}

impl ResourcePool {
    /// A pool with `capacity` slots, all initially free.
    pub fn new(capacity: usize) -> (r: ResourcePool)
        ensures
            r@.len() == capacity,
            forall|i: int| 0 <= i < capacity ==> !r@[i],
            count_in_use(r@) == 0,
    {
        let mut held: Vec<bool> = Vec::new();
        let mut i: usize = 0;
        while i < capacity
            invariant
                i <= capacity,
                held@.len() == i,
                forall|j: int| 0 <= j < i ==> !held@[j],
                count_in_use(held@) == 0,
            decreases capacity - i,
        {
            proof {
                lemma_count_update(held@.push(false), i as int, false);
                assert(held@.push(false).update(i as int, false) =~= held@.push(false));
                assert(held@.push(false).drop_last() =~= held@);
            }
            held.push(false);
            i += 1;
        }
        ResourcePool { held }
    }

    /// Check out a free slot, marking it held. Fails exactly when every
    /// slot is already in use; the pool state is then unchanged.
    pub fn acquire(&mut self) -> (r: Result<Handle, PoolError>)
        ensures
            final(self)@.len() == old(self)@.len(),
            match r {
                Ok(h) => {
                    &&& 0 <= h@ < old(self)@.len()
                    &&& !old(self)@[h@]
                    &&& final(self)@ == old(self)@.update(h@, true)
                    &&& count_in_use(final(self)@) == count_in_use(old(self)@) + 1
                },
                Err(e) => {
                    &&& e == PoolError::ExhaustedOrBackendUnavailable
                    &&& final(self)@ == old(self)@
                    &&& forall|i: int| 0 <= i < old(self)@.len() ==> old(self)@[i]
                },
            },
    {
        let n = self.held.len();
        let mut i: usize = 0;
        while i < n
            invariant
                n == self.held@.len(),
                i <= n,
                self.held@ == old(self)@,
                forall|j: int| 0 <= j < i ==> self.held@[j],
            decreases n - i,
        {
            if !self.held[i] {
                self.held.set(i, true);
                proof {
                    lemma_count_update(old(self)@, i as int, true);
                }
                return Ok(Handle { slot: i });
            }
            i += 1;
        }
        Err(PoolError::ExhaustedOrBackendUnavailable)
    }

    /// Return a handle to the pool, consuming it and freeing its slot.
    pub fn release(&mut self, h: Handle)
        requires
            0 <= h@ < old(self)@.len(),
            old(self)@[h@],
        ensures
            final(self)@ == old(self)@.update(h@, false),
            count_in_use(final(self)@) + 1 == count_in_use(old(self)@),
    {
        let slot = h.slot;
        self.held.set(slot, false);
        proof {
            lemma_count_update(old(self)@, h@, false);
        }
    }

    /// The number of slots this pool was configured with.
    pub fn capacity(&self) -> (r: usize)
        ensures
            r == self@.len(),
    {
        self.held.len()
    }
}

} // verus!
