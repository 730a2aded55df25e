//! The arena, its handles, and the per-slot borrow tracker.
//!
//! Every slot carries a generation counter that advances each time the slot
//! is reused, so a handle captured for an earlier occupancy can never read a
//! later value.  Freeing a slot clears its value and leaves the generation
//! in place; the next insertion into that slot advances it, which is what
//! retires every handle of the previous occupancy for good.

use vstd::prelude::*;

verus! {

/// Why an arena operation was refused.
#[derive(Clone, Copy, Debug, PartialEq, Eq, Structural)]
pub enum ArenaError {
    /// The handle's captured generation no longer matches its slot, or the
    /// slot no longer holds a value: the handle outlived the value it named.
    StaleHandle,
    /// The requested access conflicts with an outstanding borrow on the slot.
    BorrowConflict,
    /// The arena cannot grow, or a borrow counter cannot grow, any further.
    OutOfMemory,
}

/// A copyable, non-owning reference to a value held in an [`Arena`].
///
/// Two handles are equal exactly when they carry the same slot index and the
/// same captured generation.  Holding a handle past the life of its value is
/// safe: every access checks the captured generation against the slot first.
#[derive(Clone, Copy, Debug, PartialEq, Eq, Structural)]
pub struct Handle {
    index: usize,
    generation: u64,
}

impl Handle {
    /// The index of the slot this handle refers to.
    pub closed spec fn spec_index(self) -> int {
        self.index as int
    }

    /// The slot generation captured when the handle was issued.
    pub closed spec fn spec_generation(self) -> int {
        self.generation as int
    }

    /// The index of the slot this handle refers to.
    pub fn index(self) -> (i: usize)
        ensures
            i as int == self.spec_index(),
    {
        self.index
    }

    /// The slot generation captured when the handle was issued.
    pub fn generation(self) -> (g: u64)
        ensures
            g as int == self.spec_generation(),
    {
        self.generation
    }
}

/// A scoped claim of shared (read) access to one slot, returned by
/// [`Arena::begin_shared`] and given back through [`Arena::end_shared`].
///
/// The token is deliberately neither copyable nor clonable, so each claim
/// can be released at most once.
#[derive(Debug)]
pub struct SharedToken {
    index: usize,
    generation: u64,
}

impl SharedToken {
    /// The index of the slot the claim is held on.
    pub closed spec fn spec_index(self) -> int {
        self.index as int
    }

    /// The slot generation the claim was taken at.
    pub closed spec fn spec_generation(self) -> int {
        self.generation as int
    }
}

/// A scoped claim of exclusive (read and write) access to one slot,
/// returned by [`Arena::begin_exclusive`] and given back through
/// [`Arena::end_exclusive`].
///
/// The token is deliberately neither copyable nor clonable, so each claim
/// can be released at most once.
#[derive(Debug)]
pub struct ExclusiveToken {
    index: usize,
    generation: u64,
}

impl ExclusiveToken {
    /// The index of the slot the claim is held on.
    pub closed spec fn spec_index(self) -> int {
        self.index as int
    }

    /// The slot generation the claim was taken at.
    pub closed spec fn spec_generation(self) -> int {
        self.generation as int
    }
}

/// One storage cell of the arena: an optional value, the generation counter,
/// and the runtime borrow state of the cell.
struct Slot<T> {
    value: Option<T>,
    generation: u64,
    shared: usize,
    exclusive: bool,
}

/// A pool that owns values and hands out generation-checked handles to them.
pub struct Arena<T> {
    slots: Vec<Slot<T>>,
    free: Vec<usize>,
}

impl<T> Arena<T> {
    /// How many slots the arena has ever grown to, occupied or vacant.
    pub closed spec fn num_slots(self) -> int {
        self.slots@.len() as int
    }

    /// How many vacant slots are queued for reuse.
    pub closed spec fn num_free(self) -> int {
        self.free@.len() as int
    }

    /// The slot the next insertion will reuse, when any is queued: the most
    /// recently queued index.
    pub closed spec fn next_reuse(self) -> int {
        self.free@.last() as int
    }

    /// The value slot `i` holds, or `None` when the slot is vacant.
    pub closed spec fn slot_value(self, i: int) -> Option<T> {
        self.slots@[i].value
    }

    /// The generation counter of slot `i`.
    pub closed spec fn slot_generation(self, i: int) -> int {
        self.slots@[i].generation as int
    }

    /// How many shared borrows are active on slot `i`.
    pub closed spec fn shared_count(self, i: int) -> int {
        self.slots@[i].shared as int
    }

    /// Whether an exclusive borrow is active on slot `i`.
    pub closed spec fn is_exclusive(self, i: int) -> bool {
        self.slots@[i].exclusive
    }

    /// A slot index and a generation name the arena's current occupancy of
    /// that slot: the slot holds a value and its counter equals `g`.
    pub open spec fn current(self, i: int, g: int) -> bool {
        &&& 0 <= i < self.num_slots()
        &&& self.slot_value(i) is Some
        &&& self.slot_generation(i) == g
    }

    /// The handle refers to the value now held by its slot.
    pub open spec fn live(self, h: Handle) -> bool {
        self.current(h.spec_index(), h.spec_generation())
    }

    /// The handle's occupancy is over and can never come back: either the
    /// slot's counter has moved past the captured generation, or the slot
    /// was freed and waits — vacant — at that same generation, which any
    /// future insertion must advance.
    pub open spec fn dead(self, h: Handle) -> bool {
        &&& 0 <= h.spec_index() < self.num_slots()
        &&& h.spec_generation() <= self.slot_generation(h.spec_index())
        &&& (h.spec_generation() < self.slot_generation(h.spec_index())
            || self.slot_value(h.spec_index()) is None)
    }

    /// Slot `i` is in the same state in `self` and in `post`.
    pub open spec fn slot_unchanged(self, post: Self, i: int) -> bool {
        &&& post.slot_value(i) == self.slot_value(i)
        &&& post.slot_generation(i) == self.slot_generation(i)
        &&& post.shared_count(i) == self.shared_count(i)
        &&& post.is_exclusive(i) == self.is_exclusive(i)
    }

    /// The arena's internal invariant: the free list indexes vacant,
    /// reusable slots and lists each at most once; every vacant slot whose
    /// counter can still advance is queued for reuse; and each slot's borrow
    /// state is consistent — never both kinds of borrow, and no borrow at
    /// all on a vacant slot.
    pub closed spec fn wf(self) -> bool {
        let slots = self.slots@;
        let free = self.free@;
        &&& forall|k: int|
            0 <= k < free.len() ==> (#[trigger] free[k] as int) < slots.len()
                && slots[free[k] as int].value is None
                && (slots[free[k] as int].generation as int) < u64::MAX as int
        &&& forall|k1: int, k2: int|
            0 <= k1 < k2 < free.len() ==> free[k1] != free[k2]
        &&& forall|u: usize|
            u < slots.len() && (#[trigger] slots[u as int].value) is None
                && (slots[u as int].generation as int) < u64::MAX as int ==> free.contains(u)
        &&& forall|i: int|
            0 <= i < slots.len() ==> !((#[trigger] slots[i].exclusive) && slots[i].shared > 0)
        &&& forall|i: int|
            0 <= i < slots.len() && (#[trigger] slots[i].value) is None ==> slots[i].shared == 0
                && !slots[i].exclusive
    }

    /// Creates an empty arena.
    pub fn new() -> (arena: Self)
        ensures
            arena.wf(),
            arena.num_slots() == 0,
            arena.num_free() == 0,
    {
        Arena { slots: Vec::new(), free: Vec::new() }
    }

    /// Places `value` into a vacant slot — reusing the most recently freed
    /// slot if one is queued, else appending a fresh one — advances that
    /// slot's generation, and returns a handle carrying the slot's index and
    /// new generation.  Fails with `OutOfMemory` exactly when no slot can be
    /// reused and no slot can be appended.
    pub fn insert(&mut self, value: T) -> (result: Result<Handle, ArenaError>)
        requires
            old(self).wf(),
        ensures
            final(self).wf(),
            match result {
                Ok(h) => {
                    &&& final(self).live(h)
                    &&& final(self).slot_value(h.spec_index()) == Some(value)
                    &&& final(self).shared_count(h.spec_index()) == 0
                    &&& !final(self).is_exclusive(h.spec_index())
                    &&& forall|j: int|
                        0 <= j < old(self).num_slots() && j != h.spec_index()
                            ==> old(self).slot_unchanged(*final(self), j)
                    &&& if old(self).num_free() > 0 {
                        &&& h.spec_index() == old(self).next_reuse()
                        &&& 0 <= h.spec_index() < old(self).num_slots()
                        &&& old(self).slot_value(h.spec_index()) is None
                        &&& h.spec_generation() == old(self).slot_generation(h.spec_index()) + 1
                        &&& final(self).num_slots() == old(self).num_slots()
                        &&& final(self).num_free() == old(self).num_free() - 1
                    } else {
                        &&& h.spec_index() == old(self).num_slots()
                        &&& h.spec_generation() == 1
                        &&& final(self).num_slots() == old(self).num_slots() + 1
                        &&& final(self).num_free() == 0
                    }
                },
                Err(e) => {
                    &&& e == ArenaError::OutOfMemory
                    &&& *final(self) == *old(self)
                },
            },
            result is Err <==> old(self).num_free() == 0 && old(self).num_slots()
                == usize::MAX as int,
            forall|h2: Handle| old(self).live(h2) ==> #[trigger] final(self).live(h2)
                && final(self).slot_value(h2.spec_index()) == old(self).slot_value(
                h2.spec_index(),
            ),
            forall|h2: Handle| old(self).dead(h2) ==> #[trigger] final(self).dead(h2),
    {
        if self.free.len() > 0 {
            let i = self.free.pop().unwrap();
            let next_generation = self.slots[i].generation + 1;
            let slot = &mut self.slots[i];
            slot.generation = next_generation;
            slot.value = Some(value);
            proof {
                assert forall|u: usize|
                    u < self.slots@.len() && (#[trigger] self.slots@[u as int].value) is None
                        && (self.slots@[u as int].generation as int) < u64::MAX as int implies self.free@.contains(
                    u,
                ) by {
                    assert(u != i);
                    assert(old(self).free@.contains(u));
                    let k = choose|k: int|
                        0 <= k < old(self).free@.len() && old(self).free@[k] == u;
                    assert(old(self).free@[old(self).free@.len() - 1] == i);
                    assert(k < old(self).free@.len() - 1);
                    assert(self.free@[k] == u);
                }
            }
            Ok(Handle { index: i, generation: next_generation })
        } else if self.slots.len() < usize::MAX {
            self.slots.push(Slot { value: Some(value), generation: 1, shared: 0, exclusive: false });
            Ok(Handle { index: self.slots.len() - 1, generation: 1 })
        } else {
            Err(ArenaError::OutOfMemory)
        }
    }

    /// Destroys the value the handle refers to, clears the slot's borrow
    /// state, and queues the slot for reuse.  Fails with `StaleHandle` — and
    /// leaves the arena untouched — exactly when the handle is not live, so
    /// a second `free` through any handle of the same occupancy is a
    /// harmless error, and the slot's index is never queued twice.  The one
    /// slot that is cleared but never queued is one whose generation counter
    /// is exhausted and so cannot be advanced for a further occupancy.
    pub fn free(&mut self, handle: Handle) -> (result: Result<(), ArenaError>)
        requires
            old(self).wf(),
        ensures
            final(self).wf(),
            match result {
                Ok(()) => {
                    &&& old(self).live(handle)
                    &&& final(self).slot_value(handle.spec_index()) is None
                    &&& final(self).slot_generation(handle.spec_index()) == old(
                        self,
                    ).slot_generation(handle.spec_index())
                    &&& final(self).shared_count(handle.spec_index()) == 0
                    &&& !final(self).is_exclusive(handle.spec_index())
                    &&& final(self).dead(handle)
                    &&& final(self).num_slots() == old(self).num_slots()
                    &&& if old(self).slot_generation(handle.spec_index()) < u64::MAX as int {
                        &&& final(self).num_free() == old(self).num_free() + 1
                        &&& final(self).next_reuse() == handle.spec_index()
                    } else {
                        final(self).num_free() == old(self).num_free()
                    }
                    &&& forall|j: int|
                        0 <= j < old(self).num_slots() && j != handle.spec_index()
                            ==> old(self).slot_unchanged(*final(self), j)
                },
                Err(e) => {
                    &&& e == ArenaError::StaleHandle
                    &&& !old(self).live(handle)
                    &&& *final(self) == *old(self)
                },
            },
            result is Ok <==> old(self).live(handle),
            forall|h2: Handle|
                old(self).live(h2) && h2 != handle ==> #[trigger] final(self).live(h2)
                    && final(self).slot_value(h2.spec_index()) == old(self).slot_value(
                    h2.spec_index(),
                ),
            forall|h2: Handle| old(self).dead(h2) ==> #[trigger] final(self).dead(h2),
    {
        if handle.index >= self.slots.len() {
            return Err(ArenaError::StaleHandle);
        }
        let valid = {
            let slot = &self.slots[handle.index];
            slot.value.is_some() && slot.generation == handle.generation
        };
        if !valid {
            return Err(ArenaError::StaleHandle);
        }
        let reusable = self.slots[handle.index].generation < u64::MAX;
        let slot = &mut self.slots[handle.index];
        slot.value = None;
        slot.shared = 0;
        slot.exclusive = false;
        if reusable {
            proof {
                assert forall|k: int| 0 <= k < self.free@.len() implies #[trigger] self.free@[k]
                    != handle.index by {
                    assert(old(self).slots@[self.free@[k] as int].value is None);
                }
            }
            self.free.push(handle.index);
        }
        proof {
            assert forall|u: usize|
                u < self.slots@.len() && (#[trigger] self.slots@[u as int].value) is None
                    && (self.slots@[u as int].generation as int) < u64::MAX as int implies self.free@.contains(
                u,
            ) by {
                if u == handle.index {
                    assert(self.free@[self.free@.len() - 1] == u);
                } else {
                    assert(old(self).free@.contains(u));
                    let k = choose|k: int|
                        0 <= k < old(self).free@.len() && old(self).free@[k] == u;
                    assert(self.free@[k] == u);
                }
            }
        }
        Ok(())
    }

    /// Reads the value the handle refers to.  Fails with `StaleHandle` when
    /// the handle is not live, and with `BorrowConflict` when an exclusive
    /// borrow is active on the slot.
    pub fn get(&self, handle: Handle) -> (result: Result<&T, ArenaError>)
        ensures
            match result {
                Ok(v) => {
                    &&& self.live(handle)
                    &&& !self.is_exclusive(handle.spec_index())
                    &&& self.slot_value(handle.spec_index()) == Some(*v)
                },
                Err(e) => if self.live(handle) {
                    e == ArenaError::BorrowConflict && self.is_exclusive(handle.spec_index())
                } else {
                    e == ArenaError::StaleHandle
                },
            },
            result is Ok <==> self.live(handle) && !self.is_exclusive(handle.spec_index()),
    {
        if handle.index >= self.slots.len() {
            return Err(ArenaError::StaleHandle);
        }
        let slot = &self.slots[handle.index];
        match &slot.value {
            None => Err(ArenaError::StaleHandle),
            Some(v) => {
                if slot.generation != handle.generation {
                    Err(ArenaError::StaleHandle)
                } else if slot.exclusive {
                    Err(ArenaError::BorrowConflict)
                } else {
                    Ok(v)
                }
            },
        }
    }

    /// Hands out a mutable reference to the value the handle refers to.
    /// Fails with `StaleHandle` when the handle is not live, and with
    /// `BorrowConflict` when any borrow — shared or exclusive — is active on
    /// the slot.  The reference is exclusive by Rust's own rules: it borrows
    /// the whole arena until it is dropped.
    pub fn get_mut(&mut self, handle: Handle) -> (result: Result<&mut T, ArenaError>)
        requires
            old(self).wf(),
        ensures
            final(self).wf(),
            forall|h2: Handle| #[trigger] final(self).live(h2) == old(self).live(h2),
            forall|h2: Handle| #[trigger] final(self).dead(h2) == old(self).dead(h2),
            match result {
                Ok(v) => {
                    &&& old(self).live(handle)
                    &&& old(self).shared_count(handle.spec_index()) == 0
                    &&& !old(self).is_exclusive(handle.spec_index())
                    &&& old(self).slot_value(handle.spec_index()) == Some(*v)
                    &&& final(self).slot_value(handle.spec_index()) == Some(*final(v))
                    &&& final(self).slot_generation(handle.spec_index()) == old(
                        self,
                    ).slot_generation(handle.spec_index())
                    &&& final(self).shared_count(handle.spec_index()) == 0
                    &&& !final(self).is_exclusive(handle.spec_index())
                    &&& final(self).num_slots() == old(self).num_slots()
                    &&& final(self).num_free() == old(self).num_free()
                    &&& final(self).live(handle)
                    &&& forall|j: int|
                        0 <= j < old(self).num_slots() && j != handle.spec_index()
                            ==> old(self).slot_unchanged(*final(self), j)
                },
                Err(e) => {
                    &&& *final(self) == *old(self)
                    &&& if old(self).live(handle) {
                        e == ArenaError::BorrowConflict && (old(self).shared_count(
                            handle.spec_index(),
                        ) > 0 || old(self).is_exclusive(handle.spec_index()))
                    } else {
                        e == ArenaError::StaleHandle
                    }
                },
            },
            result is Ok <==> old(self).live(handle) && old(self).shared_count(
                handle.spec_index(),
            ) == 0 && !old(self).is_exclusive(handle.spec_index()),
    {
        if handle.index >= self.slots.len() {
            return Err(ArenaError::StaleHandle);
        }
        let (matches, conflicts) = {
            let slot = &self.slots[handle.index];
            (
                slot.value.is_some() && slot.generation == handle.generation,
                slot.exclusive || slot.shared > 0,
            )
        };
        if !matches {
            return Err(ArenaError::StaleHandle);
        }
        if conflicts {
            return Err(ArenaError::BorrowConflict);
        }
        let slot = &mut self.slots[handle.index];
        match &mut slot.value {
            Some(v) => Ok(v),
            None => Err(ArenaError::StaleHandle),
        }
    }

    /// Opens a shared borrow on the slot the handle refers to and returns
    /// the token that closes it again.  Fails with `StaleHandle` when the
    /// handle is not live, with `BorrowConflict` when an exclusive borrow is
    /// active on the slot, and with `OutOfMemory` in the one remaining case,
    /// a shared-borrow count that cannot grow any further.
    pub fn begin_shared(&mut self, handle: Handle) -> (result: Result<SharedToken, ArenaError>)
        requires
            old(self).wf(),
        ensures
            final(self).wf(),
            forall|h2: Handle| #[trigger] final(self).live(h2) == old(self).live(h2),
            forall|h2: Handle| #[trigger] final(self).dead(h2) == old(self).dead(h2),
            match result {
                Ok(token) => {
                    &&& old(self).live(handle)
                    &&& !old(self).is_exclusive(handle.spec_index())
                    &&& token.spec_index() == handle.spec_index()
                    &&& token.spec_generation() == handle.spec_generation()
                    &&& final(self).shared_count(handle.spec_index()) == old(self).shared_count(
                        handle.spec_index(),
                    ) + 1
                    &&& final(self).slot_value(handle.spec_index()) == old(self).slot_value(
                        handle.spec_index(),
                    )
                    &&& final(self).slot_generation(handle.spec_index()) == old(
                        self,
                    ).slot_generation(handle.spec_index())
                    &&& !final(self).is_exclusive(handle.spec_index())
                    &&& final(self).num_slots() == old(self).num_slots()
                    &&& final(self).num_free() == old(self).num_free()
                    &&& forall|j: int|
                        0 <= j < old(self).num_slots() && j != handle.spec_index()
                            ==> old(self).slot_unchanged(*final(self), j)
                },
                Err(e) => {
                    &&& *final(self) == *old(self)
                    &&& if !old(self).live(handle) {
                        e == ArenaError::StaleHandle
                    } else if old(self).is_exclusive(handle.spec_index()) {
                        e == ArenaError::BorrowConflict
                    } else {
                        e == ArenaError::OutOfMemory && old(self).shared_count(
                            handle.spec_index(),
                        ) == usize::MAX as int
                    }
                },
            },
            result is Ok <==> old(self).live(handle) && !old(self).is_exclusive(
                handle.spec_index(),
            ) && old(self).shared_count(handle.spec_index()) < usize::MAX as int,
    {
        if handle.index >= self.slots.len() {
            return Err(ArenaError::StaleHandle);
        }
        let (matches, exclusive, saturated) = {
            let slot = &self.slots[handle.index];
            (
                slot.value.is_some() && slot.generation == handle.generation,
                slot.exclusive,
                slot.shared == usize::MAX,
            )
        };
        if !matches {
            return Err(ArenaError::StaleHandle);
        }
        if exclusive {
            return Err(ArenaError::BorrowConflict);
        }
        if saturated {
            return Err(ArenaError::OutOfMemory);
        }
        let slot = &mut self.slots[handle.index];
        slot.shared = slot.shared + 1;
        Ok(SharedToken { index: handle.index, generation: handle.generation })
    }

    /// Opens the exclusive borrow on the slot the handle refers to and
    /// returns the token that closes it again.  Fails with `StaleHandle`
    /// when the handle is not live, and with `BorrowConflict` when any
    /// borrow — shared or exclusive — is active on the slot.
    pub fn begin_exclusive(&mut self, handle: Handle) -> (result: Result<
        ExclusiveToken,
        ArenaError,
    >)
        requires
            old(self).wf(),
        ensures
            final(self).wf(),
            forall|h2: Handle| #[trigger] final(self).live(h2) == old(self).live(h2),
            forall|h2: Handle| #[trigger] final(self).dead(h2) == old(self).dead(h2),
            match result {
                Ok(token) => {
                    &&& old(self).live(handle)
                    &&& old(self).shared_count(handle.spec_index()) == 0
                    &&& !old(self).is_exclusive(handle.spec_index())
                    &&& token.spec_index() == handle.spec_index()
                    &&& token.spec_generation() == handle.spec_generation()
                    &&& final(self).is_exclusive(handle.spec_index())
                    &&& final(self).shared_count(handle.spec_index()) == 0
                    &&& final(self).slot_value(handle.spec_index()) == old(self).slot_value(
                        handle.spec_index(),
                    )
                    &&& final(self).slot_generation(handle.spec_index()) == old(
                        self,
                    ).slot_generation(handle.spec_index())
                    &&& final(self).num_slots() == old(self).num_slots()
                    &&& final(self).num_free() == old(self).num_free()
                    &&& forall|j: int|
                        0 <= j < old(self).num_slots() && j != handle.spec_index()
                            ==> old(self).slot_unchanged(*final(self), j)
                },
                Err(e) => {
                    &&& *final(self) == *old(self)
                    &&& if old(self).live(handle) {
                        e == ArenaError::BorrowConflict && (old(self).shared_count(
                            handle.spec_index(),
                        ) > 0 || old(self).is_exclusive(handle.spec_index()))
                    } else {
                        e == ArenaError::StaleHandle
                    }
                },
            },
            result is Ok <==> old(self).live(handle) && old(self).shared_count(
                handle.spec_index(),
            ) == 0 && !old(self).is_exclusive(handle.spec_index()),
    {
        if handle.index >= self.slots.len() {
            return Err(ArenaError::StaleHandle);
        }
        let (matches, conflicts) = {
            let slot = &self.slots[handle.index];
            (
                slot.value.is_some() && slot.generation == handle.generation,
                slot.exclusive || slot.shared > 0,
            )
        };
        if !matches {
            return Err(ArenaError::StaleHandle);
        }
        if conflicts {
            return Err(ArenaError::BorrowConflict);
        }
        let slot = &mut self.slots[handle.index];
        slot.exclusive = true;
        Ok(ExclusiveToken { index: handle.index, generation: handle.generation })
    }

    /// Closes the shared borrow the token stands for, consuming the token.
    /// When the borrowed slot was freed — or freed and reused — after the
    /// token was taken, its borrow state was reset or re-keyed then, and the
    /// late release leaves the arena untouched.
    pub fn end_shared(&mut self, token: SharedToken)
        requires
            old(self).wf(),
        ensures
            final(self).wf(),
            forall|h2: Handle| #[trigger] final(self).live(h2) == old(self).live(h2),
            forall|h2: Handle| #[trigger] final(self).dead(h2) == old(self).dead(h2),
            if old(self).current(token.spec_index(), token.spec_generation()) && old(
                self,
            ).shared_count(token.spec_index()) > 0 {
                &&& final(self).shared_count(token.spec_index()) == old(self).shared_count(
                    token.spec_index(),
                ) - 1
                &&& final(self).slot_value(token.spec_index()) == old(self).slot_value(
                    token.spec_index(),
                )
                &&& final(self).slot_generation(token.spec_index()) == old(self).slot_generation(
                    token.spec_index(),
                )
                &&& final(self).is_exclusive(token.spec_index()) == old(self).is_exclusive(
                    token.spec_index(),
                )
                &&& final(self).num_slots() == old(self).num_slots()
                &&& final(self).num_free() == old(self).num_free()
                &&& forall|j: int|
                    0 <= j < old(self).num_slots() && j != token.spec_index()
                        ==> old(self).slot_unchanged(*final(self), j)
            } else {
                *final(self) == *old(self)
            },
    {
        if token.index >= self.slots.len() {
            return ;
        }
        let held = {
            let slot = &self.slots[token.index];
            slot.value.is_some() && slot.generation == token.generation && slot.shared > 0
        };
        if held {
            let slot = &mut self.slots[token.index];
            slot.shared = slot.shared - 1;
        }
    }

    /// Closes the exclusive borrow the token stands for, consuming the
    /// token.  When the borrowed slot was freed — or freed and reused —
    /// after the token was taken, its borrow state was reset or re-keyed
    /// then, and the late release leaves the arena untouched.
    pub fn end_exclusive(&mut self, token: ExclusiveToken)
        requires
            old(self).wf(),
        ensures
            final(self).wf(),
            forall|h2: Handle| #[trigger] final(self).live(h2) == old(self).live(h2),
            forall|h2: Handle| #[trigger] final(self).dead(h2) == old(self).dead(h2),
            if old(self).current(token.spec_index(), token.spec_generation()) && old(
                self,
            ).is_exclusive(token.spec_index()) {
                &&& !final(self).is_exclusive(token.spec_index())
                &&& final(self).shared_count(token.spec_index()) == old(self).shared_count(
                    token.spec_index(),
                )
                &&& final(self).slot_value(token.spec_index()) == old(self).slot_value(
                    token.spec_index(),
                )
                &&& final(self).slot_generation(token.spec_index()) == old(self).slot_generation(
                    token.spec_index(),
                )
                &&& final(self).num_slots() == old(self).num_slots()
                &&& final(self).num_free() == old(self).num_free()
                &&& forall|j: int|
                    0 <= j < old(self).num_slots() && j != token.spec_index()
                        ==> old(self).slot_unchanged(*final(self), j)
            } else {
                *final(self) == *old(self)
            },
    {
        if token.index >= self.slots.len() {
            return ;
        }
        let held = {
            let slot = &self.slots[token.index];
            slot.value.is_some() && slot.generation == token.generation && slot.exclusive
        };
        if held {
            let slot = &mut self.slots[token.index];
            slot.exclusive = false;
        }
    }

    /// How many shared borrows are active on the slot at `index`; zero for
    /// an index the arena has never grown to.
    pub fn shared_borrows(&self, index: usize) -> (count: usize)
        ensures
            (index as int) < self.num_slots() ==> count as int == self.shared_count(index as int),
            (index as int) >= self.num_slots() ==> count == 0,
    {
        if index < self.slots.len() {
            self.slots[index].shared
        } else {
            0
        }
    }

    /// Whether the exclusive borrow is active on the slot at `index`; false
    /// for an index the arena has never grown to.
    pub fn exclusive_active(&self, index: usize) -> (flag: bool)
        ensures
            (index as int) < self.num_slots() ==> flag == self.is_exclusive(index as int),
            (index as int) >= self.num_slots() ==> flag == false,
    {
        if index < self.slots.len() {
            self.slots[index].exclusive
        } else {
            false
        }
    }

    /// A dead handle is not live: once a handle's occupancy is over, every
    /// `get`, `get_mut`, `free`, `begin_shared` or `begin_exclusive` through
    /// it fails with `StaleHandle`, and — since every operation's contract
    /// keeps dead handles dead — it does so forever.
    pub proof fn lemma_dead_handle_stays_refused(self, handle: Handle)
        requires
            self.dead(handle),
        ensures
            !self.live(handle),
    {
    }

    /// At any moment a slot has at most one live handle: two live handles
    /// of one slot carry the slot's current generation, and so are equal.
    pub proof fn lemma_live_handle_unique(self, a: Handle, b: Handle)
        requires
            self.live(a),
            self.live(b),
            a.spec_index() == b.spec_index(),
        ensures
            a == b,
    {
    }

    /// When a freed slot is reused, the arena hands the new occupant a
    /// strictly larger generation, so a handle captured before the reuse
    /// never reads the new value: it differs from every live handle of the
    /// slot in its generation.
    pub proof fn lemma_reuse_advances_generation(self, stale: Handle, fresh: Handle)
        requires
            self.dead(stale),
            self.live(fresh),
            stale.spec_index() == fresh.spec_index(),
        ensures
            stale.spec_generation() < fresh.spec_generation(),
            stale != fresh,
    {
    }

    /// The aliasing discipline of a well-formed arena: no slot ever carries
    /// a shared borrow and the exclusive borrow at once, and a vacant slot
    /// carries no borrow at all.
    pub proof fn lemma_borrow_exclusion(self, i: int)
        requires
            self.wf(),
            0 <= i < self.num_slots(),
        ensures
            !(self.shared_count(i) > 0 && self.is_exclusive(i)),
            self.slot_value(i) is None ==> self.shared_count(i) == 0 && !self.is_exclusive(i),
    {
    }
}

} // verus!

