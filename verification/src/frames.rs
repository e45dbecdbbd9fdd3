//! Frame slots in flight: the CPU may run this many frames ahead of the GPU,
//! and the slots are reused in turn.

use vstd::prelude::*;

verus! {

/// How many frames the CPU may record ahead of the GPU.
pub const MAX_FRAMES_IN_FLIGHT: usize = 2;

/// The slot cursor of the frame pool; independent of the swapchain image index.
pub struct FrameCursor {
    count: usize,
    current: usize,
}

impl FrameCursor {
    /// Number of slots.
    pub closed spec fn len(&self) -> usize {
        self.count
    }

    /// Slot in use.
    pub closed spec fn index(&self) -> usize {
        self.current
    }

    /// The cursor points at a slot.
    pub open spec fn wf(&self) -> bool {
        self.index() < self.len()
    }

    /// A cursor over `count` slots, at the first one.
    pub fn new(count: usize) -> (r: Self)
        requires
            count > 0,
        ensures
            r.wf(),
            r.len() == count,
            r.index() == 0,
    {
        FrameCursor { count, current: 0 }
    }

    /// Slot in use.
    pub fn current(&self) -> (r: usize)
        ensures
            r == self.index(),
    {
        self.current
    }

    /// Moves to the next slot, wrapping after the last.
    pub fn advance(&mut self)
        requires
            old(self).wf(),
        ensures
            final(self).wf(),
            final(self).len() == old(self).len(),
            final(self).index() == (old(self).index() + 1) % (old(self).len() as int),
    {
        self.current = (self.current + 1) % self.count;
    }
}

/// After `n` advances a cursor is `n` slots further, modulo the slot count;
/// so a slot comes back exactly every `len` frames.
pub proof fn lemma_advance_cycle(start: int, len: int, n: nat)
    requires
        len > 0,
        0 <= start < len,
    ensures
        advance_n(start, len, n) == (start + n) % len,
        advance_n(start, len, len as nat) == start,
{
    lemma_advance_n(start, len, n);
    lemma_advance_n(start, len, len as nat);
    vstd::arithmetic::div_mod::lemma_mod_add_multiples_vanish(start, len);
    assert(start + len == len + start);
    vstd::arithmetic::div_mod::lemma_small_mod(start as nat, len as nat);
}

/// The slot reached from `start` after `n` advances.
pub open spec fn advance_n(start: int, len: int, n: nat) -> int
    decreases n,
{
    if n == 0 {
        start
    } else {
        (advance_n(start, len, (n - 1) as nat) + 1) % len
    }
}

proof fn lemma_advance_n(start: int, len: int, n: nat)
    requires
        len > 0,
        0 <= start < len,
    ensures
        advance_n(start, len, n) == (start + n) % len,
    decreases n,
{
    if n == 0 {
        vstd::arithmetic::div_mod::lemma_small_mod(start as nat, len as nat);
    } else {
        lemma_advance_n(start, len, (n - 1) as nat);
        let x = start + n - 1;
        vstd::arithmetic::div_mod::lemma_add_mod_noop(x, 1, len);
        vstd::arithmetic::div_mod::lemma_add_mod_noop(x % len, 1, len);
        vstd::arithmetic::div_mod::lemma_mod_twice(x, len);
    }
}

} // verus!
