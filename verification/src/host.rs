//! The resize gate of the frame loop.
//!
//! Minimizing the window makes further acquires block, and acquiring or
//! presenting on a swapchain whose size no longer matches the window blocks
//! too; rebuilding on every step of a drag is slow. So while the window is
//! minimized the frame loop leaves Vulkan alone, while resize messages keep
//! coming it waits, and once they have been quiet for `DRAG_QUIET_NS` it
//! rebuilds once and draws again.

use vstd::prelude::*;

verus! {

/// How long after the last resize message a drag counts as settled (150 ms, in ns).
pub const DRAG_QUIET_NS: u64 = 150_000_000;

/// What the frame loop does this frame.
#[derive(Debug, Clone, Copy, PartialEq, Eq, Structural)]
pub enum GateStep {
    /// Minimized: skip the frame; `first` the first such frame in a row.
    Minimized { first: bool },
    /// A drag is still going on: skip the frame.
    Settling,
    /// Rebuild the swapchain (if its size changed), then draw.
    Rebuild,
    /// Draw.
    Draw,
}

/// State of the resize gate across frames.
pub struct ResizeGate {
    minimized: bool,
    pending: bool,
    last_resize: Option<u64>,
    logged_minimized: bool,
}

/// The drag has been quiet long enough at time `now`.
pub open spec fn quiet_spec(last_resize: Option<u64>, now: u64) -> bool {
    match last_resize {
        None => true,
        Some(t) => now >= t + DRAG_QUIET_NS,
    }
}

/// A drag counts as settled exactly once 150 ms have passed since the last
/// resize message, and at once when there has been none.
pub proof fn lemma_quiet_after_150ms(t: u64, elapsed: u64)
    ensures
        quiet_spec(None, t),
        t + elapsed <= u64::MAX ==> (quiet_spec(Some(t), (t + elapsed) as u64) <==> elapsed >= 150_000_000),
        !quiet_spec(Some(t), t),
{
}

impl ResizeGate {
    /// The latest resize message made the window zero-sized.
    pub closed spec fn minimized_spec(&self) -> bool {
        self.minimized
    }

    /// A rebuild is due once the drag settles.
    pub closed spec fn pending_spec(&self) -> bool {
        self.pending
    }

    /// Time of the last non-zero resize message (ns).
    pub closed spec fn last_resize_spec(&self) -> Option<u64> {
        self.last_resize
    }

    /// The minimized state has been announced.
    pub closed spec fn announced_spec(&self) -> bool {
        self.logged_minimized
    }

    /// Nothing seen yet.
    pub fn new() -> (r: Self)
        ensures
            !r.minimized_spec() && !r.pending_spec() && r.last_resize_spec() is None && !r.announced_spec(),
    {
        ResizeGate { minimized: false, pending: false, last_resize: None, logged_minimized: false }
    }

    /// Reads one resize message received at `now` (ns): a zero-sized window is
    /// minimized; any other size clears that, asks for a rebuild and restarts
    /// the quiet period.
    pub fn on_resized(&mut self, zero_size: bool, now: u64)
        ensures
            final(self).minimized_spec() == zero_size,
            final(self).pending_spec() == (old(self).pending_spec() || !zero_size),
            final(self).last_resize_spec() == (if zero_size { old(self).last_resize_spec() } else { Some(now) }),
            final(self).announced_spec() == old(self).announced_spec(),
    {
        if zero_size {
            self.minimized = true;
        } else {
            self.minimized = false;
            self.pending = true;
            self.last_resize = Some(now);
        }
    }

    /// Decides the frame at `now` (ns), after the frame's resize messages.
    /// Minimized: skip. Else a due rebuild waits for the drag to settle, then
    /// happens once; otherwise draw. `restored` tells when the minimized state
    /// just ended.
    pub fn step(&mut self, now: u64) -> (r: (GateStep, bool))
        ensures
            old(self).minimized_spec() ==> {
                &&& r == (GateStep::Minimized { first: !old(self).announced_spec() }, false)
                &&& final(self).announced_spec()
                &&& final(self).pending_spec() == old(self).pending_spec()
            },
            !old(self).minimized_spec() ==> {
                &&& r.1 == old(self).announced_spec()
                &&& !final(self).announced_spec()
                &&& r.0 == (if !old(self).pending_spec() {
                    GateStep::Draw
                } else if !quiet_spec(old(self).last_resize_spec(), now) {
                    GateStep::Settling
                } else {
                    GateStep::Rebuild
                })
                &&& final(self).pending_spec() == (old(self).pending_spec() && !quiet_spec(old(self).last_resize_spec(), now))
            },
            final(self).minimized_spec() == old(self).minimized_spec(),
            final(self).last_resize_spec() == old(self).last_resize_spec(),
    {
        if self.minimized {
            let first = !self.logged_minimized;
            self.logged_minimized = true;
            return (GateStep::Minimized { first }, false);
        }
        let restored = self.logged_minimized;
        self.logged_minimized = false;
        let quiet = match self.last_resize {
            None => true,
            Some(t) => now >= t && now - t >= DRAG_QUIET_NS,
        };
        if self.pending {
            if !quiet {
                return (GateStep::Settling, restored);
            }
            self.pending = false;
            return (GateStep::Rebuild, restored);
        }
        (GateStep::Draw, restored)
    }

    /// A rebuild failed, or the swapchain turned out suboptimal or out of
    /// date: rebuild once the drag has settled.
    pub fn request_rebuild(&mut self)
        ensures
            final(self).pending_spec(),
            final(self).minimized_spec() == old(self).minimized_spec(),
            final(self).last_resize_spec() == old(self).last_resize_spec(),
            final(self).announced_spec() == old(self).announced_spec(),
    {
        self.pending = true;
    }
}

} // verus!
