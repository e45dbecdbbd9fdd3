//! Upload ledger: the staging ring and the monotone timeline tickets that
//! prove when a batch of copies has completed.
//!
//! A ticket is the value a submission signals on the timeline semaphore. The
//! first batch signals 1 and each later one the next integer; 0 stands for
//! "nothing submitted". An empty batch is not submitted and gets no ticket, and
//! a submission that fails before it reaches the queue publishes none.

use vstd::prelude::*;

verus! {

/// A completion ticket: the timeline value a submitted batch signals.
pub type Ticket = u64;

/// A device-side copy between two buffers (raw handles; bytes).
#[derive(Debug, Clone, Copy, PartialEq, Eq, Structural)]
pub struct CopyRegion {
    pub src: u64,
    pub dst: u64,
    pub src_offset: u64,
    pub dst_offset: u64,
    pub size: u64,
}

/// A copy from the batch's staging bytes into a pool buffer.
#[derive(Debug, Clone, Copy, PartialEq, Eq, Structural)]
pub struct StagingCopy {
    /// Raw handle of the destination pool buffer.
    pub dst: u64,
    /// Offset of the source bytes within this batch's staging bytes.
    pub src_offset: u64,
    pub dst_offset: u64,
    pub size: u64,
}

/// Ownership of `buffer` handed from the transfer family to `to_family`.
#[derive(Debug, Clone, Copy, PartialEq, Eq, Structural)]
pub struct Release {
    pub buffer: u64,
    pub to_family: u32,
}

/// Everything one transfer submission carries.
pub struct UploadBatch {
    /// All bytes of the batch, laid out from offset 0.
    pub staging: Vec<u8>,
    /// Copies from the staging bytes into pool buffers.
    pub uploads: Vec<StagingCopy>,
    /// Buffer-to-buffer copies (pool migration).
    pub device_copies: Vec<CopyRegion>,
    /// Ownership releases at the end of the batch.
    pub releases: Vec<Release>,
}

impl Default for UploadBatch {
    fn default() -> (r: Self)
        ensures
            r.staging@.len() == 0,
            r.uploads@.len() == 0,
            r.device_copies@.len() == 0,
            r.releases@.len() == 0,
    {
        UploadBatch { staging: Vec::new(), uploads: Vec::new(), device_copies: Vec::new(), releases: Vec::new() }
    }
}

/// The sources of `regions` in order of first appearance, each once.
pub open spec fn distinct_spec(s: Seq<u64>) -> Seq<u64>
    decreases s.len(),
{
    if s.len() == 0 {
        Seq::empty()
    } else {
        let d = distinct_spec(s.drop_last());
        if d.contains(s.last()) {
            d
        } else {
            d.push(s.last())
        }
    }
}

/// Source buffers of a sequence of copies.
pub open spec fn sources(regions: Seq<CopyRegion>) -> Seq<u64> {
    regions.map_values(|r: CopyRegion| r.src)
}

/// The distinct source buffers of `regions`, in order of first appearance
/// (one write-to-read barrier is recorded per buffer).
pub fn distinct_srcs(regions: &Vec<CopyRegion>) -> (r: Vec<u64>)
    ensures
        r@ == distinct_spec(sources(regions@)),
{
    let mut seen: Vec<u64> = Vec::new();
    let mut i: usize = 0;
    while i < regions.len()
        invariant
            i <= regions@.len(),
            seen@ == distinct_spec(sources(regions@).take(i as int)),
        decreases regions@.len() - i,
    {
        let src = regions[i].src;
        let mut found = false;
        let mut j: usize = 0;
        while j < seen.len()
            invariant
                j <= seen@.len(),
                found <==> seen@.take(j as int).contains(src),
            decreases seen@.len() - j,
        {
            if seen[j] == src {
                found = true;
            }
            proof {
                assert(seen@.take(j as int + 1) == seen@.take(j as int).push(seen@[j as int]));
                lemma_push_contains(seen@.take(j as int), seen@[j as int], src);
            }
            j = j + 1;
        }
        proof {
            assert(seen@.take(j as int) == seen@);
            let s = sources(regions@);
            assert(s.take(i as int + 1).drop_last() == s.take(i as int));
            assert(s.take(i as int + 1).last() == src);
        }
        if !found {
            seen.push(src);
        }
        i = i + 1;
    }
    proof {
        assert(sources(regions@).take(i as int) == sources(regions@));
    }
    seen
}

/// An element is in `s.push(x)` exactly when it is `x` or already in `s`.
pub proof fn lemma_push_contains(s: Seq<u64>, x: u64, y: u64)
    ensures
        s.push(x).contains(y) <==> (s.contains(y) || x == y),
{
    if s.push(x).contains(y) {
        let k = choose|k: int| 0 <= k < s.push(x).len() && s.push(x)[k] == y;
        if k < s.len() {
            assert(s[k] == y);
        }
    }
    if s.contains(y) {
        let k = choose|k: int| 0 <= k < s.len() && s[k] == y;
        assert(s.push(x)[k] == y);
    }
    if x == y {
        assert(s.push(x)[s.len() as int] == y);
    }
}

/// Every source appears in the distinct list, the list holds only sources,
/// and nothing in it appears twice.
pub proof fn lemma_distinct_spec(s: Seq<u64>)
    ensures
        distinct_spec(s).no_duplicates(),
        forall|x: u64| s.contains(x) <==> #[trigger] distinct_spec(s).contains(x),
    decreases s.len(),
{
    if s.len() > 0 {
        let p = s.drop_last();
        let d = distinct_spec(p);
        lemma_distinct_spec(p);
        assert(p.push(s.last()) == s);
        assert forall|x: u64| s.contains(x) <==> #[trigger] distinct_spec(s).contains(x) by {
            lemma_push_contains(p, s.last(), x);
            lemma_push_contains(d, s.last(), x);
        }
        if !d.contains(s.last()) {
            let e = d.push(s.last());
            assert forall|i: int, j: int| 0 <= i < e.len() && 0 <= j < e.len() && i != j implies e[i] != e[j] by {
                if i < d.len() && j < d.len() {
                    assert(d[i] != d[j]);
                } else if i < d.len() {
                    assert(d.contains(d[i]));
                } else if j < d.len() {
                    assert(d.contains(d[j]));
                }
            }
        }
    }
}

/// `x` occurs in `s` before `y` occurs at all.
pub open spec fn source_before(s: Seq<u64>, x: u64, y: u64) -> bool {
    exists|p: int| 0 <= p < s.len() && s[p] == x && forall|q: int| 0 <= q <= p ==> #[trigger] s[q] != y
}

/// The distinct list keeps the order of first appearance: of two sources in
/// it, the earlier one occurs before the later one occurs at all.
pub proof fn lemma_distinct_order(s: Seq<u64>)
    ensures
        forall|i: int, j: int| 0 <= i < j < distinct_spec(s).len() ==> source_before(
            s,
            #[trigger] distinct_spec(s)[i],
            #[trigger] distinct_spec(s)[j],
        ),
    decreases s.len(),
{
    if s.len() > 0 {
        let pre = s.drop_last();
        let d = distinct_spec(pre);
        let x = s.last();
        let g = distinct_spec(s);
        lemma_distinct_order(pre);
        lemma_distinct_spec(pre);
        assert forall|i: int, j: int| 0 <= i < j < g.len() implies source_before(s, #[trigger] g[i], #[trigger] g[j]) by {
            assert(g[i] == d[i]);
            if j < d.len() {
                assert(g[j] == d[j]);
                assert(source_before(pre, d[i], d[j]));
                let p = choose|p: int| 0 <= p < pre.len() && pre[p] == d[i] && forall|q: int| 0 <= q <= p ==> #[trigger] pre[q] != d[j];
                assert(s[p] == g[i]);
                assert forall|q: int| 0 <= q <= p implies #[trigger] s[q] != g[j] by {
                    assert(s[q] == pre[q]);
                }
            } else {
                assert(g[j] == x);
                assert(!d.contains(x));
                assert(d.contains(d[i]));
                assert(pre.contains(d[i]));
                let p = choose|p: int| 0 <= p < pre.len() && pre[p] == d[i];
                assert(s[p] == g[i]);
                assert forall|q: int| 0 <= q <= p implies #[trigger] s[q] != g[j] by {
                    assert(s[q] == pre[q]);
                    if pre[q] == x {
                        assert(pre.contains(x));
                    }
                }
            }
        }
    }
}

/// One slot of the staging ring: the size of its staging buffer (once made)
/// and the ticket of the last batch submitted from it.
#[derive(Debug, Clone, Copy, PartialEq, Eq, Structural)]
pub struct RingSlot {
    pub staging_size: Option<u64>,
    pub in_flight: Option<Ticket>,
}

/// What a non-empty batch needs before it is recorded into slot `index`:
/// wait for `pending` unless already completed, and grow the slot's staging
/// buffer to `grow_to` bytes when present.
#[derive(Debug, Clone, Copy, PartialEq, Eq, Structural)]
pub struct SubmitSlot {
    pub index: usize,
    pub pending: Option<Ticket>,
    pub grow_to: Option<u64>,
}

/// The staging ring and ticket counter of the transfer-queue uploader.
pub struct Uploader {
    queue_family: u32,
    slots: Vec<RingSlot>,
    cursor: usize,
    next_ticket: Ticket,
    staging_capacity: u64,
}

impl Uploader {
    /// The ring's slots.
    pub closed spec fn ring(&self) -> Seq<RingSlot> {
        self.slots@
    }

    /// Slot the next non-empty batch will use.
    pub closed spec fn cursor_spec(&self) -> usize {
        self.cursor
    }

    /// Ticket the next submission will signal.
    pub closed spec fn next_ticket_spec(&self) -> Ticket {
        self.next_ticket
    }

    /// Initial staging size of a slot.
    pub closed spec fn staging_capacity_spec(&self) -> u64 {
        self.staging_capacity
    }

    /// Queue family the uploader submits to.
    pub closed spec fn family(&self) -> u32 {
        self.queue_family
    }

    /// Tickets start at 1; the cursor points into the ring; every ticket in
    /// flight was issued already, and no two slots wait for the same ticket.
    pub open spec fn wf(&self) -> bool {
        &&& self.next_ticket_spec() >= 1
        &&& (self.ring().len() == 0 || self.cursor_spec() < self.ring().len())
        &&& forall|i: int| 0 <= i < self.ring().len() ==>
            ((#[trigger] self.ring()[i]).in_flight matches Some(t) ==> 1 <= t < self.next_ticket_spec())
        &&& forall|i: int, j: int| 0 <= i < self.ring().len() && 0 <= j < self.ring().len() && i != j
            && (#[trigger] self.ring()[i]).in_flight is Some ==> (#[trigger] self.ring()[j]).in_flight != self.ring()[i].in_flight
    }

    /// An uploader with `slots` empty ring slots; the first ticket will be 1.
    pub fn new(queue_family: u32, staging_capacity: u64, slots: usize) -> (r: Self)
        ensures
            r.wf(),
            r.ring().len() == slots,
            forall|i: int| 0 <= i < slots ==> #[trigger] r.ring()[i] == (RingSlot { staging_size: None, in_flight: None }),
            r.cursor_spec() == 0,
            r.next_ticket_spec() == 1,
            r.staging_capacity_spec() == staging_capacity,
            r.family() == queue_family,
    {
        let mut ring: Vec<RingSlot> = Vec::new();
        let mut i: usize = 0;
        while i < slots
            invariant
                i <= slots,
                ring@.len() == i,
                forall|k: int| 0 <= k < i ==> #[trigger] ring@[k] == (RingSlot { staging_size: None, in_flight: None }),
            decreases slots - i,
        {
            ring.push(RingSlot { staging_size: None, in_flight: None });
            i = i + 1;
        }
        Uploader { queue_family, slots: ring, cursor: 0, next_ticket: 1, staging_capacity }
    }

    /// Queue family the uploader submits to.
    pub fn queue_family(&self) -> (r: u32)
        ensures
            r == self.family(),
    {
        self.queue_family
    }

    /// The highest ticket issued so far (0 before the first submission).
    pub fn last_issued_ticket(&self) -> (r: Ticket)
        requires
            self.wf(),
        ensures
            r == self.next_ticket_spec() - 1,
    {
        self.next_ticket - 1
    }

    /// The pending ticket to wait for before reusing a slot, given the
    /// highest completed ticket: only one not completed yet.
    pub fn wait_for(pending: Option<Ticket>, completed: Ticket) -> (r: Option<Ticket>)
        ensures
            r == (match pending {
                Some(p) => if completed < p { Some(p) } else { None },
                None => None,
            }),
    {
        match pending {
            Some(p) => if completed < p { Some(p) } else { None },
            None => None,
        }
    }

    /// Starts a submission. An empty batch (no staging bytes, no uploads, no
    /// device copies) is not submitted: `None`, nothing changes. Otherwise
    /// the cursor's slot is taken and the cursor moves on; the result names
    /// the slot, the ticket it may still be busy with, and the staging size to
    /// grow to when the slot's staging buffer is missing or too small.
    pub fn begin_submit(&mut self, staging_len: u64, uploads: usize, device_copies: usize) -> (r: Option<SubmitSlot>)
        requires
            old(self).wf(),
            staging_len > 0 || uploads > 0 || device_copies > 0 ==> old(self).ring().len() > 0,
        ensures
            final(self).wf(),
            staging_len == 0 && uploads == 0 && device_copies == 0 ==> r is None && *final(self) == *old(self),
            !(staging_len == 0 && uploads == 0 && device_copies == 0) ==> {
                let i = old(self).cursor_spec();
                &&& r == Some(SubmitSlot {
                    index: i,
                    pending: old(self).ring()[i as int].in_flight,
                    grow_to: match old(self).ring()[i as int].staging_size {
                        Some(size) => if size < staging_len {
                            Some(if staging_len >= old(self).staging_capacity_spec() { staging_len } else { old(self).staging_capacity_spec() })
                        } else {
                            None
                        },
                        None => Some(if staging_len >= old(self).staging_capacity_spec() { staging_len } else { old(self).staging_capacity_spec() }),
                    },
                })
                &&& final(self).cursor_spec() == (i + 1) % (old(self).ring().len() as int)
                &&& final(self).ring() == old(self).ring()
                &&& final(self).next_ticket_spec() == old(self).next_ticket_spec()
                &&& final(self).staging_capacity_spec() == old(self).staging_capacity_spec()
                &&& final(self).family() == old(self).family()
            },
    {
        if staging_len == 0 && uploads == 0 && device_copies == 0 {
            return None;
        }
        let index = self.cursor;
        let n = self.slots.len();
        self.cursor = (self.cursor + 1) % n;
        let slot = self.slots[index];
        let wanted = if staging_len >= self.staging_capacity { staging_len } else { self.staging_capacity };
        let grow_to = match slot.staging_size {
            Some(size) => if size < staging_len { Some(wanted) } else { None },
            None => Some(wanted),
        };
        Some(SubmitSlot { index, pending: slot.in_flight, grow_to })
    }

    /// Records that slot `index` now has a staging buffer of `allocation_size` bytes.
    pub fn staging_ready(&mut self, index: usize, allocation_size: u64)
        requires
            old(self).wf(),
            index < old(self).ring().len(),
        ensures
            final(self).wf(),
            final(self).ring() == old(self).ring().update(index as int, RingSlot {
                staging_size: Some(allocation_size),
                in_flight: old(self).ring()[index as int].in_flight,
            }),
            final(self).cursor_spec() == old(self).cursor_spec(),
            final(self).next_ticket_spec() == old(self).next_ticket_spec(),
            final(self).staging_capacity_spec() == old(self).staging_capacity_spec(),
            final(self).family() == old(self).family(),
    {
        let in_flight = self.slots[index].in_flight;
        self.slots.set(index, RingSlot { staging_size: Some(allocation_size), in_flight });
    }

    /// Publishes the ticket of a batch whose submission succeeded from slot
    /// `index`: the slot is busy with it and the counter moves on.
    pub fn finish_submit(&mut self, index: usize) -> (r: Ticket)
        requires
            old(self).wf(),
            index < old(self).ring().len(),
            old(self).next_ticket_spec() < u64::MAX,
        ensures
            final(self).wf(),
            r == old(self).next_ticket_spec(),
            final(self).next_ticket_spec() == r + 1,
            final(self).ring() == old(self).ring().update(index as int, RingSlot {
                staging_size: old(self).ring()[index as int].staging_size,
                in_flight: Some(r),
            }),
            final(self).cursor_spec() == old(self).cursor_spec(),
            final(self).staging_capacity_spec() == old(self).staging_capacity_spec(),
            final(self).family() == old(self).family(),
    {
        let ticket = self.next_ticket;
        let staging_size = self.slots[index].staging_size;
        self.slots.set(index, RingSlot { staging_size, in_flight: Some(ticket) });
        self.next_ticket = self.next_ticket + 1;
        ticket
    }
}

} // verus!
