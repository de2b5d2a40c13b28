//! Per-queue state: available chains, the used ring, and completion
//! signaling.
//!
//! The used ring is modeled as an append-only log plus a wrapping 16-bit
//! used index: completions are appended in the order they happen and
//! nothing is ever reordered or dropped. Interrupt suppression follows the
//! event-index rule: when the guest enabled it and set a threshold, the
//! interrupt is raised only when the used index crosses that threshold,
//! compared with wraparound-safe arithmetic over the 16-bit index space;
//! with suppression disabled, every completion notifies.

use vstd::prelude::*;

verus! {

/// One completed chain in the used ring: its head index and the number of
/// bytes written into its writable descriptors, status byte included.
#[derive(Clone, Copy, Debug, PartialEq, Eq, Structural)]
pub struct UsedEntry {
    pub id: u16,
    pub len: u32,
}

/// The mathematical content of one queue.
#[verifier::ext_equal]
pub ghost struct QueueV {
    /// Fixed ring size (the walk's step limit).
    pub size: u16,
    /// Whether the queue has been started.
    pub ready: bool,
    /// Every head index the guest has made available, oldest first.
    pub avail: Seq<u16>,
    /// How many entries of `avail` have been consumed.
    pub next_avail: int,
    /// Every completion so far, oldest first.
    pub used: Seq<UsedEntry>,
    /// The wrapping 16-bit used index the guest sees.
    pub used_idx: u16,
    /// Whether the guest acknowledged event-index suppression.
    pub event_idx_enabled: bool,
    /// The guest's suppression threshold.
    pub used_event: u16,
    /// The used index as of the last interrupt raised.
    pub signaled_idx: u16,
    /// Chains dropped for a validation error, never completed.
    pub errors: u64,
}

/// `a - b` in the wrapping 16-bit index space.
pub open spec fn wrap_dist(a: u16, b: u16) -> int {
    if a >= b {
        a - b
    } else {
        a - b + 0x10000
    }
}

/// `x + 1` in the wrapping 16-bit index space.
pub open spec fn wrap_inc(x: u16) -> u16 {
    if x == 0xffff {
        0
    } else {
        (x + 1) as u16
    }
}

/// The event-index rule: an interrupt is due when the used index moved
/// from `old_idx` to `new_idx` and thereby crossed the threshold
/// `event_idx`.
pub open spec fn spec_need_event(event_idx: u16, new_idx: u16, old_idx: u16) -> bool {
    wrap_dist(new_idx, wrap_inc(event_idx)) < wrap_dist(new_idx, old_idx)
}

/// Whether the queue owes the guest an interrupt now: always when
/// suppression is off, by the event-index rule when it is on.
pub open spec fn spec_should_notify(q: QueueV) -> bool {
    if !q.event_idx_enabled {
        true
    } else {
        spec_need_event(q.used_event, q.used_idx, q.signaled_idx)
    }
}

/// In a window that does not wrap (the used index moved from `old_idx`
/// forward to `new_idx` without passing 0xffff), the event-index rule
/// fires exactly when the threshold lies inside the window: no interrupt
/// before the used index advances past `t`, one as soon as it does.
pub proof fn lemma_event_idx_threshold(t: u16, new_idx: u16, old_idx: u16)
    requires
        old_idx <= new_idx,
    ensures
        spec_need_event(t, new_idx, old_idx) <==> (old_idx <= t < new_idx),
{
}

/// One virtio request queue.
pub struct QueueState {
    size: u16,
    ready: bool,
    avail: Vec<u16>,
    next_avail: usize,
    used: Vec<UsedEntry>,
    used_idx: u16,
    event_idx_enabled: bool,
    used_event: u16,
    signaled_idx: u16,
    errors: u64,
}

impl View for QueueState {
    type V = QueueV;

    closed spec fn view(&self) -> QueueV {
        QueueV {
            size: self.size,
            ready: self.ready,
            avail: self.avail@,
            next_avail: self.next_avail as int,
            used: self.used@,
            used_idx: self.used_idx,
            event_idx_enabled: self.event_idx_enabled,
            used_event: self.used_event,
            signaled_idx: self.signaled_idx,
            errors: self.errors,
        }
    }
}

impl QueueState {
    /// Consumed entries never outrun the available log.
    pub open spec fn wf(&self) -> bool {
        0 <= self@.next_avail <= self@.avail.len()
    }

    /// A fresh, stopped queue of the given ring size.
    pub fn new(size: u16) -> (q: Self)
        ensures
            q.wf(),
            q@ == (QueueV {
                size,
                ready: false,
                avail: Seq::<u16>::empty(),
                next_avail: 0int,
                used: Seq::<UsedEntry>::empty(),
                used_idx: 0u16,
                event_idx_enabled: false,
                used_event: 0u16,
                signaled_idx: 0u16,
                errors: 0u64,
            }),
    {
        let q = QueueState {
            size,
            ready: false,
            avail: Vec::new(),
            next_avail: 0,
            used: Vec::new(),
            used_idx: 0,
            event_idx_enabled: false,
            used_event: 0,
            signaled_idx: 0,
            errors: 0,
        };
        proof {
            assert(q@.avail =~= Seq::<u16>::empty());
            assert(q@.used =~= Seq::<UsedEntry>::empty());
        }
        q
    }

    /// The ring size.
    pub fn size(&self) -> (r: u16)
        ensures
            r == self@.size,
    {
        self.size
    }

    /// Whether the queue has been started.
    pub fn ready(&self) -> (r: bool)
        ensures
            r == self@.ready,
    {
        self.ready
    }

    /// Starts or stops the queue.
    pub fn set_ready(&mut self, ready: bool)
        requires
            old(self).wf(),
        ensures
            final(self).wf(),
            final(self)@ == (QueueV { ready, ..old(self)@ }),
    {
        self.ready = ready;
    }

    /// Enables or disables event-index suppression, as negotiation decided.
    pub fn set_event_idx(&mut self, enabled: bool)
        requires
            old(self).wf(),
        ensures
            final(self).wf(),
            final(self)@ == (QueueV { event_idx_enabled: enabled, ..old(self)@ }),
    {
        self.event_idx_enabled = enabled;
    }

    /// Records the guest's suppression threshold.
    pub fn set_used_event(&mut self, t: u16)
        requires
            old(self).wf(),
        ensures
            final(self).wf(),
            final(self)@ == (QueueV { used_event: t, ..old(self)@ }),
    {
        self.used_event = t;
    }

    /// The guest made one more chain available.
    pub fn push_avail(&mut self, head: u16)
        requires
            old(self).wf(),
        ensures
            final(self).wf(),
            final(self)@ == (QueueV { avail: old(self)@.avail.push(head), ..old(self)@ }),
    {
        self.avail.push(head);
    }

    /// How many available chains have not been consumed yet.
    pub fn pending(&self) -> (r: usize)
        requires
            self.wf(),
        ensures
            r == self@.avail.len() - self@.next_avail,
    {
        self.avail.len() - self.next_avail
    }

    /// Consumes the oldest not-yet-consumed available chain, if any:
    /// strictly first-in, first-out.
    pub fn pop_avail(&mut self) -> (r: Option<u16>)
        requires
            old(self).wf(),
        ensures
            final(self).wf(),
            match r {
                Some(head) => old(self)@.next_avail < old(self)@.avail.len() && head == old(
                    self,
                )@.avail[old(self)@.next_avail] && final(self)@ == (QueueV {
                    next_avail: old(self)@.next_avail + 1,
                    ..old(self)@
                }),
                None => old(self)@.next_avail == old(self)@.avail.len() && final(self)@ == old(
                    self,
                )@,
            },
    {
        if self.next_avail < self.avail.len() {
            let head = self.avail[self.next_avail];
            self.next_avail = self.next_avail + 1;
            Some(head)
        } else {
            None
        }
    }

    /// Appends one completion to the used ring and advances the wrapping
    /// used index. The ring is append-only: every earlier entry stays,
    /// in place, in order.
    pub fn complete(&mut self, id: u16, len: u32)
        requires
            old(self).wf(),
        ensures
            final(self).wf(),
            final(self)@ == (QueueV {
                used: old(self)@.used.push(UsedEntry { id, len }),
                used_idx: wrap_inc(old(self)@.used_idx),
                ..old(self)@
            }),
    {
        self.used.push(UsedEntry { id, len });
        self.used_idx = if self.used_idx == 0xffff {
            0
        } else {
            self.used_idx + 1
        };
    }

    /// Counts one dropped chain.
    pub fn count_error(&mut self)
        requires
            old(self).wf(),
        ensures
            final(self).wf(),
            final(self)@ == (QueueV {
                errors: if old(self)@.errors == u64::MAX {
                    old(self)@.errors
                } else {
                    (old(self)@.errors + 1) as u64
                },
                ..old(self)@
            }),
    {
        if self.errors < u64::MAX {
            self.errors = self.errors + 1;
        }
    }

    /// How many chains were dropped for validation errors.
    pub fn errors(&self) -> (r: u64)
        ensures
            r == self@.errors,
    {
        self.errors
    }

    /// The used ring so far, oldest completion first.
    pub fn used_entries(&self) -> (r: &Vec<UsedEntry>)
        ensures
            r@ == self@.used,
    {
        &self.used
    }

    /// The wrapping used index.
    pub fn used_idx(&self) -> (r: u16)
        ensures
            r == self@.used_idx,
    {
        self.used_idx
    }

    /// Decides whether to raise the guest interrupt now, and if so records
    /// the used index it covers. Exactly [`spec_should_notify`]: every
    /// completion notifies while suppression is off; with suppression on,
    /// only crossing the guest's threshold does.
    pub fn maybe_notify(&mut self) -> (notify: bool)
        requires
            old(self).wf(),
        ensures
            final(self).wf(),
            notify == spec_should_notify(old(self)@),
            notify ==> final(self)@ == (QueueV { signaled_idx: old(self)@.used_idx, ..old(self)@ }),
            !notify ==> final(self)@ == old(self)@,
    {
        let notify = if !self.event_idx_enabled {
            true
        } else {
            let a = wrap_sub(self.used_idx, wrap_add1(self.used_event));
            let b = wrap_sub(self.used_idx, self.signaled_idx);
            a < b
        };
        if notify {
            self.signaled_idx = self.used_idx;
        }
        notify
    }
}

fn wrap_add1(x: u16) -> (r: u16)
    ensures
        r == wrap_inc(x),
{
    if x == 0xffff {
        0
    } else {
        x + 1
    }
}

fn wrap_sub(a: u16, b: u16) -> (r: u16)
    ensures
        r == wrap_dist(a, b),
{
    if a >= b {
        a - b
    } else {
        let d: u32 = 0x10000u32 - (b as u32) + (a as u32);
        d as u16
    }
}

} // verus!
