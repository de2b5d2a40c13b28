//! The per-queue event loop: drain available chains in order, running each
//! through parse, execute and complete.
//!
//! Draining is synchronous and first-in, first-out: once a chain starts it
//! runs to completion before the next is dequeued, so the used ring
//! receives completions in exactly the order the chains were made
//! available. A chain that fails validation is dropped and counted, the
//! store untouched; an execution failure becomes that chain's status byte
//! and the loop proceeds. Whether a completion owes the guest an interrupt
//! is the queue's decision, by the event-index rule; raising it, like the
//! waiting itself, is transport work outside this crate. The transport
//! hands queue-ready and exit events to the worker and replaces a memory
//! mapping only between drains, so every chain in flight finishes against
//! the mapping it was parsed under.

use vstd::prelude::*;

use crate::exec::{execute, spec_execute};
use crate::mem::{
    lemma_same_geometry_find, lemma_write_mem_same_geometry, same_geometry,
    spec_write_mem, GuestMem, RegionV,
};
use crate::parser::{lemma_parse_ok_resolves, parse_chain, spec_parse};
use crate::queue::{wrap_inc, QueueState, QueueV, UsedEntry};
use crate::request::{ChainError, Descriptor, ReqV, RequestKind};
use crate::store::{SectorStore, StoreV};

verus! {

/// An error count, grown by one, saturating.
pub open spec fn spec_bump_errors(e: u64) -> u64 {
    if e == u64::MAX {
        e
    } else {
        (e + 1) as u64
    }
}

/// Everything one chain leaves behind: the queue with either a completion
/// appended or an error counted, the store and mapping after the command
/// and the status-byte write, and the validation error if the chain was
/// dropped. A dropped chain touches neither the store nor guest memory.
pub open spec fn spec_process_chain(
    table: Seq<Descriptor>,
    head: u16,
    q: QueueV,
    s: StoreV,
    m: Seq<RegionV>,
) -> (QueueV, StoreV, Seq<RegionV>, Option<ChainError>) {
    match spec_parse(table, head, q.size, m) {
        Err(e) => (QueueV { errors: spec_bump_errors(q.errors), ..q }, s, m, Some(e)),
        Ok(v) => {
            let (st, wr, s2, m2) = spec_execute(v, s, m);
            let m3 = spec_write_mem(m2, v.status_addr, seq![st]);
            let q2 = QueueV {
                used: q.used.push(UsedEntry { id: head, len: (wr + 1) as u32 }),
                used_idx: wrap_inc(q.used_idx),
                ..q
            };
            (q2, s2, m3, None)
        },
    }
}

/// The guest bytes written by one request stay strictly below the 32-bit
/// limit, leaving room for the status byte in the used length.
pub proof fn lemma_execute_written_bound(v: ReqV, s: StoreV, m: Seq<RegionV>)
    ensures
        spec_execute(v, s, m).1 <= u32::MAX - 1,
{
    if v.kind == RequestKind::Read {
        crate::exec::lemma_spans_len_bounds(v.data, 0);
    }
}

/// The chain outcome does not depend on how far the available ring was
/// consumed: processing with a different `next_avail` gives the same
/// store, mapping and outcome, and the same queue up to that field.
pub proof fn lemma_process_chain_next_irrelevant(
    table: Seq<Descriptor>,
    head: u16,
    q: QueueV,
    s: StoreV,
    m: Seq<RegionV>,
    n: int,
)
    ensures
        ({
            let (q1, s1, m1, o1) = spec_process_chain(table, head, q, s, m);
            let (q2, s2, m2, o2) = spec_process_chain(
                table,
                head,
                QueueV { next_avail: n, ..q },
                s,
                m,
            );
            q2 == (QueueV { next_avail: n, ..q1 }) && s2 == s1 && m2 == m1 && o2 == o1
        }),
{
    let (q1, s1, m1, o1) = spec_process_chain(table, head, q, s, m);
    let (q2, s2, m2, o2) = spec_process_chain(table, head, QueueV { next_avail: n, ..q }, s, m);
    assert(q2 =~= (QueueV { next_avail: n, ..q1 }));
}

/// Parses, executes and completes one chain. Returns the validation error
/// when the chain was dropped. The queue, store and mapping afterwards are
/// exactly [`spec_process_chain`] of the state before.
pub fn process_chain(
    table: &Vec<Descriptor>,
    head: u16,
    q: &mut QueueState,
    store: &mut SectorStore,
    mem: &mut GuestMem,
) -> (r: Option<ChainError>)
    requires
        old(q).wf(),
        old(store).wf(),
        old(mem).wf(),
    ensures
        final(q).wf(),
        final(store).wf(),
        final(mem).wf(),
        same_geometry(old(mem)@, final(mem)@),
        ({
            let (q2, s2, m2, o) = spec_process_chain(
                table@,
                head,
                old(q)@,
                old(store)@,
                old(mem)@,
            );
            final(q)@ == q2 && final(store)@ == s2 && final(mem)@ == m2 && r == o
        }),
{
    let qsize = q.size();
    match parse_chain(table, head, qsize, mem) {
        Err(e) => {
            q.count_error();
            Some(e)
        },
        Ok(req) => {
            proof {
                lemma_parse_ok_resolves(table@, head, qsize, mem@);
            }
            let ghost m0 = mem@;
            let (st, wr) = execute(&req, store, mem);
            proof {
                lemma_execute_written_bound(req@, old(store)@, m0);
                lemma_same_geometry_find(m0, mem@, req.status_addr, 1, 0);
            }
            let ghost m2 = mem@;
            let mut sbuf: Vec<u8> = Vec::new();
            sbuf.push(st);
            let ok = mem.write(req.status_addr, sbuf.as_slice());
            proof {
                assert(sbuf@ =~= seq![st]);
                assert(ok);
                lemma_write_mem_same_geometry(m2, req.status_addr, sbuf@);
                assert forall|i: int| 0 <= i < m0.len() implies (#[trigger] m0[i]).start
                    == mem@[i].start && m0[i].data.len() == mem@[i].data.len() by {
                    assert(m0[i].start == m2[i].start && m0[i].data.len() == m2[i].data.len());
                }
            }
            q.complete(head, wr + 1);
            None
        },
    }
}

/// The queue, store and mapping after draining the chains `heads[j..]` in
/// order, each through [`spec_process_chain`].
pub open spec fn spec_drain_heads(
    table: Seq<Descriptor>,
    heads: Seq<u16>,
    j: int,
    q: QueueV,
    s: StoreV,
    m: Seq<RegionV>,
) -> (QueueV, StoreV, Seq<RegionV>)
    decreases heads.len() - j,
{
    if j < 0 || j >= heads.len() {
        (q, s, m)
    } else {
        let (q2, s2, m2, o) = spec_process_chain(table, heads[j], q, s, m);
        spec_drain_heads(table, heads, j + 1, q2, s2, m2)
    }
}

/// The used entries a drain of `heads[j..]` appends, oldest first: one per
/// chain that completed, in exactly the order the chains stood in the
/// available ring; dropped chains append nothing.
pub open spec fn spec_drain_entries(
    table: Seq<Descriptor>,
    heads: Seq<u16>,
    j: int,
    q: QueueV,
    s: StoreV,
    m: Seq<RegionV>,
) -> Seq<UsedEntry>
    decreases heads.len() - j,
{
    if j < 0 || j >= heads.len() {
        Seq::empty()
    } else {
        let (q2, s2, m2, o) = spec_process_chain(table, heads[j], q, s, m);
        let rest = spec_drain_entries(table, heads, j + 1, q2, s2, m2);
        if o is None {
            seq![q2.used.last()] + rest
        } else {
            rest
        }
    }
}

/// First-in, first-out completion: a drain appends its completions to the
/// used ring in exactly the order the chains were made available — every
/// entry already in the ring stays, in place and in order, and nothing
/// else changes the ring.
pub proof fn lemma_drain_is_fifo(
    table: Seq<Descriptor>,
    heads: Seq<u16>,
    j: int,
    q: QueueV,
    s: StoreV,
    m: Seq<RegionV>,
)
    ensures
        spec_drain_heads(table, heads, j, q, s, m).0.used == q.used + spec_drain_entries(
            table,
            heads,
            j,
            q,
            s,
            m,
        ),
    decreases heads.len() - j,
{
    if j < 0 || j >= heads.len() {
        assert(q.used + Seq::<UsedEntry>::empty() =~= q.used);
    } else {
        let (q2, s2, m2, o) = spec_process_chain(table, heads[j], q, s, m);
        lemma_drain_is_fifo(table, heads, j + 1, q2, s2, m2);
        let rest = spec_drain_entries(table, heads, j + 1, q2, s2, m2);
        if o is None {
            assert(q2.used == q.used.push(q2.used.last()));
            assert(q.used.push(q2.used.last()) + rest =~= q.used + (seq![q2.used.last()] + rest));
        } else {
            assert(q2.used == q.used);
        }
    }
}

/// Drains every not-yet-consumed available chain, oldest first, running
/// each to completion before the next is dequeued. Afterwards the
/// available ring is fully consumed and queue, store and mapping are
/// exactly the fold of [`spec_process_chain`] over the pending chains in
/// order.
#[verifier::loop_isolation(false)]
pub fn drain(
    table: &Vec<Descriptor>,
    q: &mut QueueState,
    store: &mut SectorStore,
    mem: &mut GuestMem,
)
    requires
        old(q).wf(),
        old(store).wf(),
        old(mem).wf(),
    ensures
        final(q).wf(),
        final(store).wf(),
        final(mem).wf(),
        same_geometry(old(mem)@, final(mem)@),
        final(q)@.next_avail == final(q)@.avail.len(),
        ({
            let heads = old(q)@.avail.subrange(old(q)@.next_avail, old(q)@.avail.len() as int);
            let (q2, s2, m2) = spec_drain_heads(
                table@,
                heads,
                0,
                old(q)@,
                old(store)@,
                old(mem)@,
            );
            final(q)@ == (QueueV { next_avail: old(q)@.avail.len() as int, ..q2 })
                && final(store)@ == s2 && final(mem)@ == m2
        }),
{
    let ghost q0 = old(q)@;
    let ghost heads = q0.avail.subrange(q0.next_avail, q0.avail.len() as int);
    let ghost mut j: int = 0;
    while q.pending() > 0
        invariant
            q.wf(),
            store.wf(),
            mem.wf(),
            0 <= j <= heads.len(),
            q@.avail == q0.avail,
            q@.next_avail == q0.next_avail + j,
            0 <= q0.next_avail <= q0.avail.len(),
            same_geometry(old(mem)@, mem@),
            spec_drain_heads(table@, heads, 0, q0, old(store)@, old(mem)@) == spec_drain_heads(
                table@,
                heads,
                j,
                QueueV { next_avail: q0.next_avail, ..q@ },
                store@,
                mem@,
            ),
        decreases heads.len() - j,
    {
        let head = match q.pop_avail() {
            Some(h) => h,
            None => {
                proof {
                    assert(false);
                }
                0
            },
        };
        assert(head == heads[j]);
        let ghost qpre = q@;
        let ghost spre = store@;
        let ghost mpre = mem@;
        let outcome = process_chain(table, head, q, store, mem);
        proof {
            lemma_process_chain_next_irrelevant(table@, head, qpre, spre, mpre, q0.next_avail);
            let (qs, ss, ms, os) = spec_process_chain(
                table@,
                head,
                QueueV { next_avail: q0.next_avail, ..qpre },
                spre,
                mpre,
            );
            assert(QueueV { next_avail: q0.next_avail, ..q@ } =~= qs);
            assert forall|i: int| 0 <= i < old(mem)@.len() implies (#[trigger] old(
                mem,
            )@[i]).start == mem@[i].start && old(mem)@[i].data.len() == mem@[i].data.len() by {
                assert(old(mem)@[i].start == mpre[i].start && old(mem)@[i].data.len()
                    == mpre[i].data.len());
            }
            j = j + 1;
        }
    }
    proof {
        assert(j == heads.len());
        assert(spec_drain_heads(
            table@,
            heads,
            j,
            QueueV { next_avail: q0.next_avail, ..q@ },
            store@,
            mem@,
        ) == (QueueV { next_avail: q0.next_avail, ..q@ }, store@, mem@));
        assert(final(q)@ =~= (QueueV {
            next_avail: q0.avail.len() as int,
            ..spec_drain_heads(table@, heads, 0, q0, old(store)@, old(mem)@).0
        }));
    }
}

/// The worker's lifecycle.
#[derive(Clone, Copy, Debug, PartialEq, Eq, Structural)]
pub enum WorkerState {
    /// Waiting for queue activity.
    Idle,
    /// Consuming available chains.
    Draining,
    /// Told to exit; accepts no further chains.
    ShuttingDown,
}

/// One per-queue worker: its lifecycle state and its queue.
pub struct QueueWorker {
    state: WorkerState,
    queue: QueueState,
}

impl QueueWorker {
    pub open spec fn wf(&self) -> bool {
        self.spec_queue().wf()
    }

    pub closed spec fn spec_state(&self) -> WorkerState {
        self.state
    }

    pub closed spec fn spec_queue(&self) -> QueueState {
        self.queue
    }

    /// A fresh, idle worker over a stopped queue of the given ring size.
    pub fn new(queue_size: u16) -> (w: Self)
        ensures
            w.wf(),
            w.spec_state() == WorkerState::Idle,
            w.spec_queue()@.size == queue_size,
            w.spec_queue()@.avail.len() == 0,
            w.spec_queue()@.used.len() == 0,
    {
        QueueWorker { state: WorkerState::Idle, queue: QueueState::new(queue_size) }
    }

    /// The lifecycle state.
    pub fn state(&self) -> (r: WorkerState)
        ensures
            r == self.spec_state(),
    {
        self.state
    }

    /// The worker's queue.
    pub fn queue(&self) -> (r: &QueueState)
        ensures
            *r == self.spec_queue(),
    {
        &self.queue
    }

    /// Mutable access to the worker's queue, for the transport to feed
    /// available chains and guest settings.
    pub fn queue_mut(&mut self) -> (r: &mut QueueState)
        ensures
            *r == old(self).spec_queue(),
            final(self).spec_queue() == *final(r),
            final(self).spec_state() == old(self).spec_state(),
    {
        &mut self.queue
    }

    /// A queue-ready signal: drain every pending chain, then return to
    /// idle. A worker already told to exit accepts no chains and changes
    /// nothing.
    pub fn handle_ready(&mut self, table: &Vec<Descriptor>, store: &mut SectorStore, mem: &mut GuestMem)
        requires
            old(self).wf(),
            old(store).wf(),
            old(mem).wf(),
        ensures
            final(self).wf(),
            final(store).wf(),
            final(mem).wf(),
            old(self).spec_state() == WorkerState::ShuttingDown ==> final(self).spec_state()
                == WorkerState::ShuttingDown && final(self).spec_queue() == old(self).spec_queue()
                && *final(store) == *old(store) && *final(mem) == *old(mem),
            old(self).spec_state() != WorkerState::ShuttingDown ==> final(self).spec_state()
                == WorkerState::Idle && ({
                let q0 = old(self).spec_queue()@;
                let heads = q0.avail.subrange(q0.next_avail, q0.avail.len() as int);
                let (q2, s2, m2) = spec_drain_heads(
                    table@,
                    heads,
                    0,
                    q0,
                    old(store)@,
                    old(mem)@,
                );
                final(self).spec_queue()@ == (QueueV {
                    next_avail: q0.avail.len() as int,
                    ..q2
                }) && final(store)@ == s2 && final(mem)@ == m2
            }),
    {
        match self.state {
            WorkerState::ShuttingDown => {
            },
            _ => {
                self.state = WorkerState::Draining;
                drain(table, &mut self.queue, store, mem);
                self.state = WorkerState::Idle;
            },
        }
    }

    /// An exit signal: stop accepting chains; the queue's record stays as
    /// it is.
    pub fn handle_exit(&mut self)
        requires
            old(self).wf(),
        ensures
            final(self).wf(),
            final(self).spec_state() == WorkerState::ShuttingDown,
            final(self).spec_queue() == old(self).spec_queue(),
    {
        self.state = WorkerState::ShuttingDown;
    }
}

} // verus!
