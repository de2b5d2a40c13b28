//! Execution of typed requests against the sector store.
//!
//! Each command maps to one backing-store operation; every path yields
//! exactly one status code — success, I/O failure, or unsupported — and the
//! number of bytes written into guest memory. Unsupported or malformed
//! commands touch neither the store nor guest data, and an execution error
//! never propagates beyond the status byte of its own request.

use vstd::prelude::*;

use crate::bytes::{u32_of_le, u64_of_le};
use crate::mem::{
    lemma_find_region_covers, lemma_resolves_shrink, lemma_same_geometry_find,
    lemma_write_mem_same_geometry, resolves, same_geometry, spec_read_mem, spec_write_mem,
    GuestMem, RegionV,
};
use crate::request::{DataSpan, ReqV, Request, RequestKind};
use crate::bytes::spec_splice;
use crate::store::{spec_zeros, SectorStore, StoreV, DEVICE_ID_BYTES, SECTOR_BYTES};

verus! {

/// Status byte: the request succeeded.
pub const STATUS_OK: u8 = 0;

/// Status byte: the backing store failed or the range was out of bounds.
pub const STATUS_IOERR: u8 = 1;

/// Status byte: the command is not supported.
pub const STATUS_UNSUPP: u8 = 2;

/// Total byte length of the data spans `spans[i..]`.
pub open spec fn spec_spans_len(spans: Seq<DataSpan>, i: int) -> int
    decreases spans.len() - i,
{
    if i < 0 || i >= spans.len() {
        0
    } else {
        spans[i].len + spec_spans_len(spans, i + 1)
    }
}

/// The span total is non-negative and at most one maximal buffer per span.
pub proof fn lemma_spans_len_bounds(spans: Seq<DataSpan>, i: int)
    requires
        0 <= i <= spans.len(),
    ensures
        0 <= spec_spans_len(spans, i) <= (spans.len() - i) * (u32::MAX as int),
    decreases spans.len() - i,
{
    if i < spans.len() {
        lemma_spans_len_bounds(spans, i + 1);
    }
}

/// The guest bytes of the data spans `spans[i..]`, concatenated in order.
pub open spec fn spec_gather(regions: Seq<RegionV>, spans: Seq<DataSpan>, i: int) -> Seq<u8>
    decreases spans.len() - i,
{
    if i < 0 || i >= spans.len() {
        Seq::empty()
    } else {
        spec_read_mem(regions, spans[i].addr, spans[i].len as nat) + spec_gather(
            regions,
            spans,
            i + 1,
        )
    }
}

/// Gathered bytes are as long as the spans they came from.
pub proof fn lemma_gather_len(regions: Seq<RegionV>, spans: Seq<DataSpan>, i: int)
    requires
        0 <= i,
        forall|j: int|
            i <= j < spans.len() ==> resolves(
                regions,
                (#[trigger] spans[j]).addr,
                spans[j].len as nat,
            ),
    ensures
        spec_gather(regions, spans, i).len() == spec_spans_len(spans, i),
    decreases spans.len() - i,
{
    if i < spans.len() {
        lemma_find_region_covers(regions, spans[i].addr, spans[i].len as nat, 0);
        lemma_gather_len(regions, spans, i + 1);
    }
}

/// The mapping after scattering `src[off..]` into the spans `spans[i..]`,
/// each span taking its own length of bytes in order.
pub open spec fn spec_scatter(
    regions: Seq<RegionV>,
    spans: Seq<DataSpan>,
    src: Seq<u8>,
    i: int,
    off: int,
) -> Seq<RegionV>
    decreases spans.len() - i,
{
    if i < 0 || i >= spans.len() {
        regions
    } else {
        spec_scatter(
            spec_write_mem(regions, spans[i].addr, src.subrange(off, off + spans[i].len)),
            spans,
            src,
            i + 1,
            off + spans[i].len,
        )
    }
}

/// The status, guest bytes written, store and mapping one request leaves
/// behind. Commands that read guest data never change the mapping; commands
/// that fill guest data never change the store; flush moves the volatile
/// image to the durable one; failures leave both exactly as they were.
pub open spec fn spec_execute(v: ReqV, s: StoreV, m: Seq<RegionV>) -> (u8, u32, StoreV, Seq<
    RegionV,
>) {
    match v.kind {
        RequestKind::Write => {
            let total = spec_spans_len(v.data, 0);
            if total > u32::MAX - 1 {
                (STATUS_IOERR, 0u32, s, m)
            } else if v.sector * (SECTOR_BYTES as int) + total > s.volatile.len() {
                (STATUS_IOERR, 0u32, s, m)
            } else {
                (
                    STATUS_OK,
                    0u32,
                    StoreV {
                        durable: s.durable,
                        volatile: spec_splice(
                            s.volatile,
                            v.sector * (SECTOR_BYTES as int),
                            spec_gather(m, v.data, 0),
                        ),
                        id: s.id,
                    },
                    m,
                )
            }
        },
        RequestKind::Read => {
            let total = spec_spans_len(v.data, 0);
            if total > u32::MAX - 1 {
                (STATUS_IOERR, 0u32, s, m)
            } else if v.sector * (SECTOR_BYTES as int) + total > s.volatile.len() {
                (STATUS_IOERR, 0u32, s, m)
            } else {
                (
                    STATUS_OK,
                    total as u32,
                    s,
                    spec_scatter(
                        m,
                        v.data,
                        s.volatile.subrange(
                            v.sector * (SECTOR_BYTES as int),
                            v.sector * (SECTOR_BYTES as int) + total,
                        ),
                        0,
                        0,
                    ),
                )
            }
        },
        RequestKind::Flush => (
            STATUS_OK,
            0u32,
            StoreV { durable: s.volatile, volatile: s.volatile, id: s.id },
            m,
        ),
        RequestKind::GetId => {
            if v.data.len() == 0 || v.data[0].len < DEVICE_ID_BYTES {
                (STATUS_UNSUPP, 0u32, s, m)
            } else {
                (
                    STATUS_OK,
                    DEVICE_ID_BYTES as u32,
                    s,
                    spec_write_mem(m, v.data[0].addr, s.id),
                )
            }
        },
        RequestKind::Discard => spec_execute_range_cmd(v, s, m, false, false),
        RequestKind::WriteZeroes => spec_execute_range_cmd(v, s, m, true, true),
        RequestKind::SecureErase => spec_execute_range_cmd(v, s, m, true, false),
        RequestKind::Unsupported => (STATUS_UNSUPP, 0u32, s, m),
    }
}

/// The shared shape of discard, write-zeroes and secure erase: one 16-byte
/// segment — sector, count, flags — read from the single data span.
/// `zeroes` says whether the range is zeroed; `allow_unmap` whether the
/// segment may carry the unmap flag (write-zeroes only).
pub open spec fn spec_execute_range_cmd(
    v: ReqV,
    s: StoreV,
    m: Seq<RegionV>,
    zeroes: bool,
    allow_unmap: bool,
) -> (u8, u32, StoreV, Seq<RegionV>) {
    if v.data.len() != 1 || v.data[0].len != 16 {
        (STATUS_UNSUPP, 0u32, s, m)
    } else {
        let seg = spec_read_mem(m, v.data[0].addr, 16);
        let sector = u64_of_le(seg.subrange(0, 8));
        let count = u32_of_le(seg.subrange(8, 12));
        let flags = u32_of_le(seg.subrange(12, 16));
        let flags_ok = if allow_unmap {
            flags & 0xffff_fffe == 0
        } else {
            flags == 0
        };
        if !flags_ok {
            (STATUS_UNSUPP, 0u32, s, m)
        } else if (sector + count) * (SECTOR_BYTES as int) > s.volatile.len() {
            (STATUS_IOERR, 0u32, s, m)
        } else if zeroes {
            (
                STATUS_OK,
                0u32,
                StoreV {
                    durable: s.durable,
                    volatile: spec_splice(
                        s.volatile,
                        sector * (SECTOR_BYTES as int),
                        spec_zeros((count * (SECTOR_BYTES as int)) as nat),
                    ),
                    id: s.id,
                },
                m,
            )
        } else {
            (STATUS_OK, 0u32, s, m)
        }
    }
}

/// Flush orders after writes: when two writes on the same queue succeed
/// and a flush follows them, the flush reports success only together with
/// a durable image equal to the working image — and that image holds both
/// writes' bytes, the later write prevailing where the two ranges overlap.
/// With the drain loop running chains strictly in order, a flush thus
/// never completes before the writes dequeued ahead of it are applied.
pub proof fn lemma_flush_covers_prior_writes(
    v1: ReqV,
    v2: ReqV,
    vf: ReqV,
    s0: StoreV,
    m1: Seq<RegionV>,
    m2: Seq<RegionV>,
    m3: Seq<RegionV>,
)
    requires
        v1.kind == RequestKind::Write,
        v2.kind == RequestKind::Write,
        vf.kind == RequestKind::Flush,
        spec_execute(v1, s0, m1).0 == STATUS_OK,
        spec_execute(v2, spec_execute(v1, s0, m1).2, m2).0 == STATUS_OK,
    ensures
        ({
            let s1 = spec_execute(v1, s0, m1).2;
            let s2 = spec_execute(v2, s1, m2).2;
            let r = spec_execute(vf, s2, m3);
            let d1 = spec_gather(m1, v1.data, 0);
            let d2 = spec_gather(m2, v2.data, 0);
            let off1 = v1.sector * (SECTOR_BYTES as int);
            let off2 = v2.sector * (SECTOR_BYTES as int);
            r.0 == STATUS_OK && r.2.durable == s2.volatile && (forall|i: int|
                off2 <= i < off2 + d2.len() && 0 <= i < r.2.durable.len() ==> r.2.durable[i]
                    == d2[i - off2]) && (forall|i: int|
                off1 <= i < off1 + d1.len() && !(off2 <= i < off2 + d2.len()) && 0 <= i
                    < r.2.durable.len() ==> r.2.durable[i] == d1[i - off1])
        }),
{
}

/// Sums the span lengths; `None` when the total, plus the status byte,
/// would not fit the used ring's 32-bit length field.
fn total_len(spans: &Vec<DataSpan>) -> (r: Option<u32>)
    ensures
        r matches Some(t) ==> t == spec_spans_len(spans@, 0) && t <= u32::MAX - 1,
        r is None ==> spec_spans_len(spans@, 0) > u32::MAX - 1,
{
    let n = spans.len();
    let mut sum: u64 = 0;
    let mut i: usize = 0;
    while i < n
        invariant
            0 <= i <= n,
            n == spans@.len(),
            sum <= u32::MAX - 1,
            spec_spans_len(spans@, 0) == sum + spec_spans_len(spans@, i as int),
        decreases n - i,
    {
        let l = spans[i].len;
        proof {
            lemma_spans_len_bounds(spans@, i + 1);
        }
        if (l as u64) > (u32::MAX as u64) - 1 - sum {
            return None;
        }
        sum = sum + (l as u64);
        i = i + 1;
    }
    Some(sum as u32)
}

/// Copies `src[off..off + len]`.
fn copy_range(src: &Vec<u8>, off: usize, len: usize) -> (r: Vec<u8>)
    requires
        off + len <= src@.len(),
    ensures
        r@ == src@.subrange(off as int, off + len),
{
    let slen = src.len();
    let mut r: Vec<u8> = Vec::new();
    let mut j: usize = 0;
    while j < len
        invariant
            0 <= j <= len,
            off + len <= slen,
            slen == src@.len(),
            r@ == src@.subrange(off as int, off + j),
        decreases len - j,
    {
        r.push(src[off + j]);
        assert(r@ =~= src@.subrange(off as int, off + j + 1));
        j = j + 1;
    }
    r
}

/// Reads every span's bytes from guest memory, concatenated in span order.
fn gather(mem: &GuestMem, spans: &Vec<DataSpan>) -> (r: Vec<u8>)
    requires
        mem.wf(),
        forall|j: int|
            0 <= j < spans@.len() ==> resolves(
                mem@,
                (#[trigger] spans@[j]).addr,
                spans@[j].len as nat,
            ),
    ensures
        r@ == spec_gather(mem@, spans@, 0),
{
    let n = spans.len();
    let mut out: Vec<u8> = Vec::new();
    proof {
        assert(Seq::<u8>::empty() + spec_gather(mem@, spans@, 0) =~= spec_gather(mem@, spans@, 0));
    }
    let mut i: usize = 0;
    while i < n
        invariant
            0 <= i <= n,
            n == spans@.len(),
            mem.wf(),
            forall|j: int|
                0 <= j < spans@.len() ==> resolves(
                    mem@,
                    (#[trigger] spans@[j]).addr,
                    spans@[j].len as nat,
                ),
            spec_gather(mem@, spans@, 0) == out@ + spec_gather(mem@, spans@, i as int),
        decreases n - i,
    {
        let span = spans[i];
        let ghost pre = out@;
        let mut chunk = match mem.read(span.addr, span.len) {
            Some(c) => c,
            None => {
                proof {
                    assert(false);
                }
                Vec::new()
            },
        };
        out.append(&mut chunk);
        proof {
            assert(pre + (spec_read_mem(mem@, span.addr, span.len as nat) + spec_gather(
                mem@,
                spans@,
                i + 1,
            )) =~= out@ + spec_gather(mem@, spans@, i + 1));
        }
        i = i + 1;
    }
    proof {
        assert(out@ + spec_gather(mem@, spans@, n as int) =~= out@);
    }
    out
}

/// Writes consecutive slices of `src` into the spans, in span order.
fn scatter(mem: &mut GuestMem, spans: &Vec<DataSpan>, src: &Vec<u8>)
    requires
        old(mem).wf(),
        forall|j: int|
            0 <= j < spans@.len() ==> resolves(
                old(mem)@,
                (#[trigger] spans@[j]).addr,
                spans@[j].len as nat,
            ),
        src@.len() == spec_spans_len(spans@, 0),
        src@.len() <= u32::MAX,
    ensures
        final(mem).wf(),
        same_geometry(old(mem)@, final(mem)@),
        final(mem)@ == spec_scatter(old(mem)@, spans@, src@, 0, 0),
{
    let n = spans.len();
    let mut i: usize = 0;
    let mut off: usize = 0;
    while i < n
        invariant
            0 <= i <= n,
            n == spans@.len(),
            mem.wf(),
            same_geometry(old(mem)@, mem@),
            forall|j: int|
                0 <= j < spans@.len() ==> resolves(
                    old(mem)@,
                    (#[trigger] spans@[j]).addr,
                    spans@[j].len as nat,
                ),
            src@.len() == spec_spans_len(spans@, 0),
            src@.len() <= u32::MAX,
            off == spec_spans_len(spans@, 0) - spec_spans_len(spans@, i as int),
            spec_scatter(old(mem)@, spans@, src@, 0, 0) == spec_scatter(
                mem@,
                spans@,
                src@,
                i as int,
                off as int,
            ),
        decreases n - i,
    {
        let span = spans[i];
        proof {
            lemma_spans_len_bounds(spans@, i as int);
            lemma_spans_len_bounds(spans@, i + 1);
        }
        let chunk = copy_range(src, off, span.len as usize);
        let ghost cur = mem@;
        proof {
            lemma_same_geometry_find(old(mem)@, cur, span.addr, span.len as nat, 0);
        }
        let ok = mem.write(span.addr, chunk.as_slice());
        proof {
            assert(ok);
            lemma_write_mem_same_geometry(cur, span.addr, chunk@);
        }
        off = off + span.len as usize;
        i = i + 1;
    }
    proof {
        assert(spec_scatter(mem@, spans@, src@, n as int, off as int) == mem@);
    }
}

/// Reads the one 16-byte segment of a discard, write-zeroes or secure-erase
/// request: starting sector, sector count, flags.
fn parse_segment(seg: &Vec<u8>) -> (r: (u64, u32, u32))
    requires
        seg@.len() == 16,
    ensures
        r.0 == u64_of_le(seg@.subrange(0, 8)),
        r.1 == u32_of_le(seg@.subrange(8, 12)),
        r.2 == u32_of_le(seg@.subrange(12, 16)),
{
    let sector = crate::bytes::read_u64_le(seg.as_slice(), 0);
    let count = crate::bytes::read_u32_le(seg.as_slice(), 8);
    let flags = crate::bytes::read_u32_le(seg.as_slice(), 12);
    (sector, count, flags)
}

/// Executes one validated request against the store and the guest mapping,
/// returning the status byte and the number of bytes written into guest
/// memory. The outcome is exactly [`spec_execute`] of the request: every
/// failure leaves store and mapping unchanged, and no command changes the
/// mapping's layout.
#[verifier::loop_isolation(false)]
pub fn execute(req: &Request, store: &mut SectorStore, mem: &mut GuestMem) -> (r: (u8, u32))
    requires
        old(mem).wf(),
        old(store).wf(),
        forall|j: int|
            0 <= j < req@.data.len() ==> resolves(
                old(mem)@,
                (#[trigger] req@.data[j]).addr,
                req@.data[j].len as nat,
            ),
    ensures
        final(mem).wf(),
        final(store).wf(),
        same_geometry(old(mem)@, final(mem)@),
        ({
            let (st, wr, s2, m2) = spec_execute(req@, old(store)@, old(mem)@);
            r.0 == st && r.1 == wr && final(store)@ == s2 && final(mem)@ == m2
        }),
{
    match req.kind {
        RequestKind::Write => {
            let total = match total_len(&req.data) {
                None => {
                    return (STATUS_IOERR, 0);
                },
                Some(t) => t,
            };
            let data = gather(mem, &req.data);
            proof {
                lemma_gather_len(mem@, req.data@, 0);
            }
            let ok = store.write_at(req.sector, data.as_slice());
            if ok {
                (STATUS_OK, 0)
            } else {
                (STATUS_IOERR, 0)
            }
        },
        RequestKind::Read => {
            let total = match total_len(&req.data) {
                None => {
                    return (STATUS_IOERR, 0);
                },
                Some(t) => t,
            };
            match store.read_at(req.sector, total) {
                None => (STATUS_IOERR, 0),
                Some(src) => {
                    scatter(mem, &req.data, &src);
                    (STATUS_OK, total)
                },
            }
        },
        RequestKind::Flush => {
            store.flush();
            (STATUS_OK, 0)
        },
        RequestKind::GetId => {
            if req.data.len() == 0 {
                return (STATUS_UNSUPP, 0);
            }
            let d0 = req.data[0];
            if d0.len < DEVICE_ID_BYTES as u32 {
                return (STATUS_UNSUPP, 0);
            }
            proof {
                lemma_resolves_shrink(mem@, d0.addr, d0.len as nat, DEVICE_ID_BYTES as nat, 0);
            }
            let id = store.id().clone();
            let ghost pre = mem@;
            let ok = mem.write(d0.addr, id.as_slice());
            proof {
                assert(ok);
                lemma_write_mem_same_geometry(pre, d0.addr, id@);
            }
            (STATUS_OK, DEVICE_ID_BYTES as u32)
        },
        RequestKind::Discard => {
            let (st, wr) = execute_range_cmd(req, store, mem, false, false);
            (st, wr)
        },
        RequestKind::WriteZeroes => {
            let (st, wr) = execute_range_cmd(req, store, mem, true, true);
            (st, wr)
        },
        RequestKind::SecureErase => {
            let (st, wr) = execute_range_cmd(req, store, mem, true, false);
            (st, wr)
        },
        RequestKind::Unsupported => (STATUS_UNSUPP, 0),
    }
}

/// Runs one range command — discard, write-zeroes or secure erase — from
/// its single 16-byte segment.
fn execute_range_cmd(
    req: &Request,
    store: &mut SectorStore,
    mem: &GuestMem,
    zeroes: bool,
    allow_unmap: bool,
) -> (r: (u8, u32))
    requires
        mem.wf(),
        old(store).wf(),
        forall|j: int|
            0 <= j < req@.data.len() ==> resolves(
                mem@,
                (#[trigger] req@.data[j]).addr,
                req@.data[j].len as nat,
            ),
    ensures
        final(store).wf(),
        ({
            let (st, wr, s2, m2) = spec_execute_range_cmd(req@, old(store)@, mem@, zeroes, allow_unmap);
            r.0 == st && r.1 == wr && final(store)@ == s2 && m2 == mem@
        }),
{
    if req.data.len() != 1 {
        return (STATUS_UNSUPP, 0);
    }
    let d0 = req.data[0];
    if d0.len != 16 {
        return (STATUS_UNSUPP, 0);
    }
    let seg = match mem.read(d0.addr, 16) {
        Some(s) => s,
        None => {
            proof {
                assert(false);
            }
            Vec::new()
        },
    };
    let (sector, count, flags) = parse_segment(&seg);
    let flags_ok = if allow_unmap {
        flags & 0xffff_fffe == 0
    } else {
        flags == 0
    };
    if !flags_ok {
        return (STATUS_UNSUPP, 0);
    }
    if zeroes {
        let ok = store.zero_range(sector, count);
        if ok {
            (STATUS_OK, 0)
        } else {
            (STATUS_IOERR, 0)
        }
    } else {
        if store.in_capacity(sector, count) {
            (STATUS_OK, 0)
        } else {
            (STATUS_IOERR, 0)
        }
    }
}

} // verus!
