//! Validation of guest-supplied descriptor chains.
//!
//! The walk follows continuation links from the head descriptor under a hard
//! step limit equal to the queue size, so a corrupt or hostile chain — even
//! a cyclic one — terminates the walk instead of the device. The chain is
//! then validated before any storage work: a readable 16-byte header first,
//! a writable 1-byte status descriptor last, data buffers in between whose
//! direction must match the command, and every address translated through
//! the active memory mapping.

use vstd::prelude::*;

use crate::bytes::{u32_of_le, u64_of_le};
use crate::mem::{resolves, spec_read_mem, GuestMem, RegionV};
use crate::request::{
    kind_of, spec_header_sector, spec_header_type, spec_kind_of, ChainError, DataSpan, Descriptor,
    ReqV, Request, RequestKind, HEADER_BYTES,
};

verus! {

/// The descriptor sequence reached from `idx` by continuation links, or
/// `None` when a link leaves the table or the walk exceeds `fuel` steps.
pub open spec fn spec_walk(table: Seq<Descriptor>, idx: u16, fuel: nat) -> Option<Seq<Descriptor>>
    decreases fuel,
{
    if fuel == 0 || idx >= table.len() {
        None
    } else {
        let d = table[idx as int];
        if !d.has_next {
            Some(seq![d])
        } else {
            match spec_walk(table, d.next, (fuel - 1) as nat) {
                None => None,
                Some(rest) => Some(seq![d] + rest),
            }
        }
    }
}

/// `prefix` prepended inside an optional walk tail.
pub open spec fn opt_prepend(prefix: Seq<Descriptor>, o: Option<Seq<Descriptor>>) -> Option<
    Seq<Descriptor>,
> {
    match o {
        None => None,
        Some(rest) => Some(prefix + rest),
    }
}

/// A walked chain has the block-device shape: at least a header and a
/// status descriptor, the header readable and 16 bytes, the trailing
/// descriptor writable and exactly one byte.
pub open spec fn chain_structure_ok(chain: Seq<Descriptor>) -> bool {
    chain.len() >= 2 && !chain[0].write && chain[0].len == HEADER_BYTES && chain.last().write
        && chain.last().len == 1
}

/// The buffer direction the command requires of its data descriptors:
/// commands that read guest data want readable buffers, commands that fill
/// guest data want writable ones, and the rest constrain nothing.
pub open spec fn required_writable(k: RequestKind) -> Option<bool> {
    match k {
        RequestKind::Read => Some(true),
        RequestKind::GetId => Some(true),
        RequestKind::Write => Some(false),
        RequestKind::Discard => Some(false),
        RequestKind::WriteZeroes => Some(false),
        RequestKind::SecureErase => Some(false),
        RequestKind::Flush => None,
        RequestKind::Unsupported => None,
    }
}

/// Whether one data descriptor's direction suits the command.
pub open spec fn dir_ok(k: RequestKind, write: bool) -> bool {
    match required_writable(k) {
        None => true,
        Some(w) => write == w,
    }
}

/// The first validation error among the data descriptors `chain[i..len-1]`:
/// a direction mismatch, then an unresolvable address, else nothing.
pub open spec fn spec_check_data(
    chain: Seq<Descriptor>,
    k: RequestKind,
    regions: Seq<RegionV>,
    i: int,
) -> Option<ChainError>
    decreases chain.len() - i,
{
    if i < 0 || i >= chain.len() - 1 {
        None
    } else {
        let d = chain[i];
        if !dir_ok(k, d.write) {
            Some(ChainError::WrongDirection)
        } else if !resolves(regions, d.addr, d.len as nat) {
            Some(ChainError::OutOfRange)
        } else {
            spec_check_data(chain, k, regions, i + 1)
        }
    }
}

/// The data spans of a structurally valid chain, in chain order.
pub open spec fn spec_data_spans(chain: Seq<Descriptor>) -> Seq<DataSpan> {
    chain.subrange(1, chain.len() - 1).map_values(
        |d: Descriptor| DataSpan { addr: d.addr, len: d.len },
    )
}

/// The complete parse: the typed request a chain yields under a mapping, or
/// the first validation error. Validation touches no storage; a chain is
/// rejected whole or accepted whole.
pub open spec fn spec_parse(
    table: Seq<Descriptor>,
    head: u16,
    qsize: u16,
    regions: Seq<RegionV>,
) -> Result<ReqV, ChainError> {
    match spec_walk(table, head, qsize as nat) {
        None => Err(ChainError::Malformed),
        Some(chain) => if !chain_structure_ok(chain) {
            Err(ChainError::Malformed)
        } else if !resolves(regions, chain[0].addr, HEADER_BYTES as nat) {
            Err(ChainError::OutOfRange)
        } else if !resolves(regions, chain.last().addr, 1) {
            Err(ChainError::OutOfRange)
        } else {
            let hdr = spec_read_mem(regions, chain[0].addr, HEADER_BYTES as nat);
            let k = spec_kind_of(spec_header_type(hdr));
            match spec_check_data(chain, k, regions, 1) {
                Some(e) => Err(e),
                None => Ok(
                    ReqV {
                        kind: k,
                        sector: spec_header_sector(hdr),
                        data: spec_data_spans(chain),
                        status_addr: chain.last().addr,
                    },
                ),
            }
        },
    }
}

/// A chain whose walk succeeds but which lacks a trailing writable 1-byte
/// status descriptor parses to `Malformed`, whatever the mapping holds.
pub proof fn lemma_missing_status_is_malformed(
    table: Seq<Descriptor>,
    head: u16,
    qsize: u16,
    regions: Seq<RegionV>,
)
    requires
        spec_walk(table, head, qsize as nat) matches Some(chain) && !(chain.last().write
            && chain.last().len == 1),
    ensures
        spec_parse(table, head, qsize, regions) == Err::<ReqV, ChainError>(ChainError::Malformed),
{
}

/// A chain whose walk fails — a dangling link or a walk past the step
/// limit — parses to `Malformed`.
pub proof fn lemma_broken_walk_is_malformed(
    table: Seq<Descriptor>,
    head: u16,
    qsize: u16,
    regions: Seq<RegionV>,
)
    requires
        spec_walk(table, head, qsize as nat) is None,
    ensures
        spec_parse(table, head, qsize, regions) == Err::<ReqV, ChainError>(ChainError::Malformed),
{
}

/// Data descriptors that passed validation all resolve.
pub proof fn lemma_check_data_resolves(
    chain: Seq<Descriptor>,
    k: RequestKind,
    regions: Seq<RegionV>,
    i: int,
)
    requires
        0 <= i,
        spec_check_data(chain, k, regions, i) is None,
    ensures
        forall|j: int|
            i <= j < chain.len() - 1 ==> resolves(
                regions,
                (#[trigger] chain[j]).addr,
                chain[j].len as nat,
            ),
    decreases chain.len() - i,
{
    if 0 <= i < chain.len() - 1 {
        lemma_check_data_resolves(chain, k, regions, i + 1);
    }
}

/// Everything a parsed request points at resolves under the mapping it was
/// parsed against: every data span and the status byte.
pub proof fn lemma_parse_ok_resolves(
    table: Seq<Descriptor>,
    head: u16,
    qsize: u16,
    regions: Seq<RegionV>,
)
    requires
        spec_parse(table, head, qsize, regions) is Ok,
    ensures
        spec_parse(table, head, qsize, regions) matches Ok(v) ==> resolves(regions, v.status_addr, 1)
            && forall|j: int|
            0 <= j < v.data.len() ==> resolves(
                regions,
                (#[trigger] v.data[j]).addr,
                v.data[j].len as nat,
            ),
{
    let chain = spec_walk(table, head, qsize as nat)->Some_0;
    let hdr = spec_read_mem(regions, chain[0].addr, HEADER_BYTES as nat);
    let k = spec_kind_of(spec_header_type(hdr));
    lemma_check_data_resolves(chain, k, regions, 1);
    let v = spec_parse(table, head, qsize, regions)->Ok_0;
    assert forall|j: int| 0 <= j < v.data.len() implies resolves(
        regions,
        (#[trigger] v.data[j]).addr,
        v.data[j].len as nat,
    ) by {
        assert(v.data[j] == DataSpan { addr: chain[j + 1].addr, len: chain[j + 1].len });
    }
}

/// Walks the chain from `head`, collecting at most `queue_size`
/// descriptors.
fn walk_chain(table: &Vec<Descriptor>, head: u16, queue_size: u16) -> (r: Option<Vec<Descriptor>>)
    ensures
        match r {
            Some(v) => spec_walk(table@, head, queue_size as nat) == Some(v@),
            None => spec_walk(table@, head, queue_size as nat) is None,
        },
{
    let mut out: Vec<Descriptor> = Vec::new();
    let mut idx: u16 = head;
    let mut fuel: u16 = queue_size;
    proof {
        match spec_walk(table@, head, queue_size as nat) {
            Some(rest) => {
                assert(Seq::<Descriptor>::empty() + rest =~= rest);
            },
            None => {},
        }
    }
    loop
        invariant
            spec_walk(table@, head, queue_size as nat) == opt_prepend(
                out@,
                spec_walk(table@, idx, fuel as nat),
            ),
        decreases fuel,
    {
        if fuel == 0 {
            return None;
        }
        if idx as usize >= table.len() {
            return None;
        }
        let d = table[idx as usize];
        let ghost pre = out@;
        out.push(d);
        if !d.has_next {
            proof {
                assert(pre + seq![d] =~= out@);
            }
            return Some(out);
        }
        proof {
            match spec_walk(table@, d.next, (fuel - 1) as nat) {
                Some(rest) => {
                    assert(pre + (seq![d] + rest) =~= out@ + rest);
                },
                None => {},
            }
        }
        idx = d.next;
        fuel = fuel - 1;
    }
}

/// Whether one data descriptor's direction suits the command.
fn check_dir(k: RequestKind, write: bool) -> (r: bool)
    ensures
        r == dir_ok(k, write),
{
    match k {
        RequestKind::Read => write,
        RequestKind::GetId => write,
        RequestKind::Write => !write,
        RequestKind::Discard => !write,
        RequestKind::WriteZeroes => !write,
        RequestKind::SecureErase => !write,
        RequestKind::Flush => true,
        RequestKind::Unsupported => true,
    }
}

/// Parses one chain into a typed request, validating shape, directions and
/// address translation before any storage work. Returns exactly what
/// [`spec_parse`] names for these arguments.
#[verifier::loop_isolation(false)]
pub fn parse_chain(table: &Vec<Descriptor>, head: u16, queue_size: u16, mem: &GuestMem) -> (r:
    Result<Request, ChainError>)
    requires
        mem.wf(),
    ensures
        r is Ok <==> spec_parse(table@, head, queue_size, mem@) is Ok,
        r matches Ok(req) ==> spec_parse(table@, head, queue_size, mem@) == Ok::<
            ReqV,
            ChainError,
        >(req@),
        r matches Err(e) ==> spec_parse(table@, head, queue_size, mem@) == Err::<
            ReqV,
            ChainError,
        >(e),
{
    let chain = match walk_chain(table, head, queue_size) {
        None => {
            return Err(ChainError::Malformed);
        },
        Some(c) => c,
    };
    let n = chain.len();
    if n < 2 {
        return Err(ChainError::Malformed);
    }
    let head_desc = chain[0];
    let status_desc = chain[n - 1];
    assert(status_desc == chain@.last());
    if head_desc.write || head_desc.len != HEADER_BYTES {
        return Err(ChainError::Malformed);
    }
    if !status_desc.write || status_desc.len != 1 {
        return Err(ChainError::Malformed);
    }
    let hdr = match mem.read(head_desc.addr, HEADER_BYTES) {
        None => {
            return Err(ChainError::OutOfRange);
        },
        Some(b) => b,
    };
    if !mem.check_range(status_desc.addr, 1) {
        return Err(ChainError::OutOfRange);
    }
    let t = crate::bytes::read_u32_le(hdr.as_slice(), 0);
    let sector = crate::bytes::read_u64_le(hdr.as_slice(), 8);
    let kind = kind_of(t);
    proof {
        let hdrspec = spec_read_mem(mem@, head_desc.addr, HEADER_BYTES as nat);
        assert(hdr@ == hdrspec);
        assert(t == spec_header_type(hdrspec));
        assert(sector == spec_header_sector(hdrspec));
    }
    let ghost spans = spec_data_spans(chain@);
    let mut data: Vec<DataSpan> = Vec::new();
    let mut i: usize = 1;
    while i < n - 1
        invariant
            1 <= i <= n - 1,
            n == chain@.len(),
            n >= 2,
            mem.wf(),
            spans == spec_data_spans(chain@),
            spec_check_data(chain@, kind, mem@, 1) == spec_check_data(chain@, kind, mem@, i as int),
            data@ == spans.subrange(0, i - 1),
        decreases n - 1 - i,
    {
        let d = chain[i];
        if !check_dir(kind, d.write) {
            proof {
                assert(spec_check_data(chain@, kind, mem@, i as int) == Some(
                    ChainError::WrongDirection,
                ));
            }
            return Err(ChainError::WrongDirection);
        }
        if !mem.check_range(d.addr, d.len) {
            proof {
                assert(spec_check_data(chain@, kind, mem@, i as int) == Some(
                    ChainError::OutOfRange,
                ));
            }
            return Err(ChainError::OutOfRange);
        }
        data.push(DataSpan { addr: d.addr, len: d.len });
        proof {
            assert(spans[i - 1] == DataSpan { addr: chain@[i as int].addr, len: chain@[i as int].len });
            assert(data@ =~= spans.subrange(0, i as int));
        }
        i = i + 1;
    }
    proof {
        assert(data@ =~= spans);
        assert(spec_check_data(chain@, kind, mem@, i as int) is None);
    }
    Ok(Request { kind, sector, data, status_addr: status_desc.addr })
}

} // verus!
