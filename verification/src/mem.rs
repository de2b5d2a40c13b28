//! A model of the guest's shared memory.
//!
//! The transport maps guest-physical memory as a set of regions; every
//! address a descriptor names must be translated through the mapping active
//! when its chain was dequeued. This module models the mapping as plain
//! regions of bytes: an address range resolves when one region covers it
//! whole, and reads and writes go through the first covering region. The
//! mapping is replaced wholesale on a topology change; a chain in flight
//! keeps using the mapping it was parsed against.

use vstd::prelude::*;

use crate::bytes::spec_splice;

verus! {

/// The mathematical content of one mapped region.
pub ghost struct RegionV {
    pub start: u64,
    pub data: Seq<u8>,
}

/// One contiguous region of guest memory.
pub struct MemRegion {
    start: u64,
    data: Vec<u8>,
}

impl View for MemRegion {
    type V = RegionV;

    closed spec fn view(&self) -> RegionV {
        RegionV { start: self.start, data: self.data@ }
    }
}

/// `r` covers the whole range of `len` bytes at `addr`.
pub open spec fn region_covers(r: RegionV, addr: u64, len: nat) -> bool {
    r.start <= addr && addr + len <= r.start + r.data.len()
}

/// The index of the first region covering the range, or -1 when none does.
pub open spec fn find_region_from(regions: Seq<RegionV>, addr: u64, len: nat, i: int) -> int
    decreases regions.len() - i,
{
    if i < 0 || i >= regions.len() {
        -1
    } else if region_covers(regions[i], addr, len) {
        i
    } else {
        find_region_from(regions, addr, len, i + 1)
    }
}

pub open spec fn find_region(regions: Seq<RegionV>, addr: u64, len: nat) -> int {
    find_region_from(regions, addr, len, 0)
}

/// The range of `len` bytes at `addr` translates through the mapping.
pub open spec fn resolves(regions: Seq<RegionV>, addr: u64, len: nat) -> bool {
    find_region(regions, addr, len) >= 0
}

/// The bytes the mapping holds for a resolving range.
pub open spec fn spec_read_mem(regions: Seq<RegionV>, addr: u64, len: nat) -> Seq<u8>
    recommends
        resolves(regions, addr, len),
{
    let r = regions[find_region(regions, addr, len)];
    r.data.subrange(addr - r.start, addr - r.start + len)
}

/// The mapping after writing `data` at a resolving `addr`: the covering
/// region is spliced, every other region is untouched.
pub open spec fn spec_write_mem(regions: Seq<RegionV>, addr: u64, data: Seq<u8>) -> Seq<RegionV>
    recommends
        resolves(regions, addr, data.len()),
{
    let i = find_region(regions, addr, data.len());
    let r = regions[i];
    regions.update(i, RegionV { start: r.start, data: spec_splice(r.data, addr - r.start, data) })
}

/// Every index of `find_region_from` is a real, covering region.
pub proof fn lemma_find_region_covers(regions: Seq<RegionV>, addr: u64, len: nat, i: int)
    ensures
        find_region_from(regions, addr, len, i) >= 0 ==> {
            let j = find_region_from(regions, addr, len, i);
            i <= j < regions.len() && region_covers(regions[j], addr, len)
        },
    decreases regions.len() - i,
{
    if 0 <= i < regions.len() && !region_covers(regions[i], addr, len) {
        lemma_find_region_covers(regions, addr, len, i + 1);
    }
}

/// `a` and `b` map the same region layout: same count, starts and sizes;
/// only contents may differ. Writes never change the layout, so address
/// resolution is stable across them.
pub open spec fn same_geometry(a: Seq<RegionV>, b: Seq<RegionV>) -> bool {
    a.len() == b.len() && forall|i: int|
        0 <= i < a.len() ==> (#[trigger] a[i]).start == b[i].start && a[i].data.len()
            == b[i].data.len()
}

/// Region lookup depends only on the layout.
pub proof fn lemma_same_geometry_find(a: Seq<RegionV>, b: Seq<RegionV>, addr: u64, len: nat, i: int)
    requires
        same_geometry(a, b),
    ensures
        find_region_from(a, addr, len, i) == find_region_from(b, addr, len, i),
    decreases a.len() - i,
{
    if 0 <= i < a.len() {
        lemma_same_geometry_find(a, b, addr, len, i + 1);
    }
}

/// A resolving write keeps the layout.
pub proof fn lemma_write_mem_same_geometry(m: Seq<RegionV>, addr: u64, data: Seq<u8>)
    requires
        resolves(m, addr, data.len()),
    ensures
        same_geometry(m, spec_write_mem(m, addr, data)),
{
    lemma_find_region_covers(m, addr, data.len(), 0);
}

/// A range that resolves keeps resolving when shortened.
pub proof fn lemma_resolves_shrink(m: Seq<RegionV>, addr: u64, l1: nat, l2: nat, i: int)
    requires
        l2 <= l1,
        find_region_from(m, addr, l1, i) >= 0,
    ensures
        find_region_from(m, addr, l2, i) >= 0,
    decreases m.len() - i,
{
    if 0 <= i < m.len() && !region_covers(m[i], addr, l2) {
        lemma_resolves_shrink(m, addr, l1, l2, i + 1);
    }
}

/// The guest-physical to byte-content translation table.
pub struct GuestMem {
    regions: Vec<MemRegion>,
}

impl View for GuestMem {
    type V = Seq<RegionV>;

    closed spec fn view(&self) -> Seq<RegionV> {
        Seq::new(self.regions@.len(), |i: int| self.regions@[i]@)
    }
}

impl GuestMem {
    /// Every region's end fits in the 64-bit guest address space.
    pub open spec fn wf(&self) -> bool {
        forall|i: int|
            0 <= i < self@.len() ==> (#[trigger] self@[i]).start + self@[i].data.len() <= u64::MAX
    }

    /// An empty mapping: nothing resolves.
    pub fn new() -> (m: Self)
        ensures
            m@.len() == 0,
            m.wf(),
    {
        let m = GuestMem { regions: Vec::new() };
        proof {
            assert(m@ =~= Seq::<RegionV>::empty());
        }
        m
    }

    /// Adds one mapped region.
    pub fn add_region(&mut self, start: u64, data: Vec<u8>)
        requires
            old(self).wf(),
            start + data@.len() <= u64::MAX,
        ensures
            final(self).wf(),
            final(self)@ == old(self)@.push(RegionV { start, data: data@ }),
    {
        let ghost pre = self@;
        self.regions.push(MemRegion { start, data });
        proof {
            assert(self@ =~= pre.push(RegionV { start, data: self.regions@.last()@.data }));
        }
    }

    /// Finds the first region covering `len` bytes at `addr`, with the byte
    /// offset of `addr` inside it.
    fn find(&self, addr: u64, len: u32) -> (r: Option<(usize, usize)>)
        requires
            self.wf(),
        ensures
            match r {
                Some((i, off)) => find_region(self@, addr, len as nat) == i && i < self@.len()
                    && region_covers(self@[i as int], addr, len as nat) && off == addr - self@[
                    i as int
                ].start && off + len <= self@[i as int].data.len(),
                None => find_region(self@, addr, len as nat) == -1,
            },
    {
        let n = self.regions.len();
        let mut i: usize = 0;
        while i < n
            invariant
                0 <= i <= n,
                n == self@.len(),
                self.wf(),
                find_region_from(self@, addr, len as nat, 0) == find_region_from(
                    self@,
                    addr,
                    len as nat,
                    i as int,
                ),
            decreases n - i,
        {
            let r = &self.regions[i];
            assert(self@[i as int] == r@);
            if addr >= r.start {
                let off = addr - r.start;
                let dlen = r.data.len();
                if off <= dlen as u64 && (len as u64) <= (dlen as u64) - off {
                    assert(region_covers(self@[i as int], addr, len as nat));
                    return Some((i, off as usize));
                }
            }
            assert(!region_covers(self@[i as int], addr, len as nat));
            i = i + 1;
        }
        None
    }

    /// Whether `len` bytes at `addr` translate through this mapping.
    pub fn check_range(&self, addr: u64, len: u32) -> (r: bool)
        requires
            self.wf(),
        ensures
            r == resolves(self@, addr, len as nat),
    {
        self.find(addr, len).is_some()
    }

    /// Reads `len` bytes at guest address `addr`. Returns the bytes exactly
    /// when the range resolves; a range no region covers whole reads nothing.
    pub fn read(&self, addr: u64, len: u32) -> (r: Option<Vec<u8>>)
        requires
            self.wf(),
        ensures
            match r {
                Some(v) => resolves(self@, addr, len as nat) && v@ == spec_read_mem(
                    self@,
                    addr,
                    len as nat,
                ) && v@.len() == len,
                None => !resolves(self@, addr, len as nat),
            },
    {
        match self.find(addr, len) {
            None => None,
            Some((i, off)) => {
                let region = &self.regions[i];
                assert(self@[i as int] == region@);
                let dlen = region.data.len();
                let mut v: Vec<u8> = Vec::new();
                let mut j: usize = 0;
                while j < len as usize
                    invariant
                        0 <= j <= len,
                        dlen == region.data@.len(),
                        off + len <= dlen,
                        v@ == region.data@.subrange(off as int, off + j),
                    decreases len - j,
                {
                    v.push(region.data[off + j]);
                    assert(v@ =~= region.data@.subrange(off as int, off + j + 1));
                    j = j + 1;
                }
                proof {
                    lemma_find_region_covers(self@, addr, len as nat, 0);
                    assert(v@ == spec_read_mem(self@, addr, len as nat));
                }
                Some(v)
            },
        }
    }

    /// Writes `buf` at guest address `addr`. Succeeds exactly when the range
    /// resolves; on failure the mapping's contents are untouched.
    pub fn write(&mut self, addr: u64, buf: &[u8]) -> (ok: bool)
        requires
            old(self).wf(),
            buf@.len() <= u32::MAX,
        ensures
            final(self).wf(),
            ok == resolves(old(self)@, addr, buf@.len()),
            ok ==> final(self)@ == spec_write_mem(old(self)@, addr, buf@),
            !ok ==> final(self)@ == old(self)@,
    {
        match self.find(addr, buf.len() as u32) {
            None => false,
            Some((i, off)) => {
                let ghost pre = self@;
                let region = &mut self.regions[i];
                let ghost rpre = region@;
                let dlen = region.data.len();
                let mut j: usize = 0;
                while j < buf.len()
                    invariant
                        0 <= j <= buf@.len(),
                        dlen == region.data@.len(),
                        off + buf@.len() <= dlen,
                        region@.start == rpre.start,
                        region.data@.len() == rpre.data.len(),
                        forall|k: int|
                            0 <= k < rpre.data.len() && !(off <= k < off + j)
                                ==> region.data@[k] == rpre.data[k],
                        forall|k: int| off <= k < off + j ==> region.data@[k] == buf@[k - off],
                    decreases buf@.len() - j,
                {
                    let b = buf[j];
                    region.data[off + j] = b;
                    j = j + 1;
                }
                proof {
                    assert(region.data@ =~= spec_splice(rpre.data, off as int, buf@));
                    assert(self@ =~= spec_write_mem(pre, addr, buf@));
                }
                true
            },
        }
    }
}

} // verus!
