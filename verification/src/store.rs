//! An in-memory sector store with an explicit durability line.
//!
//! The executor runs requests against a backing-store capability; this is
//! its verified in-memory variant. Writes land in the volatile image;
//! `flush` commits the volatile image to the durable one. A write has
//! "reached the backing store" exactly when it is visible in the durable
//! image, which is what the flush command's contract promises.

use vstd::prelude::*;

use crate::bytes::spec_splice;

verus! {

/// Bytes per sector.
pub const SECTOR_BYTES: u64 = 512;

/// Length in bytes of the device identifier.
pub const DEVICE_ID_BYTES: usize = 20;

/// The mathematical content of the store.
pub ghost struct StoreV {
    /// The image as of the last commit.
    pub durable: Seq<u8>,
    /// The working image, holding every write so far.
    pub volatile: Seq<u8>,
    /// The fixed device identifier.
    pub id: Seq<u8>,
}

/// `s` padded with zeros, or truncated, to the identifier length.
pub open spec fn spec_pad_id(s: Seq<u8>) -> Seq<u8> {
    Seq::new(
        DEVICE_ID_BYTES as nat,
        |i: int|
            if i < s.len() {
                s[i]
            } else {
                0u8
            },
    )
}

/// A sequence of `n` zero bytes.
pub open spec fn spec_zeros(n: nat) -> Seq<u8> {
    Seq::new(n, |i: int| 0u8)
}

/// The in-memory backing store.
pub struct SectorStore {
    durable: Vec<u8>,
    volatile: Vec<u8>,
    id: Vec<u8>,
}

impl View for SectorStore {
    type V = StoreV;

    closed spec fn view(&self) -> StoreV {
        StoreV { durable: self.durable@, volatile: self.volatile@, id: self.id@ }
    }
}

impl SectorStore {
    /// Both images cover the same whole number of sectors, and the
    /// identifier has its fixed length.
    pub open spec fn wf(&self) -> bool {
        self@.durable.len() == self@.volatile.len() && self@.volatile.len() as int % (
        SECTOR_BYTES as int) == 0 && self@.id.len() == DEVICE_ID_BYTES
    }

    /// Builds a store over `data`, already durable, with the given device
    /// identifier (padded or truncated to its fixed length).
    pub fn new(data: Vec<u8>, id: &[u8]) -> (s: Self)
        requires
            data@.len() as int % (SECTOR_BYTES as int) == 0,
        ensures
            s.wf(),
            s@.durable == data@,
            s@.volatile == data@,
            s@.id == spec_pad_id(id@),
    {
        let mut padded: Vec<u8> = Vec::new();
        let mut i: usize = 0;
        while i < DEVICE_ID_BYTES
            invariant
                0 <= i <= DEVICE_ID_BYTES,
                padded@.len() == i,
                forall|j: int| 0 <= j < i ==> padded@[j] == spec_pad_id(id@)[j],
            decreases DEVICE_ID_BYTES - i,
        {
            if i < id.len() {
                padded.push(id[i]);
            } else {
                padded.push(0u8);
            }
            i = i + 1;
        }
        assert(padded@ =~= spec_pad_id(id@));
        let durable = data.clone();
        SectorStore { durable, volatile: data, id: padded }
    }

    /// The store's capacity in sectors.
    pub fn capacity_sectors(&self) -> (n: u64)
        requires
            self.wf(),
        ensures
            n == self@.volatile.len() as int / (SECTOR_BYTES as int),
    {
        (self.volatile.len() as u64) / SECTOR_BYTES
    }

    /// Whether `count` sectors starting at `sector` lie inside the store.
    pub fn in_capacity(&self, sector: u64, count: u32) -> (r: bool)
        requires
            self.wf(),
        ensures
            r == ((sector + count) * (SECTOR_BYTES as int) <= self@.volatile.len()),
    {
        let vlen = self.volatile.len();
        let cap = (vlen as u64) / SECTOR_BYTES;
        proof {
            assert(cap * (SECTOR_BYTES as int) == vlen) by (nonlinear_arith)
                requires
                    cap == vlen as int / (SECTOR_BYTES as int),
                    vlen as int % (SECTOR_BYTES as int) == 0,
                    SECTOR_BYTES == 512,
            ;
        }
        if sector > cap || (count as u64) > cap - sector {
            proof {
                assert((sector + count) * (SECTOR_BYTES as int) > cap * (SECTOR_BYTES as int))
                    by (nonlinear_arith)
                    requires
                        sector + count > cap,
                        SECTOR_BYTES == 512,
                ;
            }
            false
        } else {
            proof {
                assert((sector + count) * (SECTOR_BYTES as int) <= cap * (SECTOR_BYTES as int))
                    by (nonlinear_arith)
                    requires
                        sector + count <= cap,
                        SECTOR_BYTES == 512,
                ;
            }
            true
        }
    }

    /// The working image, holding every write so far.
    pub fn image(&self) -> (r: &Vec<u8>)
        ensures
            r@ == self@.volatile,
    {
        &self.volatile
    }

    /// The image as of the last flush.
    pub fn durable_image(&self) -> (r: &Vec<u8>)
        ensures
            r@ == self@.durable,
    {
        &self.durable
    }

    /// The fixed device identifier.
    pub fn id(&self) -> (r: &Vec<u8>)
        ensures
            r@ == self@.id,
    {
        &self.id
    }

    /// Reads `len` bytes starting at byte offset `sector * 512` of the
    /// working image; fails, reading nothing, exactly when the range runs
    /// past the capacity.
    pub fn read_at(&self, sector: u64, len: u32) -> (r: Option<Vec<u8>>)
        requires
            self.wf(),
        ensures
            match r {
                Some(v) => sector * (SECTOR_BYTES as int) + len <= self@.volatile.len() && v@
                    == self@.volatile.subrange(
                    sector * (SECTOR_BYTES as int),
                    sector * (SECTOR_BYTES as int) + len,
                ),
                None => sector * (SECTOR_BYTES as int) + len > self@.volatile.len(),
            },
    {
        let vlen = self.volatile.len();
        if sector > (vlen as u64) / SECTOR_BYTES {
            proof {
                assert(sector * (SECTOR_BYTES as int) > vlen) by (nonlinear_arith)
                    requires
                        sector > vlen as int / (SECTOR_BYTES as int),
                        vlen as int % (SECTOR_BYTES as int) == 0,
                        SECTOR_BYTES == 512,
                ;
            }
            return None;
        }
        let off64: u64 = sector * SECTOR_BYTES;
        proof {
            assert(sector * (SECTOR_BYTES as int) <= vlen) by (nonlinear_arith)
                requires
                    sector <= vlen as int / (SECTOR_BYTES as int),
                    vlen as int % (SECTOR_BYTES as int) == 0,
                    SECTOR_BYTES == 512,
            ;
        }
        let off = off64 as usize;
        if (len as u64) > (vlen as u64) - off64 {
            return None;
        }
        let mut v: Vec<u8> = Vec::new();
        let mut j: usize = 0;
        while j < len as usize
            invariant
                0 <= j <= len,
                off + len <= vlen,
                vlen == self.volatile@.len(),
                v@ == self.volatile@.subrange(off as int, off + j),
            decreases len - j,
        {
            v.push(self.volatile[off + j]);
            assert(v@ =~= self.volatile@.subrange(off as int, off + j + 1));
            j = j + 1;
        }
        Some(v)
    }

    /// Writes `data` starting at byte offset `sector * 512` of the working
    /// image; the durable image is untouched either way. Fails, changing
    /// nothing, exactly when the range runs past the capacity.
    pub fn write_at(&mut self, sector: u64, data: &[u8]) -> (ok: bool)
        requires
            old(self).wf(),
        ensures
            final(self).wf(),
            final(self)@.durable == old(self)@.durable,
            final(self)@.id == old(self)@.id,
            ok == (sector * (SECTOR_BYTES as int) + data@.len() <= old(self)@.volatile.len()),
            ok ==> final(self)@.volatile == spec_splice(
                old(self)@.volatile,
                sector * (SECTOR_BYTES as int),
                data@,
            ),
            !ok ==> final(self)@.volatile == old(self)@.volatile,
    {
        let vlen = self.volatile.len();
        if sector > (vlen as u64) / SECTOR_BYTES {
            proof {
                assert(sector * (SECTOR_BYTES as int) > vlen) by (nonlinear_arith)
                    requires
                        sector > vlen as int / (SECTOR_BYTES as int),
                        vlen as int % (SECTOR_BYTES as int) == 0,
                        SECTOR_BYTES == 512,
                ;
            }
            return false;
        }
        let off64: u64 = sector * SECTOR_BYTES;
        proof {
            assert(sector * (SECTOR_BYTES as int) <= vlen) by (nonlinear_arith)
                requires
                    sector <= vlen as int / (SECTOR_BYTES as int),
                    vlen as int % (SECTOR_BYTES as int) == 0,
                    SECTOR_BYTES == 512,
            ;
        }
        let off = off64 as usize;
        if (data.len() as u64) > (vlen as u64) - off64 {
            return false;
        }
        let ghost pre = self.volatile@;
        let mut j: usize = 0;
        while j < data.len()
            invariant
                0 <= j <= data@.len(),
                off + data@.len() <= vlen,
                vlen == self.volatile@.len(),
                self.volatile@.len() == pre.len(),
                self@.durable == old(self)@.durable,
                self@.id == old(self)@.id,
                forall|k: int|
                    0 <= k < pre.len() && !(off <= k < off + j) ==> self.volatile@[k] == pre[k],
                forall|k: int| off <= k < off + j ==> self.volatile@[k] == data@[k - off],
            decreases data@.len() - j,
        {
            let b = data[j];
            self.volatile[off + j] = b;
            j = j + 1;
        }
        assert(self.volatile@ =~= spec_splice(pre, off as int, data@));
        true
    }

    /// Zeroes `count` sectors starting at `sector` in the working image;
    /// the durable image is untouched either way. Fails, changing nothing,
    /// exactly when the range runs past the capacity.
    pub fn zero_range(&mut self, sector: u64, count: u32) -> (ok: bool)
        requires
            old(self).wf(),
        ensures
            final(self).wf(),
            final(self)@.durable == old(self)@.durable,
            final(self)@.id == old(self)@.id,
            ok == ((sector + count) * (SECTOR_BYTES as int) <= old(self)@.volatile.len()),
            ok ==> final(self)@.volatile == spec_splice(
                old(self)@.volatile,
                sector * (SECTOR_BYTES as int),
                spec_zeros((count * (SECTOR_BYTES as int)) as nat),
            ),
            !ok ==> final(self)@.volatile == old(self)@.volatile,
    {
        let vlen = self.volatile.len();
        let cap = (vlen as u64) / SECTOR_BYTES;
        proof {
            assert(cap * (SECTOR_BYTES as int) == vlen) by (nonlinear_arith)
                requires
                    cap == vlen as int / (SECTOR_BYTES as int),
                    vlen as int % (SECTOR_BYTES as int) == 0,
                    SECTOR_BYTES == 512,
            ;
        }
        if sector > cap || (count as u64) > cap - sector {
            proof {
                assert((sector + count) * (SECTOR_BYTES as int) > cap * (SECTOR_BYTES as int))
                    by (nonlinear_arith)
                    requires
                        sector + count > cap,
                        SECTOR_BYTES == 512,
                ;
            }
            return false;
        }
        proof {
            assert((sector + count) * (SECTOR_BYTES as int) <= cap * (SECTOR_BYTES as int))
                by (nonlinear_arith)
                requires
                    sector + count <= cap,
                    SECTOR_BYTES == 512,
            ;
            assert(sector * (SECTOR_BYTES as int) + count * (SECTOR_BYTES as int) == (sector
                + count) * (SECTOR_BYTES as int)) by (nonlinear_arith);
        }
        let off64: u64 = sector * SECTOR_BYTES;
        let off = off64 as usize;
        let n64: u64 = (count as u64) * SECTOR_BYTES;
        let n = n64 as usize;
        let ghost pre = self.volatile@;
        let mut j: usize = 0;
        while j < n
            invariant
                0 <= j <= n,
                off + n <= vlen,
                n == count * (SECTOR_BYTES as int),
                vlen == self.volatile@.len(),
                self.volatile@.len() == pre.len(),
                self@.durable == old(self)@.durable,
                self@.id == old(self)@.id,
                forall|k: int|
                    0 <= k < pre.len() && !(off <= k < off + j) ==> self.volatile@[k] == pre[k],
                forall|k: int| off <= k < off + j ==> self.volatile@[k] == 0u8,
            decreases n - j,
        {
            self.volatile[off + j] = 0u8;
            j = j + 1;
        }
        assert(self.volatile@ =~= spec_splice(
            pre,
            off as int,
            spec_zeros((count * (SECTOR_BYTES as int)) as nat),
        ));
        true
    }

    /// Commits the working image: after a flush, every earlier write on
    /// this store is in the durable image.
    pub fn flush(&mut self)
        requires
            old(self).wf(),
        ensures
            final(self).wf(),
            final(self)@.durable == old(self)@.volatile,
            final(self)@.volatile == old(self)@.volatile,
            final(self)@.id == old(self)@.id,
    {
        self.durable = self.volatile.clone();
        proof {
            assert(self.durable@ =~= self.volatile@);
        }
    }
}

} // verus!
