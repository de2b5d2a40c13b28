//! The virtio block device configuration space.
//!
//! The device advertises its geometry and limits through a fixed-layout,
//! little-endian, byte-addressable record. [`Config`] holds the fields,
//! [`ConfigSpace`] holds the encoded record and answers the transport's
//! `get_config` / `set_config` calls: reads are clamped to the record, writes
//! are rejected wholesale when they would run past its end.

use vstd::prelude::*;

use crate::bytes::{push_u16_le, push_u32_le, push_u64_le, spec_splice, u16_le, u32_le, u64_le};

verus! {

/// Total size in bytes of the encoded configuration record.
pub const CONFIG_BYTES: usize = 94;

/// Legacy disk geometry advertised to the guest.
#[derive(Clone, Copy, Debug, PartialEq, Eq, Structural)]
pub struct Geometry {
    pub cylinders: u16,
    pub heads: u8,
    pub sectors: u8,
}

/// Zoned-device characteristics advertised to the guest.
#[derive(Clone, Copy, Debug, PartialEq, Eq, Structural)]
pub struct ZoneCharacteristic {
    pub zone_sectors: u32,
    pub max_open_zones: u32,
    pub max_active_zones: u32,
    pub max_append_sectors: u32,
    pub write_granularity: u32,
    pub model: u8,
}

/// The virtio block configuration fields, prior to encoding.
///
/// `capacity` is expressed in 512-byte sectors. Every other field is only
/// meaningful when the matching feature bit was negotiated; unacknowledged
/// fields are left zero by convention.
#[derive(Clone, Copy, Debug, PartialEq, Eq, Structural)]
pub struct Config {
    pub capacity: u64,
    pub size_max: u32,
    pub seg_max: u32,
    pub geometry: Geometry,
    pub blk_size: u32,
    pub physical_block_exp: u8,
    pub alignment_offset: u8,
    pub min_io_size: u16,
    pub opt_io_size: u16,
    pub wce: u8,
    pub num_queues: u16,
    pub max_discard_sectors: u32,
    pub max_discard_seg: u32,
    pub discard_sector_alignment: u32,
    pub max_write_zeroes_sectors: u32,
    pub max_write_zeroes_seg: u32,
    pub write_zeroes_may_unmap: u8,
    pub max_secure_erase_sectors: u32,
    pub max_secure_erase_seg: u32,
    pub secure_erase_sector_alignment: u32,
    pub zoned: ZoneCharacteristic,
}

/// Failure of a configuration-space write.
#[derive(Clone, Copy, Debug, PartialEq, Eq, Structural)]
pub enum ConfigError {
    /// The write would run past the end of the record.
    OutOfBounds,
}

/// Bytes 0..34 of the record: capacity through queue count.
pub open spec fn spec_encode_head(c: Config) -> Seq<u8> {
    u64_le(c.capacity) + u32_le(c.size_max) + u32_le(c.seg_max) + u16_le(c.geometry.cylinders)
        + seq![c.geometry.heads, c.geometry.sectors] + u32_le(c.blk_size)
        + seq![c.physical_block_exp, c.alignment_offset] + u16_le(c.min_io_size)
        + u16_le(c.opt_io_size) + seq![c.wce, 0u8] + u16_le(c.num_queues)
}

/// Bytes 34..70 of the record: discard, write-zeroes and secure-erase limits.
pub open spec fn spec_encode_limits(c: Config) -> Seq<u8> {
    u32_le(c.max_discard_sectors) + u32_le(c.max_discard_seg)
        + u32_le(c.discard_sector_alignment) + u32_le(c.max_write_zeroes_sectors)
        + u32_le(c.max_write_zeroes_seg) + seq![c.write_zeroes_may_unmap, 0u8, 0u8, 0u8]
        + u32_le(c.max_secure_erase_sectors) + u32_le(c.max_secure_erase_seg)
        + u32_le(c.secure_erase_sector_alignment)
}

/// Bytes 70..94 of the record: the zoned-device sub-record.
pub open spec fn spec_encode_zoned(c: Config) -> Seq<u8> {
    u32_le(c.zoned.zone_sectors) + u32_le(c.zoned.max_open_zones)
        + u32_le(c.zoned.max_active_zones) + u32_le(c.zoned.max_append_sectors)
        + u32_le(c.zoned.write_granularity) + seq![c.zoned.model, 0u8, 0u8, 0u8]
}

/// The full 94-byte little-endian encoding of the record.
pub open spec fn spec_encode_config(c: Config) -> Seq<u8> {
    spec_encode_head(c) + spec_encode_limits(c) + spec_encode_zoned(c)
}

/// The bytes a clamped read of `size` bytes at `offset` returns: the
/// requested range truncated at the end of the record, possibly empty.
pub open spec fn spec_get(bytes: Seq<u8>, offset: int, size: int) -> Seq<u8>
    recommends
        0 <= offset,
        0 <= size,
{
    let start = if offset > bytes.len() { bytes.len() as int } else { offset };
    let end = if offset + size > bytes.len() { bytes.len() as int } else { offset + size };
    bytes.subrange(start, end)
}

/// The record after an in-bounds write of `data` at `offset`.
pub open spec fn spec_set(bytes: Seq<u8>, offset: int, data: Seq<u8>) -> Seq<u8>
    recommends
        0 <= offset,
        offset + data.len() <= bytes.len(),
{
    spec_splice(bytes, offset, data)
}

/// Reading a range and writing the same bytes back leaves the record as it
/// was: `set` after `get` over the same in-bounds range is the identity.
pub proof fn lemma_get_then_set_is_identity(bytes: Seq<u8>, offset: int, size: int)
    requires
        0 <= offset,
        0 <= size,
        offset + size <= bytes.len(),
    ensures
        spec_set(bytes, offset, spec_get(bytes, offset, size)) == bytes,
{
    assert(spec_set(bytes, offset, spec_get(bytes, offset, size)) =~= bytes);
}

impl Config {
    /// Encodes the record into its fixed little-endian byte layout.
    pub fn encode(&self) -> (r: Vec<u8>)
        ensures
            r@ == spec_encode_config(*self),
            r@.len() == CONFIG_BYTES,
    {
        let mut v: Vec<u8> = Vec::new();
        push_u64_le(&mut v, self.capacity);
        push_u32_le(&mut v, self.size_max);
        push_u32_le(&mut v, self.seg_max);
        push_u16_le(&mut v, self.geometry.cylinders);
        v.push(self.geometry.heads);
        v.push(self.geometry.sectors);
        push_u32_le(&mut v, self.blk_size);
        v.push(self.physical_block_exp);
        v.push(self.alignment_offset);
        push_u16_le(&mut v, self.min_io_size);
        push_u16_le(&mut v, self.opt_io_size);
        v.push(self.wce);
        v.push(0u8);
        push_u16_le(&mut v, self.num_queues);
        assert(v@ =~= spec_encode_head(*self));
        push_u32_le(&mut v, self.max_discard_sectors);
        push_u32_le(&mut v, self.max_discard_seg);
        push_u32_le(&mut v, self.discard_sector_alignment);
        push_u32_le(&mut v, self.max_write_zeroes_sectors);
        push_u32_le(&mut v, self.max_write_zeroes_seg);
        v.push(self.write_zeroes_may_unmap);
        v.push(0u8);
        v.push(0u8);
        v.push(0u8);
        push_u32_le(&mut v, self.max_secure_erase_sectors);
        push_u32_le(&mut v, self.max_secure_erase_seg);
        push_u32_le(&mut v, self.secure_erase_sector_alignment);
        assert(v@ =~= spec_encode_head(*self) + spec_encode_limits(*self));
        push_u32_le(&mut v, self.zoned.zone_sectors);
        push_u32_le(&mut v, self.zoned.max_open_zones);
        push_u32_le(&mut v, self.zoned.max_active_zones);
        push_u32_le(&mut v, self.zoned.max_append_sectors);
        push_u32_le(&mut v, self.zoned.write_granularity);
        v.push(self.zoned.model);
        v.push(0u8);
        v.push(0u8);
        v.push(0u8);
        assert(v@ =~= spec_encode_config(*self));
        v
    }
}

/// The encoded configuration record as the transport reads and writes it.
pub struct ConfigSpace {
    bytes: Vec<u8>,
}

impl View for ConfigSpace {
    type V = Seq<u8>;

    closed spec fn view(&self) -> Seq<u8> {
        self.bytes@
    }
}

impl ConfigSpace {
    /// Builds the record from the device's configuration fields.
    pub fn new(c: &Config) -> (s: Self)
        ensures
            s@ == spec_encode_config(*c),
            s@.len() == CONFIG_BYTES,
    {
        ConfigSpace { bytes: c.encode() }
    }

    /// Builds a record directly from raw bytes.
    pub fn from_bytes(bytes: Vec<u8>) -> (s: Self)
        ensures
            s@ == bytes@,
    {
        ConfigSpace { bytes }
    }

    /// The record's total size in bytes.
    pub fn len(&self) -> (n: usize)
        ensures
            n == self@.len(),
    {
        self.bytes.len()
    }

    /// Reads `size` bytes at `offset`, clamped to the record: a range that
    /// runs past the end returns only the record's tail, and a range that
    /// starts past the end returns nothing. Never fails, for any arguments.
    pub fn get(&self, offset: u32, size: u32) -> (r: Vec<u8>)
        ensures
            r@ == spec_get(self@, offset as int, size as int),
    {
        let len = self.bytes.len();
        let start: usize = if (offset as u64) > (len as u64) {
            len
        } else {
            offset as usize
        };
        let end: usize = if (size as u64) > ((len - start) as u64) {
            len
        } else {
            start + size as usize
        };
        let mut r: Vec<u8> = Vec::new();
        let mut i: usize = start;
        while i < end
            invariant
                start <= i <= end <= self.bytes@.len(),
                r@ == self.bytes@.subrange(start as int, i as int),
            decreases end - i,
        {
            r.push(self.bytes[i]);
            assert(r@ =~= self.bytes@.subrange(start as int, i + 1));
            i = i + 1;
        }
        assert(r@ =~= spec_get(self@, offset as int, size as int));
        r
    }

    /// Writes `buf` at `offset`. Fails with [`ConfigError::OutOfBounds`],
    /// leaving the record byte-for-byte unchanged, exactly when the write
    /// would run past the end of the record; otherwise overwrites exactly
    /// that span.
    pub fn set(&mut self, offset: u32, buf: &[u8]) -> (r: Result<(), ConfigError>)
        ensures
            match r {
                Ok(()) => offset + buf@.len() <= old(self)@.len() && final(self)@ == spec_set(
                    old(self)@,
                    offset as int,
                    buf@,
                ),
                Err(e) => e == ConfigError::OutOfBounds && offset + buf@.len() > old(
                    self,
                )@.len() && final(self)@ == old(self)@,
            },
    {
        let len = self.bytes.len();
        if (offset as u64) > (len as u64) || (buf.len() as u64) > ((len as u64) - (offset as u64)) {
            return Err(ConfigError::OutOfBounds);
        }
        let off = offset as usize;
        let mut i: usize = 0;
        while i < buf.len()
            invariant
                0 <= i <= buf@.len(),
                off == offset,
                off + buf@.len() <= len,
                self.bytes@.len() == len,
                self.bytes@.len() == old(self)@.len(),
                forall|j: int|
                    0 <= j < self.bytes@.len() && !(off <= j < off + i) ==> self.bytes@[j] == old(
                        self,
                    )@[j],
                forall|j: int| off <= j < off + i ==> self.bytes@[j] == buf@[j - off],
            decreases buf@.len() - i,
        {
            let b = buf[i];
            self.bytes[off + i] = b;
            i = i + 1;
        }
        assert(self.bytes@ =~= spec_set(old(self)@, offset as int, buf@));
        Ok(())
    }
}

} // verus!
