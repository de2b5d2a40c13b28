//! Descriptors and typed block requests.
//!
//! The guest hands the device buffers as descriptors: address, length, a
//! writable flag and an optional link to the next descriptor of the chain.
//! A well-formed block request chain is a readable 16-byte header, zero or
//! more data buffers, and a trailing writable status byte. This module holds
//! those types and the decoding of the raw wire fields.

use vstd::prelude::*;

use crate::bytes::{u32_of_le, u64_of_le};

verus! {

/// Wire flag: the descriptor continues into `next`.
pub const DESC_F_NEXT: u16 = 1;

/// Wire flag: the buffer is guest-writable (the device writes it).
pub const DESC_F_WRITE: u16 = 2;

/// Size in bytes of the request header.
pub const HEADER_BYTES: u32 = 16;

/// Command code of a guest read.
pub const REQ_TYPE_IN: u32 = 0;

/// Command code of a guest write.
pub const REQ_TYPE_OUT: u32 = 1;

/// Command code of a flush.
pub const REQ_TYPE_FLUSH: u32 = 4;

/// Command code of a device-id read.
pub const REQ_TYPE_GET_ID: u32 = 8;

/// Command code of a discard.
pub const REQ_TYPE_DISCARD: u32 = 11;

/// Command code of a write-zeroes.
pub const REQ_TYPE_WRITE_ZEROES: u32 = 13;

/// Command code of a secure erase.
pub const REQ_TYPE_SECURE_ERASE: u32 = 14;

/// One guest buffer descriptor, already lifted from its wire layout.
#[derive(Clone, Copy, Debug, PartialEq, Eq, Structural)]
pub struct Descriptor {
    /// Guest-physical address of the buffer.
    pub addr: u64,
    /// Length of the buffer in bytes.
    pub len: u32,
    /// The device may write this buffer; the guest may not expect its
    /// contents to be read.
    pub write: bool,
    /// The chain continues at `next`.
    pub has_next: bool,
    /// Table index of the next descriptor, meaningful only with `has_next`.
    pub next: u16,
}

impl Descriptor {
    /// Lifts the wire fields of one descriptor-table entry.
    pub fn from_raw(addr: u64, len: u32, flags: u16, next: u16) -> (d: Descriptor)
        ensures
            d.addr == addr,
            d.len == len,
            d.write == (flags & DESC_F_WRITE != 0),
            d.has_next == (flags & DESC_F_NEXT != 0),
            d.next == next,
    {
        Descriptor {
            addr,
            len,
            write: flags & DESC_F_WRITE != 0,
            has_next: flags & DESC_F_NEXT != 0,
            next,
        }
    }
}

/// The command a request header names.
#[derive(Clone, Copy, Debug, PartialEq, Eq, Structural)]
pub enum RequestKind {
    /// Read sectors into guest memory.
    Read,
    /// Write guest memory to sectors.
    Write,
    /// Apply every prior write on this queue to durable storage.
    Flush,
    /// Read the device identifier.
    GetId,
    /// Deallocate a range of sectors.
    Discard,
    /// Zero a range of sectors.
    WriteZeroes,
    /// Erase a range of sectors beyond recovery.
    SecureErase,
    /// Any command code this device does not implement.
    Unsupported,
}

/// The command a raw 32-bit type code stands for.
pub open spec fn spec_kind_of(t: u32) -> RequestKind {
    if t == REQ_TYPE_IN {
        RequestKind::Read
    } else if t == REQ_TYPE_OUT {
        RequestKind::Write
    } else if t == REQ_TYPE_FLUSH {
        RequestKind::Flush
    } else if t == REQ_TYPE_GET_ID {
        RequestKind::GetId
    } else if t == REQ_TYPE_DISCARD {
        RequestKind::Discard
    } else if t == REQ_TYPE_WRITE_ZEROES {
        RequestKind::WriteZeroes
    } else if t == REQ_TYPE_SECURE_ERASE {
        RequestKind::SecureErase
    } else {
        RequestKind::Unsupported
    }
}

/// Decodes a raw command code.
pub fn kind_of(t: u32) -> (k: RequestKind)
    ensures
        k == spec_kind_of(t),
{
    if t == REQ_TYPE_IN {
        RequestKind::Read
    } else if t == REQ_TYPE_OUT {
        RequestKind::Write
    } else if t == REQ_TYPE_FLUSH {
        RequestKind::Flush
    } else if t == REQ_TYPE_GET_ID {
        RequestKind::GetId
    } else if t == REQ_TYPE_DISCARD {
        RequestKind::Discard
    } else if t == REQ_TYPE_WRITE_ZEROES {
        RequestKind::WriteZeroes
    } else if t == REQ_TYPE_SECURE_ERASE {
        RequestKind::SecureErase
    } else {
        RequestKind::Unsupported
    }
}

/// The command code of a 16-byte request header.
pub open spec fn spec_header_type(hdr: Seq<u8>) -> u32
    recommends
        hdr.len() == HEADER_BYTES,
{
    u32_of_le(hdr.subrange(0, 4))
}

/// The starting sector of a 16-byte request header.
pub open spec fn spec_header_sector(hdr: Seq<u8>) -> u64
    recommends
        hdr.len() == HEADER_BYTES,
{
    u64_of_le(hdr.subrange(8, 16))
}

/// One validated data buffer of a request.
#[derive(Clone, Copy, Debug, PartialEq, Eq, Structural)]
pub struct DataSpan {
    /// Guest-physical address of the buffer.
    pub addr: u64,
    /// Length of the buffer in bytes.
    pub len: u32,
}

/// The mathematical content of a validated request.
pub ghost struct ReqV {
    pub kind: RequestKind,
    pub sector: u64,
    pub data: Seq<DataSpan>,
    pub status_addr: u64,
}

/// A validated, typed block request, alive from dequeue to status
/// write-back.
pub struct Request {
    /// The command kind from the header.
    pub kind: RequestKind,
    /// The starting sector from the header.
    pub sector: u64,
    /// The data buffers between header and status byte, in chain order.
    pub data: Vec<DataSpan>,
    /// Guest address of the 1-byte status descriptor.
    pub status_addr: u64,
}

impl View for Request {
    type V = ReqV;

    open spec fn view(&self) -> ReqV {
        ReqV { kind: self.kind, sector: self.sector, data: self.data@, status_addr: self.status_addr }
    }
}

/// What a chain failed validation for.
#[derive(Clone, Copy, Debug, PartialEq, Eq, Structural)]
pub enum ChainError {
    /// The chain's shape is wrong: a broken or over-long walk, a missing or
    /// ill-sized header, or a missing trailing 1-byte writable status
    /// descriptor.
    Malformed,
    /// A descriptor's address range does not translate through the active
    /// memory mapping.
    OutOfRange,
    /// A data buffer's direction contradicts the command kind.
    WrongDirection,
}

} // verus!
