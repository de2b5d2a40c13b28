//! Device feature negotiation.
//!
//! The backend advertises a fixed set of virtio feature bits, extended by a
//! read-only bit when the backing store is read-only. The guest acknowledges
//! a subset once per connection; bits the backend never offered are ignored,
//! so the acknowledged set is always a subset of the offered set, and every
//! later decision (event-index suppression, multiqueue, writeback cache)
//! consults the acknowledged set, never the offered one.

use vstd::prelude::*;

verus! {

/// Maximum segment size advertised in `size_max`.
pub const FEATURE_SIZE_MAX: u64 = 1u64 << 1u64;

/// Maximum segment count advertised in `seg_max`.
pub const FEATURE_SEG_MAX: u64 = 1u64 << 2u64;

/// Legacy geometry fields are valid.
pub const FEATURE_GEOMETRY: u64 = 1u64 << 4u64;

/// The device is read-only.
pub const FEATURE_RO: u64 = 1u64 << 5u64;

/// The block size field is valid.
pub const FEATURE_BLK_SIZE: u64 = 1u64 << 6u64;

/// The device supports the flush command.
pub const FEATURE_FLUSH: u64 = 1u64 << 9u64;

/// The writeback-cache mode field is writable.
pub const FEATURE_CONFIG_WCE: u64 = 1u64 << 11u64;

/// The device supports more than one request queue.
pub const FEATURE_MQ: u64 = 1u64 << 12u64;

/// The device supports the write-zeroes command.
pub const FEATURE_WRITE_ZEROES: u64 = 1u64 << 14u64;

/// The guest may set a used-ring event index to suppress interrupts.
pub const FEATURE_RING_EVENT_IDX: u64 = 1u64 << 29u64;

/// The vhost-user protocol-features handshake is available.
pub const FEATURE_VHOST_PROTOCOL: u64 = 1u64 << 30u64;

/// The device follows the virtio 1.x specification.
pub const FEATURE_VERSION_1: u64 = 1u64 << 32u64;

/// The feature bits every backend offers, before the read-only bit.
pub const FEATURES_BASE: u64 = FEATURE_SIZE_MAX | FEATURE_SEG_MAX | FEATURE_GEOMETRY
    | FEATURE_BLK_SIZE | FEATURE_FLUSH | FEATURE_CONFIG_WCE | FEATURE_MQ | FEATURE_WRITE_ZEROES
    | FEATURE_RING_EVENT_IDX | FEATURE_VHOST_PROTOCOL | FEATURE_VERSION_1;

/// The bitmask a backend offers: the base set, plus the read-only
/// advertisement when the store is read-only.
pub open spec fn spec_offered(readonly: bool) -> u64 {
    if readonly {
        FEATURES_BASE | FEATURE_RO
    } else {
        FEATURES_BASE
    }
}

/// `sub` contains no bit outside `sup`.
pub open spec fn bits_subset(sub: u64, sup: u64) -> bool {
    sub & sup == sub
}

/// Masking with the offered set always yields a subset of it.
pub proof fn lemma_masked_is_subset(bits: u64, offered: u64)
    ensures
        bits_subset(bits & offered, offered),
{
    assert((bits & offered) & offered == bits & offered) by (bit_vector);
}

/// The offered and acknowledged virtio feature sets of one connection.
pub struct FeatureSet {
    offered: u64,
    acked: u64,
    negotiated: bool,
}

impl FeatureSet {
    /// The acknowledged set never holds a bit the backend did not offer.
    pub open spec fn wf(&self) -> bool {
        bits_subset(self.spec_acked_bits(), self.spec_offered_bits())
    }

    pub closed spec fn spec_offered_bits(&self) -> u64 {
        self.offered
    }

    pub closed spec fn spec_acked_bits(&self) -> u64 {
        self.acked
    }

    pub closed spec fn spec_negotiated(&self) -> bool {
        self.negotiated
    }

    /// A fresh feature set for one connection: nothing acknowledged yet.
    pub fn new(readonly: bool) -> (s: Self)
        ensures
            s.wf(),
            s.spec_offered_bits() == spec_offered(readonly),
            s.spec_acked_bits() == 0,
            !s.spec_negotiated(),
    {
        let offered = if readonly {
            FEATURES_BASE | FEATURE_RO
        } else {
            FEATURES_BASE
        };
        proof {
            assert(0u64 & offered == 0u64) by (bit_vector);
        }
        FeatureSet { offered, acked: 0, negotiated: false }
    }

    /// The static bitmask offered to the guest.
    pub fn offered(&self) -> (r: u64)
        ensures
            r == self.spec_offered_bits(),
    {
        self.offered
    }

    /// The subset the guest acknowledged; zero before negotiation.
    pub fn acked(&self) -> (r: u64)
        ensures
            r == self.spec_acked_bits(),
    {
        self.acked
    }

    /// Whether negotiation has already happened on this connection.
    pub fn negotiated(&self) -> (r: bool)
        ensures
            r == self.spec_negotiated(),
    {
        self.negotiated
    }

    /// Records the guest's accepted subset. Bits not in the offered set are
    /// ignored, never accepted, so the acknowledged set stays a subset of
    /// the offered one. The set is written once: a second call on the same
    /// connection changes nothing.
    pub fn acknowledge(&mut self, bits: u64)
        requires
            old(self).wf(),
        ensures
            final(self).wf(),
            final(self).spec_offered_bits() == old(self).spec_offered_bits(),
            old(self).spec_negotiated() ==> *final(self) == *old(self),
            !old(self).spec_negotiated() ==> final(self).spec_acked_bits() == bits & old(
                self,
            ).spec_offered_bits() && final(self).spec_negotiated(),
            bits_subset(final(self).spec_acked_bits(), final(self).spec_offered_bits()),
    {
        if !self.negotiated {
            self.acked = bits & self.offered;
            self.negotiated = true;
            proof {
                lemma_masked_is_subset(bits, self.offered);
            }
        }
    }

    /// Whether the guest acknowledged event-index interrupt suppression.
    pub fn event_idx_acked(&self) -> (r: bool)
        ensures
            r == (self.spec_acked_bits() & FEATURE_RING_EVENT_IDX != 0),
    {
        self.acked & FEATURE_RING_EVENT_IDX != 0
    }

    /// Whether the guest acknowledged the multiqueue feature.
    pub fn mq_acked(&self) -> (r: bool)
        ensures
            r == (self.spec_acked_bits() & FEATURE_MQ != 0),
    {
        self.acked & FEATURE_MQ != 0
    }

    /// Whether the guest acknowledged writeback-cache configuration.
    pub fn wce_acked(&self) -> (r: bool)
        ensures
            r == (self.spec_acked_bits() & FEATURE_CONFIG_WCE != 0),
    {
        self.acked & FEATURE_CONFIG_WCE != 0
    }
}

} // verus!
