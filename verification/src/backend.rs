//! The backend coordinator.
//!
//! Owns the encoded configuration record, the feature sets and the
//! read-only flag, and answers the transport's calls: queue geometry,
//! feature negotiation, configuration reads and writes, and the
//! worker-to-queue assignment. Request processing itself lives in the
//! worker; the transport hands each worker its queue events.

use vstd::prelude::*;

use crate::config::{spec_encode_config, spec_get, spec_set, Config, ConfigError, ConfigSpace};
use crate::features::{spec_offered, FeatureSet};

verus! {

/// The fixed ring size offered for every queue.
pub const MAX_QUEUE_SIZE: u16 = 128;

/// Transport protocol feature: more than one request queue.
pub const PROTO_MQ: u64 = 0x1;

/// Transport protocol feature: the device has a configuration space.
pub const PROTO_CONFIG: u64 = 0x200;

/// The device-side state the transport talks to.
pub struct BlockBackend {
    config_space: ConfigSpace,
    features: FeatureSet,
    readonly: bool,
    num_queues: u16,
    event_idx: bool,
    worker_per_queue: bool,
}

impl BlockBackend {
    /// The encoded configuration record.
    pub closed spec fn spec_config(&self) -> Seq<u8> {
        self.config_space@
    }

    /// The connection's feature sets.
    pub closed spec fn spec_features(&self) -> FeatureSet {
        self.features
    }

    pub closed spec fn spec_readonly(&self) -> bool {
        self.readonly
    }

    pub closed spec fn spec_num_queues(&self) -> u16 {
        self.num_queues
    }

    pub closed spec fn spec_event_idx(&self) -> bool {
        self.event_idx
    }

    pub closed spec fn spec_worker_per_queue(&self) -> bool {
        self.worker_per_queue
    }

    pub open spec fn wf(&self) -> bool {
        self.spec_features().wf()
    }

    /// Builds the backend: the record encoded from `config`, features
    /// offered according to `readonly`, nothing negotiated yet.
    pub fn new(config: &Config, readonly: bool) -> (b: Self)
        ensures
            b.wf(),
            b.spec_config() == spec_encode_config(*config),
            b.spec_readonly() == readonly,
            b.spec_num_queues() == config.num_queues,
            b.spec_features().spec_offered_bits() == spec_offered(readonly),
            b.spec_features().spec_acked_bits() == 0,
            !b.spec_features().spec_negotiated(),
            !b.spec_event_idx(),
            !b.spec_worker_per_queue(),
    {
        BlockBackend {
            config_space: ConfigSpace::new(config),
            features: FeatureSet::new(readonly),
            readonly,
            num_queues: config.num_queues,
            event_idx: false,
            worker_per_queue: false,
        }
    }

    /// How many request queues the device offers.
    pub fn num_queues(&self) -> (n: usize)
        ensures
            n == self.spec_num_queues(),
    {
        self.num_queues as usize
    }

    /// The fixed ring size of every queue.
    pub fn max_queue_size(&self) -> (n: usize)
        ensures
            n == MAX_QUEUE_SIZE,
    {
        MAX_QUEUE_SIZE as usize
    }

    /// The virtio feature bitmask offered to the guest.
    pub fn features(&self) -> (f: u64)
        ensures
            f == self.spec_features().spec_offered_bits(),
    {
        self.features.offered()
    }

    /// The transport protocol features this backend implements.
    pub fn protocol_features(&self) -> (f: u64)
        ensures
            f == PROTO_MQ | PROTO_CONFIG,
    {
        PROTO_MQ | PROTO_CONFIG
    }

    /// Records the guest's accepted feature subset, once per connection:
    /// bits never offered are ignored, a second call changes nothing, and
    /// the acknowledged set stays a subset of the offered one.
    pub fn acked_features(&mut self, bits: u64)
        requires
            old(self).wf(),
        ensures
            final(self).wf(),
            final(self).spec_config() == old(self).spec_config(),
            final(self).spec_readonly() == old(self).spec_readonly(),
            final(self).spec_num_queues() == old(self).spec_num_queues(),
            final(self).spec_event_idx() == old(self).spec_event_idx(),
            final(self).spec_features().spec_offered_bits()
                == old(self).spec_features().spec_offered_bits(),
            old(self).spec_features().spec_negotiated() ==> final(self).spec_features()
                == old(self).spec_features(),
            !old(self).spec_features().spec_negotiated()
                ==> final(self).spec_features().spec_acked_bits()
                == bits & old(self).spec_features().spec_offered_bits()
                && final(self).spec_features().spec_negotiated(),
    {
        self.features.acknowledge(bits);
    }

    /// The feature subset the guest acknowledged.
    pub fn acked(&self) -> (f: u64)
        ensures
            f == self.spec_features().spec_acked_bits(),
    {
        self.features.acked()
    }

    /// Records whether the guest negotiated event-index suppression; the
    /// workers consult this when signaling completions.
    pub fn set_event_idx(&mut self, enabled: bool)
        requires
            old(self).wf(),
        ensures
            final(self).wf(),
            final(self).spec_event_idx() == enabled,
            final(self).spec_config() == old(self).spec_config(),
            final(self).spec_readonly() == old(self).spec_readonly(),
            final(self).spec_num_queues() == old(self).spec_num_queues(),
            final(self).spec_features() == old(self).spec_features(),
    {
        self.event_idx = enabled;
    }

    /// Whether event-index suppression is on.
    pub fn event_idx(&self) -> (r: bool)
        ensures
            r == self.spec_event_idx(),
    {
        self.event_idx
    }

    /// Answers a configuration read: the requested range, clamped to the
    /// record. Safe for any offset and size; never panics.
    pub fn get_config(&self, offset: u32, size: u32) -> (r: Vec<u8>)
        ensures
            r@ == spec_get(self.spec_config(), offset as int, size as int),
    {
        self.config_space.get(offset, size)
    }

    /// Applies a configuration write: rejected whole, the record
    /// untouched, exactly when the span would run past the record's end.
    pub fn set_config(&mut self, offset: u32, buf: &[u8]) -> (r: Result<(), ConfigError>)
        requires
            old(self).wf(),
        ensures
            final(self).wf(),
            final(self).spec_readonly() == old(self).spec_readonly(),
            final(self).spec_num_queues() == old(self).spec_num_queues(),
            final(self).spec_event_idx() == old(self).spec_event_idx(),
            final(self).spec_features() == old(self).spec_features(),
            match r {
                Ok(()) => offset + buf@.len() <= old(self).spec_config().len()
                    && final(self).spec_config()
                    == spec_set(old(self).spec_config(), offset as int, buf@),
                Err(e) => e == ConfigError::OutOfBounds
                    && offset + buf@.len() > old(self).spec_config().len()
                    && final(self).spec_config() == old(self).spec_config(),
            },
    {
        self.config_space.set(offset, buf)
    }

    /// Chooses the worker-to-queue assignment. Both assignments are
    /// correct; multiqueue spreading only changes performance.
    pub fn set_worker_per_queue(&mut self, enabled: bool)
        requires
            old(self).wf(),
        ensures
            final(self).wf(),
            final(self).spec_worker_per_queue() == enabled,
            final(self).spec_config() == old(self).spec_config(),
            final(self).spec_readonly() == old(self).spec_readonly(),
            final(self).spec_num_queues() == old(self).spec_num_queues(),
            final(self).spec_event_idx() == old(self).spec_event_idx(),
            final(self).spec_features() == old(self).spec_features(),
    {
        self.worker_per_queue = enabled;
    }

    /// The worker-to-queue assignment, one bitmask of queue indices per
    /// worker thread: either a single worker serving every queue, or —
    /// when chosen and the queue count allows a one-bit-per-queue mask —
    /// one worker per queue.
    pub fn queues_per_thread(&self) -> (r: Vec<u64>)
        ensures
            !(self.spec_worker_per_queue() && self.spec_num_queues() <= 64) ==> r@.len() == 1
                && r@[0] == 0xffff_ffffu64,
            self.spec_worker_per_queue() && self.spec_num_queues() <= 64 ==> r@.len()
                == self.spec_num_queues() && forall|i: int|
                0 <= i < r@.len() ==> r@[i] == 1u64 << (i as u64),
    {
        let mut v: Vec<u64> = Vec::new();
        if self.worker_per_queue && self.num_queues <= 64 {
            let n = self.num_queues;
            let mut i: u16 = 0;
            while i < n
                invariant
                    0 <= i <= n,
                    n <= 64,
                    v@.len() == i,
                    forall|j: int| 0 <= j < i ==> v@[j] == 1u64 << (j as u64),
                decreases n - i,
            {
                v.push(1u64 << (i as u64));
                i = i + 1;
            }
        } else {
            v.push(0xffff_ffff);
        }
        v
    }
}

} // verus!
