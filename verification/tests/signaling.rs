use vublk::backend::{BlockBackend, MAX_QUEUE_SIZE, PROTO_CONFIG, PROTO_MQ};
use vublk::config::{Config, ConfigError, Geometry, ZoneCharacteristic};
use vublk::exec::STATUS_OK;
use vublk::features::{FEATURE_RING_EVENT_IDX, FEATURE_RO};
use vublk::mem::GuestMem;
use vublk::queue::QueueState;
use vublk::request::Descriptor;
use vublk::store::SectorStore;
use vublk::worker::{drain, QueueWorker, WorkerState};

const BASE: u64 = 0x1000;

fn small_config() -> Config {
    Config {
        capacity: 8,
        size_max: 0,
        seg_max: 0,
        geometry: Geometry { cylinders: 0, heads: 0, sectors: 0 },
        blk_size: 512,
        physical_block_exp: 0,
        alignment_offset: 0,
        min_io_size: 0,
        opt_io_size: 0,
        wce: 0,
        num_queues: 4,
        max_discard_sectors: 0,
        max_discard_seg: 0,
        discard_sector_alignment: 0,
        max_write_zeroes_sectors: 0,
        max_write_zeroes_seg: 0,
        write_zeroes_may_unmap: 0,
        max_secure_erase_sectors: 0,
        max_secure_erase_seg: 0,
        secure_erase_sector_alignment: 0,
        zoned: ZoneCharacteristic {
            zone_sectors: 0,
            max_open_zones: 0,
            max_active_zones: 0,
            max_append_sectors: 0,
            write_granularity: 0,
            model: 0,
        },
    }
}

fn desc(addr: u64, len: u32, write: bool, next: Option<u16>) -> Descriptor {
    Descriptor { addr, len, write, has_next: next.is_some(), next: next.unwrap_or(0) }
}

fn header_bytes(t: u32, sector: u64) -> Vec<u8> {
    let mut v = Vec::new();
    v.extend_from_slice(&t.to_le_bytes());
    v.extend_from_slice(&0u32.to_le_bytes());
    v.extend_from_slice(&sector.to_le_bytes());
    v
}

/// Three flushes at heads 0, 2 and 4; the chain at head 6 is malformed.
fn flush_table(mem: &mut GuestMem) -> Vec<Descriptor> {
    assert!(mem.write(BASE, &header_bytes(4, 0)));
    vec![
        desc(BASE, 16, false, Some(1)),
        desc(BASE + 0x100, 1, true, None),
        desc(BASE, 16, false, Some(3)),
        desc(BASE + 0x101, 1, true, None),
        desc(BASE, 16, false, Some(5)),
        desc(BASE + 0x102, 1, true, None),
        desc(BASE, 16, false, None),
    ]
}

#[test]
fn completions_keep_available_order() {
    // N chains made available in sequence complete in the same relative
    // order, a dropped chain changing nothing about the order of the rest.
    let mut mem = GuestMem::new();
    mem.add_region(BASE, vec![0u8; 4096]);
    let mut store = SectorStore::new(vec![0u8; 4096], b"d");
    let mut q = QueueState::new(128);
    let table = flush_table(&mut mem);

    q.push_avail(0);
    q.push_avail(6);  // malformed: no status descriptor
    q.push_avail(2);
    q.push_avail(4);
    drain(&table, &mut q, &mut store, &mut mem);

    let used = q.used_entries();
    assert_eq!(used.len(), 3);
    assert_eq!((used[0].id, used[1].id, used[2].id), (0, 2, 4));
    assert_eq!(q.errors(), 1);
    assert_eq!(q.used_idx(), 3);
    assert_eq!(mem.read(BASE + 0x100, 1).unwrap()[0], STATUS_OK);

    // A later drain appends after the earlier completions.
    q.push_avail(4);
    q.push_avail(0);
    drain(&table, &mut q, &mut store, &mut mem);
    let used = q.used_entries();
    assert_eq!(used.len(), 5);
    assert_eq!((used[3].id, used[4].id), (4, 0));
}

#[test]
fn suppression_disabled_notifies_every_completion() {
    let mut q = QueueState::new(128);
    q.set_event_idx(false);
    q.complete(0, 1);
    assert!(q.maybe_notify());
    q.complete(1, 1);
    assert!(q.maybe_notify());
}

#[test]
fn suppression_holds_interrupts_until_the_threshold() {
    // With suppression enabled and threshold 2, no notification fires
    // until the used index advances past 2.
    let mut q = QueueState::new(128);
    q.set_event_idx(true);
    q.set_used_event(2);

    q.complete(0, 1);  // used index 1
    assert!(!q.maybe_notify());
    q.complete(1, 1);  // used index 2
    assert!(!q.maybe_notify());
    q.complete(2, 1);  // used index 3: crossed the threshold
    assert!(q.maybe_notify());

    // Nothing new completed: no further interrupt.
    assert!(!q.maybe_notify());
}

#[test]
fn suppression_threshold_zero_fires_on_first_completion() {
    let mut q = QueueState::new(128);
    q.set_event_idx(true);
    q.set_used_event(0);
    q.complete(0, 1);
    assert!(q.maybe_notify());
}

#[test]
fn worker_drains_on_ready_and_returns_to_idle() {
    let mut mem = GuestMem::new();
    mem.add_region(BASE, vec![0u8; 4096]);
    let mut store = SectorStore::new(vec![0u8; 4096], b"d");
    let table = flush_table(&mut mem);

    let mut w = QueueWorker::new(128);
    assert_eq!(w.state(), WorkerState::Idle);
    w.queue_mut().push_avail(0);
    w.queue_mut().push_avail(2);
    w.handle_ready(&table, &mut store, &mut mem);
    assert_eq!(w.state(), WorkerState::Idle);
    assert_eq!(w.queue().used_entries().len(), 2);
    assert_eq!(w.queue().pending(), 0);
}

#[test]
fn worker_told_to_exit_accepts_no_more_chains() {
    let mut mem = GuestMem::new();
    mem.add_region(BASE, vec![0u8; 4096]);
    let mut store = SectorStore::new(vec![0u8; 4096], b"d");
    let table = flush_table(&mut mem);

    let mut w = QueueWorker::new(128);
    w.handle_exit();
    assert_eq!(w.state(), WorkerState::ShuttingDown);
    w.queue_mut().push_avail(0);
    w.handle_ready(&table, &mut store, &mut mem);
    assert_eq!(w.state(), WorkerState::ShuttingDown);
    assert_eq!(w.queue().used_entries().len(), 0);
    assert_eq!(w.queue().pending(), 1);
}

#[test]
fn backend_answers_the_transport_calls() {
    let mut b = BlockBackend::new(&small_config(), false);
    assert_eq!(b.num_queues(), 4);
    assert_eq!(b.max_queue_size(), MAX_QUEUE_SIZE as usize);
    assert_eq!(b.max_queue_size(), 128);
    assert_eq!(b.protocol_features(), PROTO_MQ | PROTO_CONFIG);
    assert_eq!(b.queues_per_thread(), vec![0xffff_ffffu64]);
    assert_eq!(b.features() & FEATURE_RO, 0);

    assert!(!b.event_idx());
    b.set_event_idx(true);
    assert!(b.event_idx());

    // Negotiation through the backend keeps the subset rule.
    b.acked_features(u64::MAX);
    assert_eq!(b.acked() & b.features(), b.acked());
    assert_ne!(b.acked() & FEATURE_RING_EVENT_IDX, 0);
}

#[test]
fn queue_assignment_supports_both_modes() {
    let mut b = BlockBackend::new(&small_config(), false);
    assert_eq!(b.queues_per_thread(), vec![0xffff_ffffu64]);
    b.set_worker_per_queue(true);
    assert_eq!(b.queues_per_thread(), vec![1, 2, 4, 8]);
    b.set_worker_per_queue(false);
    assert_eq!(b.queues_per_thread(), vec![0xffff_ffffu64]);
}

#[test]
fn backend_readonly_advertises_the_readonly_bit() {
    let b = BlockBackend::new(&small_config(), true);
    assert_ne!(b.features() & FEATURE_RO, 0);
}

#[test]
fn backend_config_calls_reach_the_record() {
    let mut b = BlockBackend::new(&small_config(), false);
    // capacity 8 sectors, little-endian, at offset 0
    assert_eq!(b.get_config(0, 8), vec![8, 0, 0, 0, 0, 0, 0, 0]);
    // writeback flag lives at offset 30
    assert_eq!(b.set_config(30, &[1]), Ok(()));
    assert_eq!(b.get_config(30, 1), vec![1]);
    // a write past the record's end is rejected, the record unchanged
    let before = b.get_config(0, 94);
    assert_eq!(b.set_config(93, &[0, 0]), Err(ConfigError::OutOfBounds));
    assert_eq!(b.get_config(0, 94), before);
}
