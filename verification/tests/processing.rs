use vublk::exec::{STATUS_IOERR, STATUS_OK, STATUS_UNSUPP};
use vublk::mem::GuestMem;
use vublk::queue::QueueState;
use vublk::request::{ChainError, Descriptor, RequestKind};
use vublk::store::SectorStore;
use vublk::worker::{drain, process_chain};

const BASE: u64 = 0x1000;
const HDR: u64 = BASE;
const DATA: u64 = BASE + 0x100;
const STATUS: u64 = BASE + 0x300;
const SEG: u64 = BASE + 0x380;

fn fresh_mem() -> GuestMem {
    let mut m = GuestMem::new();
    m.add_region(BASE, vec![0u8; 4096]);
    m
}

fn fresh_store() -> SectorStore {
    SectorStore::new(vec![0u8; 4096], b"testdisk")
}

fn header_bytes(t: u32, sector: u64) -> Vec<u8> {
    let mut v = Vec::new();
    v.extend_from_slice(&t.to_le_bytes());
    v.extend_from_slice(&0u32.to_le_bytes());
    v.extend_from_slice(&sector.to_le_bytes());
    v
}

fn put_header(mem: &mut GuestMem, t: u32, sector: u64) {
    assert!(mem.write(HDR, &header_bytes(t, sector)));
}

fn desc(addr: u64, len: u32, write: bool, next: Option<u16>) -> Descriptor {
    Descriptor { addr, len, write, has_next: next.is_some(), next: next.unwrap_or(0) }
}

fn status_of(mem: &GuestMem) -> u8 {
    mem.read(STATUS, 1).expect("status byte must resolve")[0]
}

/// A write chain: readable header, readable data buffer, writable status.
fn write_chain(data_writable: bool) -> Vec<Descriptor> {
    vec![
        desc(HDR, 16, false, Some(1)),
        desc(DATA, 512, data_writable, Some(2)),
        desc(STATUS, 1, true, None),
    ]
}

#[test]
fn missing_status_descriptor_is_malformed() {
    // A chain lacking a trailing 1-byte writable descriptor parses to
    // Malformed and no storage call occurs.
    let mut mem = fresh_mem();
    let mut store = fresh_store();
    let mut q = QueueState::new(128);
    put_header(&mut mem, 1, 0);
    assert!(mem.write(DATA, &[0x5a; 512]));
    let before = store.image().clone();

    // Header only: too short for header plus status.
    let table = vec![desc(HDR, 16, false, None)];
    assert_eq!(process_chain(&table, 0, &mut q, &mut store, &mut mem), Some(ChainError::Malformed));

    // Trailing descriptor writable but not one byte.
    let table = vec![desc(HDR, 16, false, Some(1)), desc(STATUS, 2, true, None)];
    assert_eq!(process_chain(&table, 0, &mut q, &mut store, &mut mem), Some(ChainError::Malformed));

    // Trailing descriptor one byte but not writable.
    let table = vec![desc(HDR, 16, false, Some(1)), desc(STATUS, 1, false, None)];
    assert_eq!(process_chain(&table, 0, &mut q, &mut store, &mut mem), Some(ChainError::Malformed));

    assert_eq!(store.image(), &before);
    assert_eq!(store.durable_image(), &before);
    assert_eq!(q.used_entries().len(), 0);
    assert_eq!(q.errors(), 3);
}

#[test]
fn cyclic_chain_hits_the_step_limit() {
    let mut mem = fresh_mem();
    let mut store = fresh_store();
    let mut q = QueueState::new(128);
    put_header(&mut mem, 1, 0);
    let table = vec![desc(HDR, 16, false, Some(1)), desc(DATA, 512, false, Some(0))];
    assert_eq!(process_chain(&table, 0, &mut q, &mut store, &mut mem), Some(ChainError::Malformed));
    assert_eq!(q.used_entries().len(), 0);
}

#[test]
fn unresolvable_header_is_out_of_range() {
    let mut mem = fresh_mem();
    let mut store = fresh_store();
    let mut q = QueueState::new(128);
    let table = vec![desc(0x8000_0000, 16, false, Some(1)), desc(STATUS, 1, true, None)];
    assert_eq!(
        process_chain(&table, 0, &mut q, &mut store, &mut mem),
        Some(ChainError::OutOfRange)
    );
    assert_eq!(q.used_entries().len(), 0);
    assert_eq!(q.errors(), 1);
}

#[test]
fn write_chain_with_writable_data_is_wrong_direction() {
    // A WRITE chain whose data descriptor is guest-writable is rejected as
    // WrongDirection before any bytes reach storage.
    let mut mem = fresh_mem();
    let mut store = fresh_store();
    let mut q = QueueState::new(128);
    put_header(&mut mem, 1, 0);
    assert!(mem.write(DATA, &[0x5a; 512]));
    let before = store.image().clone();

    let table = write_chain(true);
    assert_eq!(
        process_chain(&table, 0, &mut q, &mut store, &mut mem),
        Some(ChainError::WrongDirection)
    );
    assert_eq!(store.image(), &before);
    assert_eq!(q.used_entries().len(), 0);
}

#[test]
fn write_then_read_round_trips_through_the_store() {
    let mut mem = fresh_mem();
    let mut store = fresh_store();
    let mut q = QueueState::new(128);

    put_header(&mut mem, 1, 2);
    assert!(mem.write(DATA, &[0x5a; 512]));
    let table = write_chain(false);
    assert_eq!(process_chain(&table, 0, &mut q, &mut store, &mut mem), None);
    assert_eq!(status_of(&mem), STATUS_OK);
    assert_eq!(&store.image()[1024..1536], &[0x5a; 512][..]);
    // The write is not durable before a flush.
    assert_eq!(&store.durable_image()[1024..1536], &[0u8; 512][..]);

    // Read sector 2 back into a fresh guest buffer.
    put_header(&mut mem, 0, 2);
    assert!(mem.write(DATA, &[0u8; 512]));
    let table = vec![
        desc(HDR, 16, false, Some(1)),
        desc(DATA, 512, true, Some(2)),
        desc(STATUS, 1, true, None),
    ];
    assert_eq!(process_chain(&table, 0, &mut q, &mut store, &mut mem), None);
    assert_eq!(status_of(&mem), STATUS_OK);
    assert_eq!(mem.read(DATA, 512).unwrap(), vec![0x5a; 512]);

    // The read completion reports data plus the status byte.
    let used = q.used_entries();
    assert_eq!(used.len(), 2);
    assert_eq!(used[0].len, 1);
    assert_eq!(used[1].len, 513);
}

#[test]
fn flush_after_two_writes_commits_both() {
    // A FLUSH issued after two WRITE requests on the same queue returns OK
    // only together with both writes applied to the durable image.
    let mut mem = fresh_mem();
    let mut store = fresh_store();
    let mut q = QueueState::new(128);

    let d2 = BASE + 0x800;
    let h2 = BASE + 0x600;
    let h3 = BASE + 0x620;
    let s2 = BASE + 0x700;
    let s3 = BASE + 0x701;
    put_header(&mut mem, 1, 0);
    assert!(mem.write(h2, &header_bytes(1, 1)));
    assert!(mem.write(h3, &header_bytes(4, 0)));
    assert!(mem.write(DATA, &[0x11; 512]));
    assert!(mem.write(d2, &[0x22; 512]));

    let table = vec![
        desc(HDR, 16, false, Some(1)),
        desc(DATA, 512, false, Some(2)),
        desc(STATUS, 1, true, None),
        desc(h2, 16, false, Some(4)),
        desc(d2, 512, false, Some(5)),
        desc(s2, 1, true, None),
        desc(h3, 16, false, Some(7)),
        desc(s3, 1, true, None),
    ];
    q.push_avail(0);
    q.push_avail(3);
    q.push_avail(6);
    drain(&table, &mut q, &mut store, &mut mem);

    // All three completed in order, flush last.
    let used = q.used_entries();
    assert_eq!(used.len(), 3);
    assert_eq!((used[0].id, used[1].id, used[2].id), (0, 3, 6));
    assert_eq!(mem.read(s3, 1).unwrap()[0], STATUS_OK);
    // Both writes reached the backing store by the time the flush
    // completed.
    assert_eq!(&store.durable_image()[0..512], &[0x11; 512][..]);
    assert_eq!(&store.durable_image()[512..1024], &[0x22; 512][..]);
}

#[test]
fn get_id_fills_the_guest_buffer() {
    let mut mem = fresh_mem();
    let mut store = fresh_store();
    let mut q = QueueState::new(128);
    put_header(&mut mem, 8, 0);
    let table = vec![
        desc(HDR, 16, false, Some(1)),
        desc(DATA, 20, true, Some(2)),
        desc(STATUS, 1, true, None),
    ];
    assert_eq!(process_chain(&table, 0, &mut q, &mut store, &mut mem), None);
    assert_eq!(status_of(&mem), STATUS_OK);
    let mut expected = b"testdisk".to_vec();
    expected.resize(20, 0);
    assert_eq!(mem.read(DATA, 20).unwrap(), expected);
    assert_eq!(q.used_entries()[0].len, 21);
}

#[test]
fn write_zeroes_clears_the_range() {
    let mut mem = fresh_mem();
    let mut store = SectorStore::new(vec![0xff; 4096], b"testdisk");
    let mut q = QueueState::new(128);
    put_header(&mut mem, 13, 0);
    // One segment: sector 1, count 2, flags 0.
    let mut seg = Vec::new();
    seg.extend_from_slice(&1u64.to_le_bytes());
    seg.extend_from_slice(&2u32.to_le_bytes());
    seg.extend_from_slice(&0u32.to_le_bytes());
    assert!(mem.write(SEG, &seg));
    let table = vec![
        desc(HDR, 16, false, Some(1)),
        desc(SEG, 16, false, Some(2)),
        desc(STATUS, 1, true, None),
    ];
    assert_eq!(process_chain(&table, 0, &mut q, &mut store, &mut mem), None);
    assert_eq!(status_of(&mem), STATUS_OK);
    assert_eq!(&store.image()[512..1536], &[0u8; 1024][..]);
    assert_eq!(&store.image()[0..512], &[0xff; 512][..]);
    assert_eq!(&store.image()[1536..4096], &[0xff; 2560][..]);
}

#[test]
fn discard_leaves_data_but_checks_bounds() {
    let mut mem = fresh_mem();
    let mut store = SectorStore::new(vec![0xff; 4096], b"testdisk");
    let mut q = QueueState::new(128);
    put_header(&mut mem, 11, 0);
    let mut seg = Vec::new();
    seg.extend_from_slice(&0u64.to_le_bytes());
    seg.extend_from_slice(&4u32.to_le_bytes());
    seg.extend_from_slice(&0u32.to_le_bytes());
    assert!(mem.write(SEG, &seg));
    let table = vec![
        desc(HDR, 16, false, Some(1)),
        desc(SEG, 16, false, Some(2)),
        desc(STATUS, 1, true, None),
    ];
    assert_eq!(process_chain(&table, 0, &mut q, &mut store, &mut mem), None);
    assert_eq!(status_of(&mem), STATUS_OK);
    assert_eq!(store.image(), &vec![0xff; 4096]);

    // A segment past the 8-sector capacity fails with an I/O error.
    let mut seg = Vec::new();
    seg.extend_from_slice(&100u64.to_le_bytes());
    seg.extend_from_slice(&1u32.to_le_bytes());
    seg.extend_from_slice(&0u32.to_le_bytes());
    assert!(mem.write(SEG, &seg));
    assert_eq!(process_chain(&table, 0, &mut q, &mut store, &mut mem), None);
    assert_eq!(status_of(&mem), STATUS_IOERR);
}

#[test]
fn segment_flags_follow_the_command() {
    let mut mem = fresh_mem();
    let mut store = SectorStore::new(vec![0xff; 4096], b"testdisk");
    let mut q = QueueState::new(128);
    let table = vec![
        desc(HDR, 16, false, Some(1)),
        desc(SEG, 16, false, Some(2)),
        desc(STATUS, 1, true, None),
    ];
    let mut seg = Vec::new();
    seg.extend_from_slice(&0u64.to_le_bytes());
    seg.extend_from_slice(&1u32.to_le_bytes());
    seg.extend_from_slice(&1u32.to_le_bytes());  // the unmap flag
    assert!(mem.write(SEG, &seg));

    // Write-zeroes may carry the unmap flag.
    put_header(&mut mem, 13, 0);
    assert_eq!(process_chain(&table, 0, &mut q, &mut store, &mut mem), None);
    assert_eq!(status_of(&mem), STATUS_OK);
    assert_eq!(&store.image()[0..512], &[0u8; 512][..]);

    // A secure erase may not.
    put_header(&mut mem, 14, 0);
    assert_eq!(process_chain(&table, 0, &mut q, &mut store, &mut mem), None);
    assert_eq!(status_of(&mem), STATUS_UNSUPP);

    // Neither may a discard.
    put_header(&mut mem, 11, 0);
    assert_eq!(process_chain(&table, 0, &mut q, &mut store, &mut mem), None);
    assert_eq!(status_of(&mem), STATUS_UNSUPP);

    // Secure erase with clean flags zeroes the range.
    let mut store2 = SectorStore::new(vec![0xff; 4096], b"testdisk");
    let mut seg = Vec::new();
    seg.extend_from_slice(&2u64.to_le_bytes());
    seg.extend_from_slice(&1u32.to_le_bytes());
    seg.extend_from_slice(&0u32.to_le_bytes());
    assert!(mem.write(SEG, &seg));
    put_header(&mut mem, 14, 0);
    assert_eq!(process_chain(&table, 0, &mut q, &mut store2, &mut mem), None);
    assert_eq!(status_of(&mem), STATUS_OK);
    assert_eq!(&store2.image()[1024..1536], &[0u8; 512][..]);
}

#[test]
fn unknown_command_reports_unsupported() {
    let mut mem = fresh_mem();
    let mut store = fresh_store();
    let mut q = QueueState::new(128);
    put_header(&mut mem, 99, 0);
    let before = store.image().clone();
    let table = vec![desc(HDR, 16, false, Some(1)), desc(STATUS, 1, true, None)];
    assert_eq!(process_chain(&table, 0, &mut q, &mut store, &mut mem), None);
    assert_eq!(status_of(&mem), STATUS_UNSUPP);
    assert_eq!(store.image(), &before);
    // The chain still completes, status byte only.
    assert_eq!(q.used_entries()[0].len, 1);
}

#[test]
fn write_past_capacity_is_an_io_error() {
    let mut mem = fresh_mem();
    let mut store = fresh_store();
    let mut q = QueueState::new(128);
    // Sector 8 of an 8-sector store is one past the end.
    put_header(&mut mem, 1, 8);
    assert!(mem.write(DATA, &[0x5a; 512]));
    let before = store.image().clone();
    let table = write_chain(false);
    assert_eq!(process_chain(&table, 0, &mut q, &mut store, &mut mem), None);
    assert_eq!(status_of(&mem), STATUS_IOERR);
    assert_eq!(store.image(), &before);
}

#[test]
fn descriptor_lifts_the_wire_flags() {
    let d = Descriptor::from_raw(0x2000, 512, 3, 7);
    assert!(d.write);
    assert!(d.has_next);
    assert_eq!((d.addr, d.len, d.next), (0x2000, 512, 7));
    let d = Descriptor::from_raw(0x2000, 16, 0, 0);
    assert!(!d.write);
    assert!(!d.has_next);
}

#[test]
fn parse_yields_the_typed_request() {
    let mut mem = fresh_mem();
    put_header(&mut mem, 0, 7);
    let table = vec![
        desc(HDR, 16, false, Some(1)),
        desc(DATA, 512, true, Some(2)),
        desc(STATUS, 1, true, None),
    ];
    let req = vublk::parser::parse_chain(&table, 0, 128, &mem).expect("chain is valid");
    assert_eq!(req.kind, RequestKind::Read);
    assert_eq!(req.sector, 7);
    assert_eq!(req.data.len(), 1);
    assert_eq!(req.data[0].addr, DATA);
    assert_eq!(req.data[0].len, 512);
    assert_eq!(req.status_addr, STATUS);
}
