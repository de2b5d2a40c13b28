use vublk::config::{Config, ConfigError, ConfigSpace, Geometry, ZoneCharacteristic, CONFIG_BYTES};

fn sample_config() -> Config {
    Config {
        capacity: 1048576,
        size_max: 65536,
        seg_max: 126,
        geometry: Geometry { cylinders: 0, heads: 0, sectors: 0 },
        blk_size: 4096,
        physical_block_exp: 0,
        alignment_offset: 0,
        min_io_size: 1,
        opt_io_size: 8,
        wce: 1,
        num_queues: 2,
        max_discard_sectors: 0,
        max_discard_seg: 0,
        discard_sector_alignment: 0,
        max_write_zeroes_sectors: 1024,
        max_write_zeroes_seg: 1,
        write_zeroes_may_unmap: 1,
        max_secure_erase_sectors: 0,
        max_secure_erase_seg: 0,
        secure_erase_sector_alignment: 0,
        zoned: ZoneCharacteristic {
            zone_sectors: 0,
            max_open_zones: 0,
            max_active_zones: 0,
            max_append_sectors: 0,
            write_granularity: 0,
            model: 0,
        },
    }
}

#[test]
fn encode_has_fixed_size() {
    let bytes = sample_config().encode();
    assert_eq!(bytes.len(), CONFIG_BYTES);
    assert_eq!(bytes.len(), 94);
}

#[test]
fn capacity_encodes_little_endian_at_offset_zero() {
    // A record with capacity 1048576 sectors answers get_config(0, 8) with
    // the 8-byte little-endian encoding of that value.
    let space = ConfigSpace::new(&sample_config());
    let head = space.get(0, 8);
    assert_eq!(head, vec![0x00, 0x00, 0x10, 0x00, 0x00, 0x00, 0x00, 0x00]);
}

#[test]
fn fields_encode_at_documented_offsets() {
    let bytes = sample_config().encode();
    // size_max at 8..12, seg_max at 12..16
    assert_eq!(&bytes[8..12], &[0x00, 0x00, 0x01, 0x00]);
    assert_eq!(&bytes[12..16], &[126, 0, 0, 0]);
    // blk_size at 20..24
    assert_eq!(&bytes[20..24], &[0x00, 0x10, 0x00, 0x00]);
    // min_io_size at 26..28, opt_io_size at 28..30
    assert_eq!(&bytes[26..28], &[1, 0]);
    assert_eq!(&bytes[28..30], &[8, 0]);
    // wce at 30, reserved zero at 31, num_queues at 32..34
    assert_eq!(bytes[30], 1);
    assert_eq!(bytes[31], 0);
    assert_eq!(&bytes[32..34], &[2, 0]);
    // max_write_zeroes_sectors at 46..50, may_unmap at 54
    assert_eq!(&bytes[46..50], &[0x00, 0x04, 0x00, 0x00]);
    assert_eq!(bytes[54], 1);
}

#[test]
fn get_clamps_to_record_tail() {
    let space = ConfigSpace::new(&sample_config());
    // A range that runs past the end returns only the tail.
    let tail = space.get(90, 10);
    assert_eq!(tail.len(), 4);
    // A range that starts past the end returns nothing.
    let empty = space.get(200, 4);
    assert!(empty.is_empty());
    // Extreme arguments neither panic nor read out of bounds.
    let none = space.get(u32::MAX, u32::MAX);
    assert!(none.is_empty());
}

#[test]
fn set_within_bounds_succeeds() {
    // set_config(4, [0,0,0,0]) on a record of total size 64 succeeds.
    let mut space = ConfigSpace::from_bytes(vec![0xaa; 64]);
    assert_eq!(space.set(4, &[0, 0, 0, 0]), Ok(()));
    assert_eq!(space.get(4, 4), vec![0, 0, 0, 0]);
    assert_eq!(space.get(0, 4), vec![0xaa; 4]);
    assert_eq!(space.get(8, 4), vec![0xaa; 4]);
}

#[test]
fn set_past_end_fails_and_leaves_record_unchanged() {
    // set_config(60, [0,0,0,0,0]) — five bytes at offset 60 of a 64-byte
    // record — fails with a bounds error and the record is unchanged.
    let mut space = ConfigSpace::from_bytes(vec![0xaa; 64]);
    let before = space.get(0, 64);
    assert_eq!(space.set(60, &[0, 0, 0, 0, 0]), Err(ConfigError::OutOfBounds));
    assert_eq!(space.get(0, 64), before);
}

#[test]
fn get_then_set_round_trips() {
    // Reading a range and writing it back leaves the record unchanged,
    // byte for byte.
    let mut space = ConfigSpace::new(&sample_config());
    let before = space.get(0, 94);
    let window = space.get(10, 30);
    assert_eq!(space.set(10, &window), Ok(()));
    assert_eq!(space.get(0, 94), before);

    let whole = space.get(0, 94);
    assert_eq!(space.set(0, &whole), Ok(()));
    assert_eq!(space.get(0, 94), before);
}
