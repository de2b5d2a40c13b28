use vublk::features::{
    FeatureSet, FEATURE_BLK_SIZE, FEATURE_CONFIG_WCE, FEATURE_FLUSH, FEATURE_GEOMETRY, FEATURE_MQ,
    FEATURE_RING_EVENT_IDX, FEATURE_RO, FEATURE_SEG_MAX, FEATURE_SIZE_MAX, FEATURE_VERSION_1,
    FEATURE_VHOST_PROTOCOL, FEATURE_WRITE_ZEROES,
};

#[test]
fn offered_holds_the_advertised_bits() {
    let fs = FeatureSet::new(false);
    let offered = fs.offered();
    for bit in [
        FEATURE_SIZE_MAX,
        FEATURE_SEG_MAX,
        FEATURE_GEOMETRY,
        FEATURE_BLK_SIZE,
        FEATURE_FLUSH,
        FEATURE_CONFIG_WCE,
        FEATURE_MQ,
        FEATURE_WRITE_ZEROES,
        FEATURE_RING_EVENT_IDX,
        FEATURE_VHOST_PROTOCOL,
        FEATURE_VERSION_1,
    ] {
        assert_ne!(offered & bit, 0);
    }
    assert_eq!(offered & FEATURE_RO, 0);
}

#[test]
fn readonly_adds_the_readonly_bit() {
    let fs = FeatureSet::new(true);
    assert_ne!(fs.offered() & FEATURE_RO, 0);
    assert_eq!(fs.offered() & !FEATURE_RO, FeatureSet::new(false).offered());
}

#[test]
fn acknowledged_is_always_a_subset_of_offered() {
    let mut fs = FeatureSet::new(false);
    fs.acknowledge(u64::MAX);
    let acked = fs.acked();
    let offered = fs.offered();
    assert_eq!(acked & offered, acked);
    assert_eq!(acked, offered);
}

#[test]
fn bits_never_offered_are_ignored() {
    // Bit 3 is not part of the offered set; acknowledging it must not
    // silently accept it.
    let mut fs = FeatureSet::new(false);
    assert_eq!(fs.offered() & (1 << 3), 0);
    fs.acknowledge((1 << 3) | FEATURE_FLUSH);
    assert_eq!(fs.acked() & (1 << 3), 0);
    assert_eq!(fs.acked(), FEATURE_FLUSH);
}

#[test]
fn acknowledge_is_write_once() {
    let mut fs = FeatureSet::new(false);
    fs.acknowledge(FEATURE_FLUSH);
    assert!(fs.negotiated());
    fs.acknowledge(FEATURE_MQ);
    assert_eq!(fs.acked(), FEATURE_FLUSH);
}

#[test]
fn downstream_logic_consults_acked_not_offered() {
    let mut fs = FeatureSet::new(false);
    assert_ne!(fs.offered() & FEATURE_RING_EVENT_IDX, 0);
    assert!(!fs.event_idx_acked());
    fs.acknowledge(FEATURE_RING_EVENT_IDX | FEATURE_MQ | FEATURE_CONFIG_WCE);
    assert!(fs.event_idx_acked());
    assert!(fs.mq_acked());
    assert!(fs.wce_acked());
}
