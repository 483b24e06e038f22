use header_translator::uuid::CFUUIDBytes;

#[test]
fn eq() {
    let uuid0: CFUUIDBytes = [0; 16].into();
    let uuid1: CFUUIDBytes = [1; 16].into();
    assert_eq!(uuid0, uuid0);
    assert_ne!(uuid0, uuid1);
}

#[test]
fn roundtrip() {
    let bytes: [u8; 16] = [0, 1, 2, 3, 4, 5, 6, 7, 8, 9, 10, 11, 12, 13, 14, 15];
    let uuid = CFUUIDBytes::from(bytes);
    assert_eq!(uuid, uuid);

    let back: [u8; 16] = uuid.to_array();
    assert_eq!(back, bytes);
    let same_uuid = CFUUIDBytes::from(back);
    assert_eq!(uuid, same_uuid);
}

#[test]
fn record_and_array_convert_both_ways() {
    let bytes: [u8; 16] = [15, 14, 13, 12, 11, 10, 9, 8, 7, 6, 5, 4, 3, 2, 1, 0];
    let uuid = CFUUIDBytes::from(bytes);
    assert_eq!(uuid.byte0, 15);
    assert_eq!(uuid.byte7, 8);
    assert_eq!(uuid.byte15, 0);
    let back: [u8; 16] = uuid.into();
    assert_eq!(back, bytes);
    assert_eq!(<[u8; 16]>::from(uuid), uuid.to_array());
}
