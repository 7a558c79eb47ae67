use linux_bt_proxy::uuid::{parse_uuid, ShortUuid};

fn bit16(text: &str) -> Option<u16> {
    match parse_uuid(text) {
        Some(ShortUuid::Bit16(id)) => Some(id),
        _ => None,
    }
}

fn bit32(text: &str) -> Option<u32> {
    match parse_uuid(text) {
        Some(ShortUuid::Bit32(id)) => Some(id),
        _ => None,
    }
}

fn bit128(text: &str) -> Option<[u8; 16]> {
    match parse_uuid(text) {
        Some(ShortUuid::Bit128(bytes)) => Some(bytes),
        _ => None,
    }
}

#[test]
fn shrinks_to_sixteen_bits() {
    assert_eq!(bit16("0000180d-0000-1000-8000-00805f9b34fb"), Some(0x180d));
    assert_eq!(bit16("0000FFFF-0000-1000-8000-00805F9B34FB"), Some(0xffff));
    assert_eq!(bit16("00000000-0000-1000-8000-00805f9b34fb"), Some(0));
}

#[test]
fn shrinks_to_thirty_two_bits() {
    assert_eq!(bit32("0001180d-0000-1000-8000-00805f9b34fb"), Some(0x0001180d));
    assert_eq!(bit32("12345678-0000-1000-8000-00805f9b34fb"), Some(0x12345678));
    assert_eq!(bit32("00010000-0000-1000-8000-00805f9b34fb"), Some(0x10000));
}

#[test]
fn keeps_all_bytes_of_other_uuids() {
    assert_eq!(
        bit128("6e400001-b5a3-f393-e0a9-e50e24dcca9e"),
        Some([
            0x6e, 0x40, 0x00, 0x01, 0xb5, 0xa3, 0xf3, 0x93, 0xe0, 0xa9, 0xe5, 0x0e, 0x24, 0xdc,
            0xca, 0x9e
        ])
    );
    assert!(bit128("0000180d-0000-1000-8000-00805f9b34fc").is_some());
}

#[test]
fn dashes_may_stand_anywhere() {
    assert_eq!(bit16("0000180d00001000800000805f9b34fb"), Some(0x180d));
    assert_eq!(bit16("-0-0-0-0-180d00001000800000805f9b34fb-"), Some(0x180d));
}

#[test]
fn a_plus_sign_may_stand_before_a_digit() {
    assert_eq!(bit16("+0+0180d-0000-1000-8000-00805f9b34fb"), Some(0x180d));
}

#[test]
fn refuses_what_is_no_uuid() {
    assert!(parse_uuid("").is_none());
    assert!(parse_uuid("180d").is_none());
    assert!(parse_uuid("0000180d-0000-1000-8000-00805f9b34f").is_none());
    assert!(parse_uuid("0000180d-0000-1000-8000-00805f9b34fbb").is_none());
    assert!(parse_uuid("0000180g-0000-1000-8000-00805f9b34fb").is_none());
    assert!(parse_uuid("éé00180d-0000-1000-8000-00805f9b34").is_none());
}

#[test]
fn reads_back_canonical_text() {
    let bytes: [u8; 16] = [0, 17, 34, 51, 68, 85, 102, 119, 136, 153, 170, 187, 204, 221, 238, 255];
    assert_eq!(bit128("00112233-4455-6677-8899-aabbccddeeff"), Some(bytes));
}
