use linux_bt_proxy::properties::{DeviceProperties, DictEntry, DictKey, DictProperty};
use linux_bt_proxy::raw_adv::{
    build_raw_advertisement_data, encode_advertisement, push_ad, push_manufacturer_data_ad,
    push_service_data_ad, push_uuid_list_ad,
};
use std::collections::HashMap;
use zbus::zvariant::{OwnedValue, Value};

const HEART_RATE: &str = "0000180d-0000-1000-8000-00805f9b34fb";
const BATTERY: &str = "0000180f-0000-1000-8000-00805f9b34fb";
const WIDE: &str = "12345678-0000-1000-8000-00805f9b34fb";
const UART: &str = "6e400001-b5a3-f393-e0a9-e50e24dcca9e";
const UART_WIRE: [u8; 16] = [
    0x9e, 0xca, 0xdc, 0x24, 0x0e, 0xe5, 0xa9, 0xe0, 0x93, 0xf3, 0xa3, 0xb5, 0x01, 0x00, 0x40, 0x6e,
];

fn owned(value: Value<'_>) -> OwnedValue {
    OwnedValue::try_from(value).unwrap()
}

fn entry(key: DictKey, data: Option<&[u8]>) -> DictEntry {
    DictEntry { key, data: data.map(|data| data.to_vec()) }
}

fn text(text: &str) -> DictKey {
    DictKey::Text(text.to_string())
}

fn nothing() -> DeviceProperties {
    DeviceProperties {
        address: None,
        address_type: None,
        rssi: None,
        name: None,
        uuids: None,
        service_data: DictProperty::Absent,
        manufacturer_data: DictProperty::Absent,
        tx_power: None,
    }
}

/// The AD structures of a byte stream.
fn structures(bytes: &[u8]) -> Option<Vec<(u8, Vec<u8>)>> {
    let mut rest = bytes;
    let mut found = Vec::new();
    while !rest.is_empty() {
        let size = rest[0] as usize;
        if size == 0 || rest.len() < 1 + size {
            return None;
        }
        found.push((rest[1], rest[2..1 + size].to_vec()));
        rest = &rest[1 + size..];
    }
    Some(found)
}

#[test]
fn a_structure_is_length_type_and_payload() {
    let mut out = vec![0xee];
    push_ad(&mut out, 0x09, b"abc");
    assert_eq!(out, [0xee, 4, 0x09, b'a', b'b', b'c']);
    push_ad(&mut out, 0x0a, &[]);
    assert_eq!(out[6..], [1, 0x0a]);
}

#[test]
fn the_length_byte_wraps_around() {
    for (length, byte) in [(254, 255u8), (255, 0), (256, 1), (511, 0), (600, 89)] {
        let mut out = Vec::new();
        push_ad(&mut out, 0xff, &vec![7; length]);
        assert_eq!(out[0], byte);
        assert_eq!(out.len(), length + 2);
    }
}

#[test]
fn long_payloads_are_not_read_back() {
    let mut out = Vec::new();
    push_ad(&mut out, 0xff, &[7; 254]);
    assert_eq!(structures(&out), Some(vec![(0xff, vec![7; 254])]));
    let mut out = Vec::new();
    push_ad(&mut out, 0xff, &[7; 255]);
    assert_eq!(structures(&out), None);
}

#[test]
fn uuids_are_listed_by_width() {
    let uuids: Vec<String> = [HEART_RATE, UART, "junk", WIDE, BATTERY]
        .iter()
        .map(|uuid| uuid.to_string())
        .collect();
    let mut out = vec![1];
    push_uuid_list_ad(&mut out, &uuids);
    let mut expected = vec![1, 5, 0x03, 0x0d, 0x18, 0x0f, 0x18];
    expected.extend_from_slice(&[5, 0x05, 0x78, 0x56, 0x34, 0x12]);
    expected.extend_from_slice(&[17, 0x07]);
    expected.extend_from_slice(&UART_WIRE);
    assert_eq!(out, expected);
}

#[test]
fn lists_without_uuids_are_left_out() {
    let mut out = Vec::new();
    push_uuid_list_ad(&mut out, &[]);
    push_uuid_list_ad(&mut out, &["junk".to_string()]);
    assert!(out.is_empty());
    push_uuid_list_ad(&mut out, &[WIDE.to_string()]);
    assert_eq!(out, [5, 0x05, 0x78, 0x56, 0x34, 0x12]);
}

#[test]
fn service_data_stand_behind_their_uuid() {
    let dict = DictProperty::Entries(vec![
        entry(text(HEART_RATE), Some(&[1, 2])),
        entry(text("junk"), Some(&[3])),
        entry(text(BATTERY), None),
        entry(DictKey::Number(7), Some(&[4])),
        entry(DictKey::Other, Some(&[5])),
        entry(text(WIDE), Some(&[])),
        entry(text(UART), Some(&[6])),
    ]);
    let mut out = vec![0xee];
    push_service_data_ad(&mut out, &dict);
    let mut expected = vec![0xee, 5, 0x16, 0x0d, 0x18, 1, 2];
    expected.extend_from_slice(&[5, 0x20, 0x78, 0x56, 0x34, 0x12]);
    expected.extend_from_slice(&[18, 0x21]);
    expected.extend_from_slice(&UART_WIRE);
    expected.push(6);
    assert_eq!(out, expected);
}

#[test]
fn manufacturer_data_stand_behind_the_company() {
    let dict = DictProperty::Entries(vec![
        entry(DictKey::Number(0x004c), Some(&[0x10, 0x05])),
        entry(text(HEART_RATE), Some(&[9])),
        entry(DictKey::Number(0x1234), None),
        entry(DictKey::Number(0xfffe), Some(&[])),
    ]);
    let mut out = Vec::new();
    push_manufacturer_data_ad(&mut out, &dict);
    assert_eq!(out, [5, 0xff, 0x4c, 0x00, 0x10, 0x05, 3, 0xff, 0xfe, 0xff]);
}

#[test]
fn without_a_dictionary_there_are_no_data() {
    let mut out = Vec::new();
    for dict in [DictProperty::Absent, DictProperty::NotADict, DictProperty::Entries(vec![])] {
        push_service_data_ad(&mut out, &dict);
        push_manufacturer_data_ad(&mut out, &dict);
    }
    assert!(out.is_empty());
}

#[test]
fn the_transmit_power_has_to_fit_one_byte() {
    for (power, expected) in [
        (0, vec![2, 0x0a, 0]),
        (4, vec![2, 0x0a, 4]),
        (127, vec![2, 0x0a, 127]),
        (128, vec![]),
        (-1, vec![2, 0x0a, 0xff]),
        (-128, vec![2, 0x0a, 0x80]),
        (-129, vec![]),
        (i16::MAX, vec![]),
        (i16::MIN, vec![]),
    ] {
        let device = DeviceProperties { tx_power: Some(power), ..nothing() };
        assert_eq!(encode_advertisement(&device), expected);
    }
}

#[test]
fn a_device_without_properties_advertises_nothing() {
    assert!(encode_advertisement(&nothing()).is_empty());
    assert!(build_raw_advertisement_data(&HashMap::new()).is_empty());
}

#[test]
fn the_parts_come_in_order_and_read_back() {
    let device = DeviceProperties {
        name: Some("Ünit".to_string()),
        uuids: Some(vec![BATTERY.to_string()]),
        service_data: DictProperty::Entries(vec![entry(text(HEART_RATE), Some(&[1]))]),
        manufacturer_data: DictProperty::Entries(vec![entry(DictKey::Number(2), Some(&[3]))]),
        tx_power: Some(-4),
        ..nothing()
    };
    assert_eq!(
        structures(&encode_advertisement(&device)),
        Some(vec![
            (0x09, "Ünit".as_bytes().to_vec()),
            (0x03, vec![0x0f, 0x18]),
            (0x16, vec![0x0d, 0x18, 1]),
            (0xff, vec![2, 0, 3]),
            (0x0a, vec![0xfc]),
        ])
    );
}

#[test]
fn an_empty_name_is_a_name() {
    let device = DeviceProperties { name: Some(String::new()), ..nothing() };
    assert_eq!(encode_advertisement(&device), [1, 0x09]);
}

fn bluez_device() -> HashMap<String, OwnedValue> {
    let mut service: HashMap<String, Value<'_>> = HashMap::new();
    service.insert(BATTERY.to_string(), Value::new(vec![0x64u8]));
    service.insert(HEART_RATE.to_string(), Value::new(vec![1u8, 2]));
    service.insert(UART.to_string(), Value::new("no bytes"));
    let mut manufacturer: HashMap<u16, Value<'_>> = HashMap::new();
    manufacturer.insert(0x0059, Value::new(vec![9u8]));
    manufacturer.insert(0x004c, Value::new(vec![0x10u8, 5]));
    manufacturer.insert(0x0001, Value::new(7u32));
    let mut props = HashMap::new();
    props.insert("Name".to_string(), owned(Value::new("Band")));
    props.insert("UUIDs".to_string(), owned(Value::new(vec![HEART_RATE, WIDE])));
    props.insert("ServiceData".to_string(), owned(Value::from(service)));
    props.insert("ManufacturerData".to_string(), owned(Value::from(manufacturer)));
    props.insert("TxPower".to_string(), owned(Value::new(-8i16)));
    props.insert("Paired".to_string(), owned(Value::new(true)));
    props
}

#[test]
fn reads_the_properties_that_bluez_gives() {
    assert_eq!(
        structures(&build_raw_advertisement_data(&bluez_device())),
        Some(vec![
            (0x09, b"Band".to_vec()),
            (0x03, vec![0x0d, 0x18]),
            (0x05, vec![0x78, 0x56, 0x34, 0x12]),
            (0x16, vec![0x0d, 0x18, 1, 2]),
            (0x16, vec![0x0f, 0x18, 0x64]),
            (0xff, vec![0x4c, 0x00, 0x10, 5]),
            (0xff, vec![0x59, 0x00, 9]),
            (0x0a, vec![0xf8]),
        ])
    );
}

#[test]
fn reads_values_inside_variants() {
    let mut props = HashMap::new();
    props.insert("Name".to_string(), owned(Value::new(Value::new("Band"))));
    props.insert("TxPower".to_string(), owned(Value::new(Value::new(3i16))));
    let uuids = vec![Value::new(HEART_RATE), Value::new(BATTERY)];
    props.insert("UUIDs".to_string(), owned(Value::new(uuids)));
    assert_eq!(
        structures(&build_raw_advertisement_data(&props)),
        Some(vec![
            (0x09, b"Band".to_vec()),
            (0x03, vec![0x0d, 0x18, 0x0f, 0x18]),
            (0x0a, vec![3]),
        ])
    );
}

#[test]
fn values_nested_too_deep_do_not_count() {
    let mut props = HashMap::new();
    props.insert("Name".to_string(), owned(Value::new(Value::new(Value::new("Band")))));
    props.insert("UUIDs".to_string(), owned(Value::new(Value::new(vec![HEART_RATE]))));
    let dict: HashMap<u16, Vec<u8>> = HashMap::from([(1, vec![2])]);
    props.insert("ManufacturerData".to_string(), owned(Value::new(Value::from(dict))));
    assert!(build_raw_advertisement_data(&props).is_empty());
}

#[test]
fn properties_of_another_type_do_not_count() {
    let mut props = HashMap::new();
    props.insert("Name".to_string(), owned(Value::new(7u32)));
    props.insert("UUIDs".to_string(), owned(Value::new(vec![1u8, 2])));
    props.insert("ServiceData".to_string(), owned(Value::new("dict")));
    props.insert("ManufacturerData".to_string(), owned(Value::new(1i16)));
    props.insert("TxPower".to_string(), owned(Value::new(4i32)));
    assert!(build_raw_advertisement_data(&props).is_empty());
}

#[test]
fn dictionaries_with_other_keys_do_not_count() {
    let service: HashMap<u16, Vec<u8>> = HashMap::from([(0x180d, vec![1])]);
    let manufacturer: HashMap<String, Vec<u8>> = HashMap::from([(HEART_RATE.to_string(), vec![2])]);
    let mut props = HashMap::new();
    props.insert("ServiceData".to_string(), owned(Value::from(service)));
    props.insert("ManufacturerData".to_string(), owned(Value::from(manufacturer)));
    assert!(build_raw_advertisement_data(&props).is_empty());
    let numbers: HashMap<u32, Vec<u8>> = HashMap::from([(3, vec![4])]);
    props.insert("ManufacturerData".to_string(), owned(Value::from(numbers)));
    assert!(build_raw_advertisement_data(&props).is_empty());
}

#[test]
fn reads_every_property_once() {
    let device = DeviceProperties::read(&bluez_device());
    assert_eq!(device.address, None);
    assert_eq!(device.address_type, None);
    assert_eq!(device.rssi, None);
    assert_eq!(device.name.as_deref(), Some("Band"));
    assert_eq!(device.uuids, Some(vec![HEART_RATE.to_string(), WIDE.to_string()]));
    assert_eq!(device.tx_power, Some(-8));
    let DictProperty::Entries(service) = device.service_data else {
        panic!("the service data are a dictionary");
    };
    assert_eq!(service.len(), 3);
    assert!(service.iter().any(|entry| entry.data.is_none()));
    let DictProperty::Entries(manufacturer) = device.manufacturer_data else {
        panic!("the manufacturer data are a dictionary");
    };
    assert!(matches!(manufacturer[0].key, DictKey::Number(1)));
    assert_eq!(manufacturer[1].data, Some(vec![0x10, 5]));
}
