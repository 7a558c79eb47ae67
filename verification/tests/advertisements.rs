use linux_bt_proxy::ble::{
    advertise, build_advertisement, extract_service_data, BluetoothServiceData,
};
use linux_bt_proxy::properties::{DeviceProperties, DictEntry, DictKey, DictProperty};
use std::collections::HashMap;
use zbus::zvariant::{OwnedValue, Value};

const HEART_RATE: &str = "0000180d-0000-1000-8000-00805f9b34fb";

fn owned(value: Value<'_>) -> OwnedValue {
    OwnedValue::try_from(value).unwrap()
}

fn pairs(list: &[BluetoothServiceData]) -> Vec<(&str, &[u8])> {
    list.iter().map(|item| (item.uuid.as_str(), item.data.as_slice())).collect()
}

fn device(address: Option<&str>) -> DeviceProperties {
    DeviceProperties {
        address: address.map(|address| address.to_string()),
        address_type: None,
        rssi: None,
        name: None,
        uuids: None,
        service_data: DictProperty::Absent,
        manufacturer_data: DictProperty::Absent,
        tx_power: None,
    }
}

fn mixed_entries() -> DictProperty {
    DictProperty::Entries(vec![
        DictEntry { key: DictKey::Text("junk".to_string()), data: Some(vec![1]) },
        DictEntry { key: DictKey::Number(0x4c), data: Some(vec![2, 3]) },
        DictEntry { key: DictKey::Text(HEART_RATE.to_string()), data: None },
        DictEntry { key: DictKey::Number(0xABCD), data: Some(vec![]) },
        DictEntry { key: DictKey::Number(7), data: None },
        DictEntry { key: DictKey::Other, data: Some(vec![4]) },
        DictEntry { key: DictKey::Text(HEART_RATE.to_string()), data: Some(vec![5]) },
    ])
}

#[test]
fn lists_service_data_by_uuid() {
    let list = extract_service_data(&mixed_entries(), true).unwrap();
    assert_eq!(pairs(&list), [("junk", &[1][..]), (HEART_RATE, &[5][..])]);
}

#[test]
fn lists_manufacturer_data_by_company_in_hex() {
    let list = extract_service_data(&mixed_entries(), false).unwrap();
    assert_eq!(pairs(&list), [("004c", &[2, 3][..]), ("abcd", &[][..])]);
}

#[test]
fn company_identifiers_read_back_as_hex() {
    for company in [0u16, 1, 9, 10, 255, 256, 4095, 4096, 0x9999, 0xfffe, 0xffff] {
        let dict = DictProperty::Entries(vec![DictEntry {
            key: DictKey::Number(company),
            data: Some(vec![]),
        }]);
        let list = extract_service_data(&dict, false).unwrap();
        assert_eq!(list[0].uuid, format!("{company:04x}"));
        assert_eq!(u16::from_str_radix(&list[0].uuid, 16), Ok(company));
    }
}

#[test]
fn a_missing_property_has_no_entries() {
    assert!(extract_service_data(&DictProperty::Absent, true).unwrap().is_empty());
    assert!(extract_service_data(&DictProperty::Absent, false).unwrap().is_empty());
}

#[test]
fn refuses_what_is_no_dictionary() {
    assert!(extract_service_data(&DictProperty::NotADict, true).is_err());
    assert!(extract_service_data(&DictProperty::NotADict, false).is_err());
}

#[test]
fn a_device_without_address_has_no_advertisement() {
    assert!(advertise(&device(None)).is_none());
    assert!(build_advertisement(&HashMap::new()).is_none());
    let number = HashMap::from([("Address".to_string(), owned(Value::new(1i16)))]);
    assert!(build_advertisement(&number).is_none());
}

#[test]
fn an_address_is_enough() {
    let made = advertise(&device(Some("AA:BB:CC:DD:EE:01"))).unwrap();
    assert_eq!(made.legacy.address, 0xaabbccddee01);
    assert_eq!(made.legacy.address_type, 0);
    assert_eq!(made.legacy.rssi, -127);
    assert!(made.legacy.name.is_empty());
    assert!(made.legacy.service_uuids.is_empty());
    assert!(made.legacy.service_data.is_empty());
    assert!(made.legacy.manufacturer_data.is_empty());
    assert_eq!(made.raw.address, 0xaabbccddee01);
    assert_eq!(made.raw.address_type, 0);
    assert_eq!(made.raw.rssi, -127);
    assert!(made.raw.data.is_empty());
}

#[test]
fn address_types_are_numbers() {
    for (address_type, number) in [("random", 1), ("public", 0), ("Random", 0), ("random ", 0), ("", 0)] {
        let mut device = device(Some("1:2:3:4:5:6"));
        device.address_type = Some(address_type.to_string());
        let made = advertise(&device).unwrap();
        assert_eq!(made.legacy.address_type, number);
        assert_eq!(made.raw.address_type, number);
    }
}

#[test]
fn properties_that_are_no_dictionary_leave_the_lists_empty() {
    let mut device = device(Some("1:2:3:4:5:6"));
    device.service_data = DictProperty::NotADict;
    device.manufacturer_data = DictProperty::NotADict;
    let made = advertise(&device).unwrap();
    assert!(made.legacy.service_data.is_empty());
    assert!(made.legacy.manufacturer_data.is_empty());
}

#[test]
fn makes_both_forms_of_what_bluez_gives() {
    let mut service: HashMap<String, Value<'_>> = HashMap::new();
    service.insert(HEART_RATE.to_string(), Value::new(vec![1u8, 2]));
    service.insert("junk".to_string(), Value::new(vec![3u8]));
    let mut manufacturer: HashMap<u16, Value<'_>> = HashMap::new();
    manufacturer.insert(0x004c, Value::new(vec![0x10u8]));
    let mut props = HashMap::new();
    props.insert("Address".to_string(), owned(Value::new("C0:FF:EE:00:00:0F")));
    props.insert("AddressType".to_string(), owned(Value::new("random")));
    props.insert("RSSI".to_string(), owned(Value::new(-61i16)));
    props.insert("Name".to_string(), owned(Value::new("é")));
    props.insert("UUIDs".to_string(), owned(Value::new(vec![HEART_RATE, "junk"])));
    props.insert("ServiceData".to_string(), owned(Value::from(service)));
    props.insert("ManufacturerData".to_string(), owned(Value::from(manufacturer)));
    let made = build_advertisement(&props).unwrap();
    assert_eq!(made.legacy.address, 0xc0ffee00000f);
    assert_eq!(made.legacy.address_type, 1);
    assert_eq!(made.legacy.rssi, -61);
    assert_eq!(made.legacy.name, [0xc3, 0xa9]);
    assert_eq!(made.legacy.service_uuids, [HEART_RATE, "junk"]);
    assert_eq!(
        pairs(&made.legacy.service_data),
        [(HEART_RATE, &[1, 2][..]), ("junk", &[3][..])]
    );
    assert_eq!(pairs(&made.legacy.manufacturer_data), [("004c", &[0x10][..])]);
    assert_eq!(made.raw.address, made.legacy.address);
    assert_eq!(made.raw.address_type, made.legacy.address_type);
    assert_eq!(made.raw.rssi, made.legacy.rssi);
    assert_eq!(
        made.raw.data,
        [
            3, 0x09, 0xc3, 0xa9, 3, 0x03, 0x0d, 0x18, 5, 0x16, 0x0d, 0x18, 1, 2, 4, 0xff, 0x4c, 0,
            0x10
        ]
    );
}

#[test]
fn both_forms_carry_the_same_manufacturer_data() {
    let mut device = device(Some("1:2:3:4:5:6"));
    device.manufacturer_data = mixed_entries();
    let made = advertise(&device).unwrap();
    assert_eq!(
        pairs(&made.legacy.manufacturer_data),
        [("004c", &[2, 3][..]), ("abcd", &[][..])]
    );
    assert_eq!(made.raw.data, [5, 0xff, 0x4c, 0, 2, 3, 3, 0xff, 0xcd, 0xab]);
}

#[test]
fn both_forms_carry_the_same_service_data() {
    let mut device = device(Some("1:2:3:4:5:6"));
    device.service_data = mixed_entries();
    let made = advertise(&device).unwrap();
    assert_eq!(pairs(&made.legacy.service_data), [("junk", &[1][..]), (HEART_RATE, &[5][..])]);
    assert_eq!(made.raw.data, [4, 0x16, 0x0d, 0x18, 5]);
}
