//! Advertisements in the two forms that API clients ask for.
use crate::properties;
use crate::properties::{DeviceModel, DeviceProperties, DictKey, DictModel, DictProperty};
use crate::properties::{EntryModel, KeyModel};
use crate::raw_adv;
use crate::raw_adv::encode_advertisement;
use crate::text;
use crate::text::{characters, push_hex_quad, read_hex_byte, same_text, split_text};
use crate::utils;
use std::collections::HashMap;
use vstd::prelude::*;
use zbus::zvariant::OwnedValue;

verus! {

/// Data under a service UUID or a company identifier.
#[derive(Debug, Clone)]
pub struct BluetoothServiceData {
    pub uuid: String,
    pub data: Vec<u8>,
}

/// An advertisement with its parts told apart.
#[derive(Debug, Clone)]
pub struct BluetoothLEAdvertisementResponse {
    pub address: u64,
    pub address_type: u32,
    pub name: Vec<u8>,
    pub rssi: i32,
    pub service_uuids: Vec<String>,
    pub service_data: Vec<BluetoothServiceData>,
    pub manufacturer_data: Vec<BluetoothServiceData>,
}

/// An advertisement in the form that goes over the air.
#[derive(Debug, Clone)]
pub struct BluetoothLERawAdvertisement {
    pub address: u64,
    pub address_type: u32,
    pub rssi: i32,
    pub data: Vec<u8>,
}

/// One advertisement in both forms.
#[derive(Debug, Clone)]
pub struct BleAdvertisement {
    pub legacy: BluetoothLEAdvertisementResponse,
    pub raw: BluetoothLERawAdvertisement,
}

/// A property that should hold a dictionary holds something else.
#[derive(Debug, Clone, Copy)]
pub struct NotADictionary;

/// What a `BluetoothServiceData` stands for.
pub struct ServiceDataModel {
    pub uuid: Seq<char>,
    pub data: Seq<u8>,
}

/// What a `BluetoothLEAdvertisementResponse` stands for.
pub struct LegacyModel {
    pub address: u64,
    pub address_type: u32,
    pub name: Seq<u8>,
    pub rssi: i32,
    pub service_uuids: Seq<Seq<char>>,
    pub service_data: Seq<ServiceDataModel>,
    pub manufacturer_data: Seq<ServiceDataModel>,
}

/// What a `BluetoothLERawAdvertisement` stands for.
pub struct RawModel {
    pub address: u64,
    pub address_type: u32,
    pub rssi: i32,
    pub data: Seq<u8>,
}

/// What a `BleAdvertisement` stands for.
pub struct AdvertisementModel {
    pub legacy: LegacyModel,
    pub raw: RawModel,
}

impl View for BluetoothServiceData {
    type V = ServiceDataModel;

    open spec fn view(&self) -> ServiceDataModel {
        ServiceDataModel { uuid: self.uuid@, data: self.data@ }
    }
}

/// What each of `list` stands for.
pub open spec fn service_data_models(list: Seq<BluetoothServiceData>) -> Seq<ServiceDataModel> {
    list.map_values(|data: BluetoothServiceData| data@)
}

impl View for BluetoothLEAdvertisementResponse {
    type V = LegacyModel;

    open spec fn view(&self) -> LegacyModel {
        LegacyModel {
            address: self.address,
            address_type: self.address_type,
            name: self.name@,
            rssi: self.rssi,
            service_uuids: properties::texts(self.service_uuids@),
            service_data: service_data_models(self.service_data@),
            manufacturer_data: service_data_models(self.manufacturer_data@),
        }
    }
}

impl View for BluetoothLERawAdvertisement {
    type V = RawModel;

    open spec fn view(&self) -> RawModel {
        RawModel {
            address: self.address,
            address_type: self.address_type,
            rssi: self.rssi,
            data: self.data@,
        }
    }
}

impl View for BleAdvertisement {
    type V = AdvertisementModel;

    open spec fn view(&self) -> AdvertisementModel {
        AdvertisementModel { legacy: self.legacy@, raw: self.raw@ }
    }
}

/// The number that `bytes` write, the most significant first.
pub open spec fn big_endian(bytes: Seq<u8>) -> nat
    decreases bytes.len(),
{
    if bytes.len() == 0 {
        0
    } else {
        big_endian(bytes.drop_last()) * 0x100 + bytes.last() as nat
    }
}

/// The byte that each part writes in hexadecimal, or zero.
pub open spec fn address_bytes(parts: Seq<Seq<char>>) -> Seq<u8> {
    parts.map_values(
        |part: Seq<char>|
            match text::hex_byte(part) {
                Some(byte) => byte,
                None => 0u8,
            },
    )
}

/// The number that the parts of `address` between colons write, the most
/// significant first, as far as it fits 64 bits.
pub open spec fn ble_address(address: Seq<char>) -> u64 {
    (big_endian(address_bytes(text::split(address, ':'))) % 0x1_0000_0000_0000_0000) as u64
}

/// One more byte behind a number of which 64 bits are kept.
proof fn lemma_next_byte(number: nat, byte: u8)
    ensures
        (number % 0x1_0000_0000_0000_0000 % 0x100_0000_0000_0000) * 0x100 + byte == (number * 0x100
            + byte) % 0x1_0000_0000_0000_0000,
{
    let high = number / 0x100_0000_0000_0000;
    let low = number % 0x100_0000_0000_0000;
    assert(number == high * 0x100_0000_0000_0000 + low);
    assert(number % 0x1_0000_0000_0000_0000 % 0x100_0000_0000_0000 == low);
    assert(number * 0x100 + byte == high * 0x1_0000_0000_0000_0000 + (low * 0x100 + byte));
}

/// Reads a device address, as BlueZ writes it, as a number.
pub fn parse_ble_address(address: &str) -> (number: u64)
    ensures
        number == ble_address(address@),
{
    let parts = split_text(address, ':');
    let ghost texts = text::split(address@, ':');
    let ghost bytes = address_bytes(texts);
    let mut number: u64 = 0;
    let mut i: usize = 0;
    while i < parts.len()
        invariant
            texts == text::split(address@, ':'),
            texts == parts@.map_values(|part: &str| part@),
            bytes == address_bytes(texts),
            i <= parts@.len(),
            number == big_endian(bytes.take(i as int)) % 0x1_0000_0000_0000_0000,
        decreases parts@.len() - i,
    {
        let chars = characters(parts[i]);
        assert(texts[i as int] == parts@[i as int]@);
        assert(chars@.subrange(0, chars@.len() as int) == chars@);
        assert(bytes.take(i + 1).drop_last() == bytes.take(i as int));
        let byte: u8 = match read_hex_byte(&chars, 0, chars.len()) {
            Some(byte) => byte,
            None => 0,
        };
        assert(byte == bytes[i as int]);
        proof {
            lemma_next_byte(big_endian(bytes.take(i as int)), byte);
        }
        number = (number % 0x100_0000_0000_0000) * 0x100 + byte as u64;
        i += 1;
    }
    assert(bytes.take(parts@.len() as int) == bytes);
    number
}

/// One entry as data under a service UUID, or under a company identifier in
/// four hexadecimal digits.
pub open spec fn listed(entry: EntryModel, is_service: bool) -> Option<ServiceDataModel> {
    match (entry.key, entry.data) {
        (KeyModel::Text(uuid), Some(data)) if is_service => Some(ServiceDataModel { uuid, data }),
        (KeyModel::Number(company), Some(data)) if !is_service => Some(
            ServiceDataModel { uuid: text::hex_quad(company), data },
        ),
        _ => None,
    }
}

/// The entries that can be listed, in order.
pub open spec fn listed_entries(entries: Seq<EntryModel>, is_service: bool) -> Seq<
    ServiceDataModel,
>
    decreases entries.len(),
{
    if entries.len() == 0 {
        Seq::empty()
    } else {
        let before = listed_entries(entries.drop_last(), is_service);
        match listed(entries.last(), is_service) {
            Some(data) => before.push(data),
            None => before,
        }
    }
}

/// Lists the entries of a dictionary that have a key of the right type and data.
/// A device without the property has no such data; one whose property holds no
/// dictionary is refused.
pub fn extract_service_data(value: &DictProperty, is_service: bool) -> (list: Result<
    Vec<BluetoothServiceData>,
    NotADictionary,
>)
    ensures
        list is Err <==> value@ is NotADict,
        list matches Ok(list) ==> service_data_models(list@) == listed_entries(
            value@.entries(),
            is_service,
        ),
{
    let ghost all = value@.entries();
    let entries = match value {
        DictProperty::Absent => {
            let list: Vec<BluetoothServiceData> = Vec::new();
            assert(service_data_models(list@) == listed_entries(all, is_service));
            return Ok(list);
        },
        DictProperty::NotADict => {
            return Err(NotADictionary);
        },
        DictProperty::Entries(entries) => entries,
    };
    let mut list: Vec<BluetoothServiceData> = Vec::new();
    let mut i: usize = 0;
    assert(service_data_models(list@) == listed_entries(all.take(0), is_service));
    while i < entries.len()
        invariant
            all == value@.entries(),
            *value == DictProperty::Entries(*entries),
            i <= entries@.len(),
            service_data_models(list@) == listed_entries(all.take(i as int), is_service),
        decreases entries@.len() - i,
    {
        let ghost before = service_data_models(list@);
        let entry = &entries[i];
        assert(all.take(i + 1).drop_last() == all.take(i as int));
        assert(all.take(i + 1).last() == entry@);
        if let Some(data) = &entry.data {
            let uuid = match &entry.key {
                DictKey::Text(uuid) if is_service => Some(uuid.clone()),
                DictKey::Number(company) if !is_service => {
                    let mut digits = String::new();
                    push_hex_quad(&mut digits, *company);
                    assert(digits@ == text::hex_quad(*company));
                    Some(digits)
                },
                _ => None,
            };
            if let Some(uuid) = uuid {
                let mut copy: Vec<u8> = Vec::new();
                copy.extend_from_slice(data.as_slice());
                assert(copy@ == data@);
                let item = BluetoothServiceData { uuid, data: copy };
                list.push(item);
                assert(service_data_models(list@) == before.push(item@));
            }
        }
        i += 1;
    }
    assert(all.take(entries@.len() as int) == all);
    Ok(list)
}

/// The address type of an advertisement: 1 for random, 0 for public and for
/// anything else.
pub open spec fn address_type_number(address_type: Option<Seq<char>>) -> u32 {
    if address_type == Some("random"@) {
        1
    } else {
        0
    }
}

/// The signal strength, or -127 where it is not known.
pub open spec fn rssi_number(rssi: Option<i16>) -> i32 {
    match rssi {
        Some(rssi) => rssi as i32,
        None => -127i32,
    }
}

/// The advertisement of a device with the address `address`.
pub open spec fn advertisement(address: Seq<char>, device: DeviceModel) -> AdvertisementModel {
    AdvertisementModel {
        legacy: LegacyModel {
            address: ble_address(address),
            address_type: address_type_number(device.address_type),
            name: match device.name {
                Some(name) => vstd::utf8::encode_utf8(name),
                None => Seq::empty(),
            },
            rssi: rssi_number(device.rssi),
            service_uuids: match device.uuids {
                Some(uuids) => uuids,
                None => Seq::empty(),
            },
            service_data: listed_entries(device.service_data.entries(), true),
            manufacturer_data: listed_entries(device.manufacturer_data.entries(), false),
        },
        raw: RawModel {
            address: ble_address(address),
            address_type: address_type_number(device.address_type),
            rssi: rssi_number(device.rssi),
            data: raw_adv::ad_stream(raw_adv::advertised(device)),
        },
    }
}

/// The advertisement of a device, which only a device with an address has.
pub open spec fn device_advertisement(device: DeviceModel) -> Option<AdvertisementModel> {
    match device.address {
        Some(address) => Some(advertisement(address, device)),
        None => None,
    }
}

/// The list, or an empty one for what holds no dictionary.
fn listed_or_empty(value: &DictProperty, is_service: bool) -> (list: Vec<BluetoothServiceData>)
    ensures
        service_data_models(list@) == listed_entries(value@.entries(), is_service),
{
    match extract_service_data(value, is_service) {
        Ok(list) => list,
        Err(_) => {
            let list: Vec<BluetoothServiceData> = Vec::new();
            assert(service_data_models(list@) == listed_entries(value@.entries(), is_service));
            list
        },
    }
}

/// Makes the advertisement of a device out of its properties.
pub fn advertise(device: &DeviceProperties) -> (made: Option<BleAdvertisement>)
    ensures
        match made {
            Some(made) => device_advertisement(device@) == Some(made@),
            None => device_advertisement(device@) is None,
        },
{
    let address_type: u32 = match &device.address_type {
        Some(kind) => if same_text(kind.as_str(), "random") {
            1
        } else {
            0
        },
        None => 0,
    };
    let rssi: i32 = match device.rssi {
        Some(rssi) => rssi as i32,
        None => -127,
    };
    let mut name: Vec<u8> = Vec::new();
    if let Some(text) = &device.name {
        name.extend_from_slice(text.as_str().as_bytes());
    }
    let mut service_uuids: Vec<String> = Vec::new();
    if let Some(uuids) = &device.uuids {
        let mut i: usize = 0;
        while i < uuids.len()
            invariant
                i <= uuids@.len(),
                service_uuids@ == uuids@.take(i as int),
            decreases uuids@.len() - i,
        {
            service_uuids.push(uuids[i].clone());
            i += 1;
        }
        assert(uuids@.take(uuids@.len() as int) == uuids@);
    }
    let service_data = listed_or_empty(&device.service_data, true);
    let manufacturer_data = listed_or_empty(&device.manufacturer_data, false);
    let address = match &device.address {
        Some(address) => parse_ble_address(address.as_str()),
        None => {
            return None;
        },
    };
    let data = encode_advertisement(device);
    let made = BleAdvertisement {
        legacy: BluetoothLEAdvertisementResponse {
            address,
            address_type,
            name,
            rssi,
            service_uuids,
            service_data,
            manufacturer_data,
        },
        raw: BluetoothLERawAdvertisement { address, address_type, rssi, data },
    };
    proof {
        let expected = advertisement(device@.address->0, device@);
        assert(made@.raw == expected.raw);
        assert(made@.legacy.name == expected.legacy.name);
        assert(made@.legacy.service_uuids == expected.legacy.service_uuids);
    }
    Some(made)
}

/// Makes the advertisement of a device out of all that BlueZ knows of it.
pub fn build_advertisement(props: &HashMap<String, OwnedValue>) -> (made: Option<BleAdvertisement>)
    ensures
        match made {
            Some(made) => device_advertisement(properties::device(props@)) == Some(made@),
            None => device_advertisement(properties::device(props@)) is None,
        },
{
    advertise(&DeviceProperties::read(props))
}

/// Six bytes make a number below two to the 48th.
proof fn lemma_big_endian_bound(bytes: Seq<u8>)
    requires
        bytes.len() <= 6,
    ensures
        bytes.len() == 0 ==> big_endian(bytes) < 0x1,
        bytes.len() == 1 ==> big_endian(bytes) < 0x100,
        bytes.len() == 2 ==> big_endian(bytes) < 0x1_0000,
        bytes.len() == 3 ==> big_endian(bytes) < 0x100_0000,
        bytes.len() == 4 ==> big_endian(bytes) < 0x1_0000_0000,
        bytes.len() == 5 ==> big_endian(bytes) < 0x100_0000_0000,
        bytes.len() == 6 ==> big_endian(bytes) < 0x1_0000_0000_0000,
    decreases bytes.len(),
{
    if bytes.len() > 0 {
        lemma_big_endian_bound(bytes.drop_last());
    }
}

/// Where every part writes a byte, those are the bytes of the number.
proof fn lemma_bytes_agree(parts: Seq<Seq<char>>)
    ensures
        utils::mac_bytes(parts) matches Ok(mac) ==> address_bytes(parts) == mac,
    decreases parts.len(),
{
    if parts.len() > 0 {
        lemma_bytes_agree(parts.drop_last());
        assert(address_bytes(parts).drop_last() == address_bytes(parts.drop_last()));
        assert(address_bytes(parts) == address_bytes(parts).drop_last().push(
            address_bytes(parts).last(),
        ));
    }
}

/// What reads as a MAC address is, as a device address, the number that its six
/// bytes write, all of it.
pub proof fn law_addresses_agree(address: Seq<char>)
    ensures
        utils::mac_address(address) matches Ok(mac) ==> {
            &&& ble_address(address) == big_endian(mac)
            &&& big_endian(mac) < 0x1_0000_0000_0000
        },
{
    if let Ok(mac) = utils::mac_address(address) {
        lemma_bytes_agree(text::split(address, ':'));
        utils::law_mac_has_six_bytes(address);
        lemma_big_endian_bound(mac);
    }
}

/// A MAC address that is written with colons is, as a device address, the number
/// that its bytes write.
pub proof fn law_written_address(mac: Seq<u8>)
    requires
        mac.len() == 6,
    ensures
        ble_address(text::join(utils::mac_pairs(mac), ":"@)) == big_endian(mac),
{
    utils::law_format_then_parse(mac);
    law_addresses_agree(text::join(utils::mac_pairs(mac), ":"@));
}

/// Both forms of an advertisement name the same device, the same kind of address
/// and the same signal strength. There is one exactly for a device with an
/// address.
pub proof fn law_forms_agree(device: DeviceModel)
    ensures
        device_advertisement(device) is Some <==> device.address is Some,
        device_advertisement(device) matches Some(made) ==> {
            &&& made.legacy.address == made.raw.address
            &&& made.legacy.address_type == made.raw.address_type
            &&& made.legacy.rssi == made.raw.rssi
        },
{
}

/// Both forms carry the same manufacturer data: entry by entry, in the same
/// order, the same company identifier, here in hexadecimal digits and there as
/// two bytes, and the same data.
pub proof fn law_manufacturer_data_agree(entries: Seq<EntryModel>)
    ensures
        listed_entries(entries, false).len() == raw_adv::manufacturer_data_ads(entries).len(),
        forall|i: int|
            #![trigger listed_entries(entries, false)[i]]
            #![trigger raw_adv::manufacturer_data_ads(entries)[i]]
            0 <= i < listed_entries(entries, false).len() ==> {
                let listed = listed_entries(entries, false)[i];
                let payload = raw_adv::manufacturer_data_ads(entries)[i].payload;
                &&& payload.len() == listed.data.len() + 2
                &&& payload.skip(2) == listed.data
                &&& text::hex_value(listed.uuid) == payload[0] + payload[1] * 0x100
            },
    decreases entries.len(),
{
    if entries.len() > 0 {
        let before = entries.drop_last();
        law_manufacturer_data_agree(before);
        let all = listed_entries(entries, false);
        let ads = raw_adv::manufacturer_data_ads(entries);
        assert forall|i: int|
            #![trigger all[i]]
            #![trigger ads[i]]
            0 <= i < all.len() implies {
            &&& ads[i].payload.len() == all[i].data.len() + 2
            &&& ads[i].payload.skip(2) == all[i].data
            &&& text::hex_value(all[i].uuid) == ads[i].payload[0] + ads[i].payload[1] * 0x100
        } by {
            if i < listed_entries(before, false).len() {
                assert(all[i] == listed_entries(before, false)[i]);
                assert(ads[i] == raw_adv::manufacturer_data_ads(before)[i]);
            } else {
                let entry = entries.last();
                let company = entry.key->Number_0;
                text::law_hex_quad_reads_back(company);
                assert(ads[i].payload.skip(2) == all[i].data);
            }
        }
    }
}

/// Listed service data as entries of a dictionary.
pub open spec fn relisted(list: Seq<ServiceDataModel>) -> Seq<EntryModel> {
    list.map_values(
        |data: ServiceDataModel|
            EntryModel { key: KeyModel::Text(data.uuid), data: Some(data.data) },
    )
}

/// Both forms carry the same service data: the AD structures are those of the
/// listed data, in the same order. The list also has the data under keys that are
/// no UUIDs, of which there is no AD structure.
pub proof fn law_service_data_agree(entries: Seq<EntryModel>)
    ensures
        raw_adv::service_data_ads(entries) == raw_adv::service_data_ads(
            relisted(listed_entries(entries, true)),
        ),
    decreases entries.len(),
{
    if entries.len() > 0 {
        let before = entries.drop_last();
        law_service_data_agree(before);
        let list = relisted(listed_entries(entries, true));
        let list_before = relisted(listed_entries(before, true));
        if listed(entries.last(), true) is Some {
            assert(list.drop_last() == list_before);
            assert(list.last() == entries.last());
        } else {
            assert(list == list_before);
        }
    } else {
        assert(relisted(listed_entries(entries, true)) == Seq::<EntryModel>::empty());
    }
}

/// A company identifier is listed in hexadecimal: four digits that are its
/// number to the base sixteen.
pub proof fn law_company_identifier_is_hex(company: u16, data: Seq<u8>)
    ensures
        listed(EntryModel { key: KeyModel::Number(company), data: Some(data) }, false) matches Some(
            listed,
        ) && {
            &&& listed.uuid.len() == 4
            &&& text::all_hex(listed.uuid)
            &&& text::hex_value(listed.uuid) == company
            &&& listed.data == data
        },
{
    text::law_hex_quad_reads_back(company);
}

/// The parts of an advertisement stand for what they hold: the numbers, all
/// bytes, all texts and all data in order.
pub proof fn law_advertisement_model(made: BleAdvertisement, data: BluetoothServiceData)
    ensures
        data@.uuid == data.uuid@,
        data@.data == data.data@,
        made@.legacy.address == made.legacy.address,
        made@.legacy.address_type == made.legacy.address_type,
        made@.legacy.name == made.legacy.name@,
        made@.legacy.rssi == made.legacy.rssi,
        made@.legacy.service_uuids == properties::texts(made.legacy.service_uuids@),
        made@.legacy.service_data == service_data_models(made.legacy.service_data@),
        made@.legacy.manufacturer_data == service_data_models(made.legacy.manufacturer_data@),
        made@.raw.address == made.raw.address,
        made@.raw.address_type == made.raw.address_type,
        made@.raw.rssi == made.raw.rssi,
        made@.raw.data == made.raw.data@,
{
}

/// A list of data stands for each of them, in order.
pub proof fn law_service_data_models(list: Seq<BluetoothServiceData>)
    ensures
        service_data_models(list).len() == list.len(),
        forall|i: int| 0 <= i < list.len() ==> #[trigger] service_data_models(list)[i] == list[i]@,
{
}

/// One part alone is the byte that it writes, or zero. Behind a colon, one part
/// more makes the address 256 times as large and adds its byte; 64 bits are kept.
pub proof fn law_address_part_by_part(address: Seq<char>, part: Seq<char>)
    requires
        !part.contains(':'),
    ensures
        ({
            let byte = match text::hex_byte(part) {
                Some(byte) => byte as int,
                None => 0,
            };
            &&& ble_address(part) == byte
            &&& ble_address(address + seq![':'] + part) == (ble_address(address) * 256 + byte)
                % 0x1_0000_0000_0000_0000
        }),
{
    let byte = match text::hex_byte(part) {
        Some(byte) => byte,
        None => 0u8,
    };
    reveal_with_fuel(big_endian, 2);
    text::lemma_split_one(part, ':');
    assert(address_bytes(seq![part]) == seq![byte]);
    assert(seq![byte].drop_last() == Seq::<u8>::empty());
    text::lemma_split_last(address, ':', part);
    let parts = text::split(address, ':');
    let bytes = address_bytes(parts);
    assert(address_bytes(parts.push(part)) == bytes.push(byte));
    assert(bytes.push(byte).drop_last() == bytes);
    lemma_kept_bits(big_endian(bytes), byte);
}

/// One more byte behind a number gives the same 64 bits, whether 64 bits or all
/// were kept before.
proof fn lemma_kept_bits(number: nat, byte: u8)
    ensures
        ((number % 0x1_0000_0000_0000_0000) * 256 + byte) % 0x1_0000_0000_0000_0000 == (number * 256
            + byte) % 0x1_0000_0000_0000_0000,
{
    lemma_next_byte(number, byte);
    lemma_next_byte(number % 0x1_0000_0000_0000_0000, byte);
}

/// An entry is listed exactly where its key is of the right type and its value is
/// bytes, however many: under the key as it is, or under the company identifier
/// in hexadecimal digits, with all of the bytes.
pub proof fn law_listed_of_each_entry(
    entry: EntryModel,
    uuid: Seq<char>,
    company: u16,
    data: Seq<u8>,
)
    ensures
        entry.key == KeyModel::Text(uuid) && entry.data == Some(data) ==> listed_entries(
            seq![entry],
            true,
        ) == seq![ServiceDataModel { uuid, data }],
        entry.key !is Text || entry.data is None ==> listed_entries(seq![entry], true).len() == 0,
        entry.key == KeyModel::Number(company) && entry.data == Some(data) ==> listed_entries(
            seq![entry],
            false,
        ) == seq![ServiceDataModel { uuid: text::hex_quad(company), data }],
        entry.key !is Number || entry.data is None ==> listed_entries(seq![entry], false).len()
            == 0,
{
    reveal_with_fuel(listed_entries, 2);
    assert(seq![entry].drop_last() == Seq::<EntryModel>::empty());
}

/// The list of a dictionary is that of its first entries, then that of the
/// others: no entry changes whether or how another one is listed.
pub proof fn law_listed_entry_by_entry(
    first: Seq<EntryModel>,
    second: Seq<EntryModel>,
    is_service: bool,
)
    ensures
        listed_entries(Seq::empty(), is_service).len() == 0,
        listed_entries(first + second, is_service) == listed_entries(first, is_service)
            + listed_entries(second, is_service),
    decreases second.len(),
{
    if second.len() == 0 {
        assert(first + second == first);
    } else {
        law_listed_entry_by_entry(first, second.drop_last(), is_service);
        assert((first + second).drop_last() == first + second.drop_last());
        assert((first + second).last() == second.last());
    }
}

/// Both forms give the signal strength of the device as it is, however weak or
/// strong, and -127 only where it is not known.
pub proof fn law_signal_strength_is_passed_on(device: DeviceModel)
    ensures
        device_advertisement(device) matches Some(made) ==> {
            &&& device.rssi matches Some(rssi) ==> made.legacy.rssi == rssi && made.raw.rssi == rssi
            &&& device.rssi is None ==> made.legacy.rssi == -127 && made.raw.rssi == -127
        },
{
}

/// Both forms say 1 for a random address and 0 for every other kind, and where
/// the kind is not known.
pub proof fn law_address_type_is_passed_on(device: DeviceModel)
    ensures
        device_advertisement(device) matches Some(made) ==> {
            let random = device.address_type matches Some(kind) && kind == "random"@;
            &&& random ==> made.legacy.address_type == 1 && made.raw.address_type == 1
            &&& !random ==> made.legacy.address_type == 0 && made.raw.address_type == 0
        },
{
}

/// Both forms give the address of the device as a number.
pub proof fn law_address_is_passed_on(device: DeviceModel)
    ensures
        device.address is None ==> device_advertisement(device) is None,
        device.address matches Some(address) ==> (device_advertisement(device) matches Some(made)
            && made.legacy.address == ble_address(address) && made.raw.address == ble_address(
            address,
        )),
{
}

/// The form with its parts told apart gives the whole name in UTF-8 and all
/// UUIDs, as they are and in order.
pub proof fn law_name_and_uuids_are_passed_on(device: DeviceModel)
    ensures
        device_advertisement(device) matches Some(made) ==> {
            &&& device.name is None ==> made.legacy.name.len() == 0
            &&& device.name matches Some(name) ==> made.legacy.name == vstd::utf8::encode_utf8(name)
            &&& device.uuids is None ==> made.legacy.service_uuids.len() == 0
            &&& device.uuids matches Some(uuids) ==> made.legacy.service_uuids == uuids
        },
{
}

/// The form with its parts told apart lists service data by UUID and manufacturer
/// data by company identifier, each out of its own property; what is no
/// dictionary has nothing to list.
pub proof fn law_data_are_passed_on(device: DeviceModel)
    ensures
        device_advertisement(device) matches Some(made) ==> {
            &&& device.service_data matches DictModel::Entries(entries)
                ==> made.legacy.service_data == listed_entries(entries, true)
            &&& device.service_data !is Entries ==> made.legacy.service_data.len() == 0
            &&& device.manufacturer_data matches DictModel::Entries(entries)
                ==> made.legacy.manufacturer_data == listed_entries(entries, false)
            &&& device.manufacturer_data !is Entries ==> made.legacy.manufacturer_data.len() == 0
        },
{
}

/// The form that goes over the air holds the AD structures of the device.
pub proof fn law_raw_data_are_the_ad_structures(device: DeviceModel)
    ensures
        device_advertisement(device) matches Some(made) ==> made.raw.data == raw_adv::ad_stream(
            raw_adv::advertised(device),
        ),
{
}

} // verus!
