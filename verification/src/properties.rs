//! The properties of a BlueZ device that an advertisement is made of.
use crate::variant;
use crate::variant::Variant;
use std::collections::HashMap;
use vstd::prelude::*;
use zbus::zvariant::OwnedValue;

verus! {

/// The key of a dictionary entry, as far as advertisements use it.
pub enum DictKey {
    /// A string: a service UUID.
    Text(String),
    /// An unsigned 16-bit number: a company identifier.
    Number(u16),
    /// A key of another type.
    Other,
}

/// One entry of a dictionary property. `data` is `None` where the value is not
/// an array of bytes.
pub struct DictEntry {
    pub key: DictKey,
    pub data: Option<Vec<u8>>,
}

/// A property that should hold a dictionary.
pub enum DictProperty {
    /// The device does not have the property.
    Absent,
    /// The property holds something else.
    NotADict,
    /// The entries, in the order of the dictionary.
    Entries(Vec<DictEntry>),
}

/// What a `DictKey` stands for.
pub enum KeyModel {
    Text(Seq<char>),
    Number(u16),
    Other,
}

/// What a `DictEntry` stands for.
pub struct EntryModel {
    pub key: KeyModel,
    pub data: Option<Seq<u8>>,
}

/// What a `DictProperty` stands for.
pub enum DictModel {
    Absent,
    NotADict,
    Entries(Seq<EntryModel>),
}

impl View for DictKey {
    type V = KeyModel;

    open spec fn view(&self) -> KeyModel {
        match self {
            DictKey::Text(text) => KeyModel::Text(text@),
            DictKey::Number(number) => KeyModel::Number(*number),
            DictKey::Other => KeyModel::Other,
        }
    }
}

impl View for DictEntry {
    type V = EntryModel;

    open spec fn view(&self) -> EntryModel {
        EntryModel {
            key: self.key@,
            data: match self.data {
                Some(data) => Some(data@),
                None => None,
            },
        }
    }
}

impl View for DictProperty {
    type V = DictModel;

    open spec fn view(&self) -> DictModel {
        match self {
            DictProperty::Absent => DictModel::Absent,
            DictProperty::NotADict => DictModel::NotADict,
            DictProperty::Entries(entries) => DictModel::Entries(
                entries@.map_values(|entry: DictEntry| entry@),
            ),
        }
    }
}

impl DictModel {
    /// The entries, or none where there is no dictionary.
    pub open spec fn entries(self) -> Seq<EntryModel> {
        match self {
            DictModel::Entries(entries) => entries,
            _ => Seq::empty(),
        }
    }
}

/// The properties of a device, each `None` where the device does not have it or
/// where it holds a value of another type.
pub struct DeviceProperties {
    pub address: Option<String>,
    pub address_type: Option<String>,
    pub rssi: Option<i16>,
    pub name: Option<String>,
    pub uuids: Option<Vec<String>>,
    pub service_data: DictProperty,
    pub manufacturer_data: DictProperty,
    pub tx_power: Option<i16>,
}

/// What `DeviceProperties` stand for.
pub struct DeviceModel {
    pub address: Option<Seq<char>>,
    pub address_type: Option<Seq<char>>,
    pub rssi: Option<i16>,
    pub name: Option<Seq<char>>,
    pub uuids: Option<Seq<Seq<char>>>,
    pub service_data: DictModel,
    pub manufacturer_data: DictModel,
    pub tx_power: Option<i16>,
}

/// The characters of a text that may be missing.
pub open spec fn optional_text(text: Option<String>) -> Option<Seq<char>> {
    match text {
        Some(text) => Some(text@),
        None => None,
    }
}

/// The characters of each text.
pub open spec fn texts(list: Seq<String>) -> Seq<Seq<char>> {
    list.map_values(|text: String| text@)
}

impl View for DeviceProperties {
    type V = DeviceModel;

    open spec fn view(&self) -> DeviceModel {
        DeviceModel {
            address: optional_text(self.address),
            address_type: optional_text(self.address_type),
            rssi: self.rssi,
            name: optional_text(self.name),
            uuids: match self.uuids {
                Some(uuids) => Some(texts(uuids@)),
                None => None,
            },
            service_data: self.service_data@,
            manufacturer_data: self.manufacturer_data@,
            tx_power: self.tx_power,
        }
    }
}

/// What a property holds, where the device has it.
pub open spec fn property(props: Map<String, OwnedValue>, name: Seq<char>) -> Option<Variant> {
    match variant::entry(props, name) {
        Some(value) => Some(variant::owned_content(value)),
        None => None,
    }
}

/// The string that a property holds.
pub open spec fn text_property(props: Map<String, OwnedValue>, name: Seq<char>) -> Option<
    Seq<char>,
> {
    match property(props, name) {
        Some(value) => value.text(),
        None => None,
    }
}

/// The signed 16-bit integer that a property holds.
pub open spec fn int16_property(props: Map<String, OwnedValue>, name: Seq<char>) -> Option<i16> {
    match property(props, name) {
        Some(value) => value.int16(),
        None => None,
    }
}

/// The strings that a property holds.
pub open spec fn texts_property(props: Map<String, OwnedValue>, name: Seq<char>) -> Option<
    Seq<Seq<char>>,
> {
    match property(props, name) {
        Some(value) => value.texts(),
        None => None,
    }
}

/// One entry of a dictionary: its key as a string or else as a 16-bit number,
/// its value as bytes.
pub open spec fn dict_entry(item: (Variant, Variant)) -> EntryModel {
    EntryModel {
        key: match (item.0.text(), item.0.uint16()) {
            (Some(text), _) => KeyModel::Text(text),
            (None, Some(number)) => KeyModel::Number(number),
            (None, None) => KeyModel::Other,
        },
        data: item.1.bytes(),
    }
}

/// The dictionary that a property holds.
pub open spec fn dict_property(value: Option<Variant>) -> DictModel {
    match value {
        Some(value) => match value.items() {
            Some(items) => DictModel::Entries(
                items.map_values(|item: (Variant, Variant)| dict_entry(item)),
            ),
            None => DictModel::NotADict,
        },
        None => DictModel::Absent,
    }
}

/// The properties of a device, out of all that BlueZ knows of it.
pub open spec fn device(props: Map<String, OwnedValue>) -> DeviceModel {
    DeviceModel {
        address: text_property(props, "Address"@),
        address_type: text_property(props, "AddressType"@),
        rssi: int16_property(props, "RSSI"@),
        name: text_property(props, "Name"@),
        uuids: texts_property(props, "UUIDs"@),
        service_data: dict_property(property(props, "ServiceData"@)),
        manufacturer_data: dict_property(property(props, "ManufacturerData"@)),
        tx_power: int16_property(props, "TxPower"@),
    }
}

/// Reads the string that a property holds.
fn read_text(props: &HashMap<String, OwnedValue>, name: &str) -> (text: Option<String>)
    ensures
        optional_text(text) == text_property(props@, name@),
{
    match variant::find(props, name) {
        Some(value) => variant::text(variant::borrowed(value)),
        None => None,
    }
}

/// Reads the signed 16-bit integer that a property holds.
fn read_int16(props: &HashMap<String, OwnedValue>, name: &str) -> (number: Option<i16>)
    ensures
        number == int16_property(props@, name@),
{
    match variant::find(props, name) {
        Some(value) => variant::int16(variant::borrowed(value)),
        None => None,
    }
}

/// Reads the strings that a property holds.
fn read_texts(props: &HashMap<String, OwnedValue>, name: &str) -> (list: Option<Vec<String>>)
    ensures
        match list {
            Some(list) => texts_property(props@, name@) == Some(texts(list@)),
            None => texts_property(props@, name@) is None,
        },
{
    match variant::find(props, name) {
        Some(value) => variant::texts(variant::borrowed(value)),
        None => None,
    }
}

/// Reads the dictionary that a property holds.
fn read_dict(props: &HashMap<String, OwnedValue>, name: &str) -> (dict: DictProperty)
    ensures
        dict@ == dict_property(property(props@, name@)),
{
    let value = match variant::find(props, name) {
        Some(value) => variant::borrowed(value),
        None => {
            return DictProperty::Absent;
        },
    };
    let items = match variant::items(value) {
        Some(items) => items,
        None => {
            return DictProperty::NotADict;
        },
    };
    let ghost models = variant::content(*value).items()->0;
    let mut entries: Vec<DictEntry> = Vec::new();
    let mut i: usize = 0;
    while i < items.len()
        invariant
            models.len() == items@.len(),
            forall|k: int|
                0 <= k < items@.len() ==> #[trigger] models[k] == (
                    variant::content(*items@[k].0),
                    variant::content(*items@[k].1),
                ),
            i <= items@.len(),
            entries@.len() == i,
            forall|k: int| 0 <= k < i ==> (#[trigger] entries@[k])@ == dict_entry(models[k]),
        decreases items@.len() - i,
    {
        let (key, data) = items[i];
        assert(models[i as int] == (variant::content(*key), variant::content(*data)));
        let key = match variant::text(key) {
            Some(text) => DictKey::Text(text),
            None => match variant::uint16(key) {
                Some(number) => DictKey::Number(number),
                None => DictKey::Other,
            },
        };
        let data = variant::bytes(data);
        entries.push(DictEntry { key, data });
        i += 1;
    }
    assert(entries@.map_values(|entry: DictEntry| entry@) == models.map_values(
        |item: (Variant, Variant)| dict_entry(item),
    ));
    DictProperty::Entries(entries)
}

impl DeviceProperties {
    /// Picks the properties of a device out of all that BlueZ knows of it.
    pub fn read(props: &HashMap<String, OwnedValue>) -> (properties: Self)
        ensures
            properties@ == device(props@),
    {
        DeviceProperties {
            address: read_text(props, "Address"),
            address_type: read_text(props, "AddressType"),
            rssi: read_int16(props, "RSSI"),
            name: read_text(props, "Name"),
            uuids: read_texts(props, "UUIDs"),
            service_data: read_dict(props, "ServiceData"),
            manufacturer_data: read_dict(props, "ManufacturerData"),
            tx_power: read_int16(props, "TxPower"),
        }
    }
}

/// A key, an entry and a dictionary stand for what they hold: the characters, the
/// number, all bytes, all entries in order.
pub proof fn law_dict_models(key: DictKey, entry: DictEntry, dict: DictProperty)
    ensures
        key matches DictKey::Text(text) ==> key@ == KeyModel::Text(text@),
        key matches DictKey::Number(number) ==> key@ == KeyModel::Number(number),
        key is Other ==> key@ is Other,
        entry@.key == entry.key@,
        entry.data is None ==> entry@.data is None,
        entry.data matches Some(data) ==> entry@.data == Some(data@),
        dict is Absent ==> dict@ is Absent && dict@.entries().len() == 0,
        dict is NotADict ==> dict@ is NotADict && dict@.entries().len() == 0,
        dict matches DictProperty::Entries(entries) ==> {
            &&& dict@ == DictModel::Entries(dict@.entries())
            &&& dict@.entries().len() == entries@.len()
            &&& forall|i: int|
                0 <= i < entries@.len() ==> #[trigger] dict@.entries()[i] == entries@[i]@
        },
{
}

/// The characters of a list of texts are those of each text, in order.
pub proof fn law_texts(list: Seq<String>)
    ensures
        texts(list).len() == list.len(),
        forall|i: int| 0 <= i < list.len() ==> #[trigger] texts(list)[i] == list[i]@,
{
}

/// The properties of a device stand for what each of them holds.
pub proof fn law_device_model(device: DeviceProperties)
    ensures
        device.address is None ==> device@.address is None,
        device.address matches Some(text) ==> device@.address == Some(text@),
        device.address_type is None ==> device@.address_type is None,
        device.address_type matches Some(text) ==> device@.address_type == Some(text@),
        device@.rssi == device.rssi,
        device.name is None ==> device@.name is None,
        device.name matches Some(text) ==> device@.name == Some(text@),
        device.uuids is None ==> device@.uuids is None,
        device.uuids matches Some(list) ==> device@.uuids == Some(texts(list@)),
        device@.service_data == device.service_data@,
        device@.manufacturer_data == device.manufacturer_data@,
        device@.tx_power == device.tx_power,
{
}

/// A property holds what the value under its name holds, and nothing exactly
/// where there is no value under its name.
pub proof fn law_property_is_the_value(props: Map<String, OwnedValue>, name: Seq<char>)
    ensures
        variant::entry(props, name) is None ==> property(props, name) is None,
        variant::entry(props, name) matches Some(value) ==> property(props, name) == Some(
            variant::owned_content(value),
        ),
{
}

/// Each property of a device is read under its own name, whole, and whatever the
/// other properties are; it is missing exactly where there is no value under that
/// name or the value is not of the right type.
pub proof fn law_device_is_its_properties(props: Map<String, OwnedValue>)
    ensures
        device(props).address == (match property(props, "Address"@) {
            Some(value) => value.text(),
            None => None,
        }),
        device(props).address_type == (match property(props, "AddressType"@) {
            Some(value) => value.text(),
            None => None,
        }),
        device(props).rssi == (match property(props, "RSSI"@) {
            Some(value) => value.int16(),
            None => None,
        }),
        device(props).name == (match property(props, "Name"@) {
            Some(value) => value.text(),
            None => None,
        }),
        device(props).uuids == (match property(props, "UUIDs"@) {
            Some(value) => value.texts(),
            None => None,
        }),
        device(props).service_data == dict_property(property(props, "ServiceData"@)),
        device(props).manufacturer_data == dict_property(property(props, "ManufacturerData"@)),
        device(props).tx_power == (match property(props, "TxPower"@) {
            Some(value) => value.int16(),
            None => None,
        }),
{
}

/// A dictionary has one entry for each of its items, in order, with the string or
/// the 16-bit number that the key is and the bytes that the value is. What holds
/// no dictionary is told from a property that is missing.
pub proof fn law_dict_is_its_items(value: Variant, text: Seq<char>, number: u16, i: int)
    ensures
        dict_property(None) is Absent,
        value.items() is None ==> dict_property(Some(value)) is NotADict,
        value.items() matches Some(items) ==> {
            &&& dict_property(Some(value)) is Entries
            &&& dict_property(Some(value)).entries().len() == items.len()
            &&& 0 <= i < items.len() ==> {
                let entry = dict_property(Some(value)).entries()[i];
                &&& entry.key == KeyModel::Text(text) <==> items[i].0.text() == Some(text)
                &&& entry.key == KeyModel::Number(number) <==> items[i].0.uint16() == Some(number)
                &&& entry.data == items[i].1.bytes()
            }
        },
{
}

} // verus!
