//! Advertising data in the form that goes over the air.
use crate::properties;
use crate::properties::{DeviceModel, DeviceProperties, DictKey, DictModel, DictProperty};
use crate::properties::{EntryModel, KeyModel};
use crate::uuid;
use crate::uuid::{parse_uuid, push_uuid, ShortUuid, UuidModel};
use std::collections::HashMap;
use vstd::prelude::*;
use zbus::zvariant::OwnedValue;

verus! {

/// One AD structure of an advertisement.
pub struct AdStructure {
    pub ad_type: u8,
    pub payload: Seq<u8>,
}

impl AdStructure {
    /// The structure as bytes: one byte for the length of what follows, one for
    /// the type, then the payload. The length byte holds the length modulo 256.
    pub open spec fn bytes(self) -> Seq<u8> {
        seq![((self.payload.len() + 1) % 0x100) as u8, self.ad_type] + self.payload
    }
}

/// AD structures one behind the other.
pub open spec fn ad_stream(ads: Seq<AdStructure>) -> Seq<u8>
    decreases ads.len(),
{
    if ads.len() == 0 {
        Seq::empty()
    } else {
        ad_stream(ads.drop_last()) + ads.last().bytes()
    }
}

/// The bytes of those of the UUIDs whose lists are of AD type `list_type`, in
/// the order of `uuids`. What is no UUID is left out.
pub open spec fn uuid_run(uuids: Seq<Seq<char>>, list_type: u8) -> Seq<u8>
    decreases uuids.len(),
{
    if uuids.len() == 0 {
        Seq::empty()
    } else {
        let before = uuid_run(uuids.drop_last(), list_type);
        match uuid::uuid_of(uuids.last()) {
            Some(uuid) if uuid.list_type() == list_type => before + uuid.wire(),
            _ => before,
        }
    }
}

/// The list of the UUIDs of one width, where there are any.
pub open spec fn uuid_list_ad(uuids: Seq<Seq<char>>, list_type: u8) -> Seq<AdStructure> {
    let payload = uuid_run(uuids, list_type);
    if payload.len() == 0 {
        Seq::empty()
    } else {
        seq![AdStructure { ad_type: list_type, payload }]
    }
}

/// The lists of service UUIDs: 16-bit, then 32-bit, then 128-bit ones.
pub open spec fn uuid_list_ads(uuids: Seq<Seq<char>>) -> Seq<AdStructure> {
    uuid_list_ad(uuids, 0x03) + uuid_list_ad(uuids, 0x05) + uuid_list_ad(uuids, 0x07)
}

/// The service data of one entry: the UUID, then the data as they are.
pub open spec fn service_data_ad(entry: EntryModel) -> Option<AdStructure> {
    match (entry.key, entry.data) {
        (KeyModel::Text(text), Some(data)) => match uuid::uuid_of(text) {
            Some(uuid) => Some(
                AdStructure { ad_type: uuid.data_type(), payload: uuid.wire() + data },
            ),
            None => None,
        },
        _ => None,
    }
}

/// The manufacturer data of one entry: the company identifier, the least
/// significant byte first, then the data as they are.
pub open spec fn manufacturer_data_ad(entry: EntryModel) -> Option<AdStructure> {
    match (entry.key, entry.data) {
        (KeyModel::Number(company), Some(data)) => Some(
            AdStructure {
                ad_type: 0xFF,
                payload: seq![(company % 0x100) as u8, (company / 0x100) as u8] + data,
            },
        ),
        _ => None,
    }
}

/// `ads`, and `ad` behind them where it is there.
pub open spec fn and_also(ads: Seq<AdStructure>, ad: Option<AdStructure>) -> Seq<AdStructure> {
    match ad {
        Some(ad) => ads.push(ad),
        None => ads,
    }
}

/// The service data of all entries, in order.
pub open spec fn service_data_ads(entries: Seq<EntryModel>) -> Seq<AdStructure>
    decreases entries.len(),
{
    if entries.len() == 0 {
        Seq::empty()
    } else {
        and_also(service_data_ads(entries.drop_last()), service_data_ad(entries.last()))
    }
}

/// The manufacturer data of all entries, in order.
pub open spec fn manufacturer_data_ads(entries: Seq<EntryModel>) -> Seq<AdStructure>
    decreases entries.len(),
{
    if entries.len() == 0 {
        Seq::empty()
    } else {
        and_also(manufacturer_data_ads(entries.drop_last()), manufacturer_data_ad(entries.last()))
    }
}

/// The complete local name in UTF-8.
pub open spec fn name_ad(name: Option<Seq<char>>) -> Option<AdStructure> {
    match name {
        Some(name) => Some(
            AdStructure { ad_type: 0x09, payload: vstd::utf8::encode_utf8(name) },
        ),
        None => None,
    }
}

/// The transmit power, where it fits one byte in two's complement.
pub open spec fn tx_power_ad(tx_power: Option<i16>) -> Option<AdStructure> {
    match tx_power {
        Some(power) if -128 <= power < 0 => Some(
            AdStructure { ad_type: 0x0A, payload: seq![(power + 0x100) as u8] },
        ),
        Some(power) if 0 <= power <= 127 => Some(
            AdStructure { ad_type: 0x0A, payload: seq![power as u8] },
        ),
        _ => None,
    }
}

/// The AD structures of a device: its name, its service UUIDs, its service data,
/// its manufacturer data and its transmit power.
pub open spec fn advertised(device: DeviceModel) -> Seq<AdStructure> {
    let uuids = match device.uuids {
        Some(uuids) => uuid_list_ads(uuids),
        None => Seq::empty(),
    };
    and_also(
        and_also(Seq::empty(), name_ad(device.name)) + uuids + service_data_ads(
            device.service_data.entries(),
        ) + manufacturer_data_ads(device.manufacturer_data.entries()),
        tx_power_ad(device.tx_power),
    )
}

/// One stream behind another is the stream of both.
proof fn lemma_ad_stream_add(first: Seq<AdStructure>, second: Seq<AdStructure>)
    ensures
        ad_stream(first + second) == ad_stream(first) + ad_stream(second),
    decreases second.len(),
{
    if second.len() == 0 {
        assert(first + second == first);
    } else {
        lemma_ad_stream_add(first, second.drop_last());
        assert((first + second).drop_last() == first + second.drop_last());
    }
}

/// The stream of one structure.
proof fn lemma_ad_stream_one(ad: AdStructure)
    ensures
        ad_stream(seq![ad]) == ad.bytes(),
{
    assert(seq![ad].drop_last() == Seq::<AdStructure>::empty());
    assert(ad_stream(Seq::<AdStructure>::empty()) == Seq::<u8>::empty());
}

/// A structure that may be missing, behind others.
proof fn lemma_ad_stream_and_also(ads: Seq<AdStructure>, ad: Option<AdStructure>)
    ensures
        ad_stream(and_also(ads, ad)) == (match ad {
            Some(ad) => ad_stream(ads) + ad.bytes(),
            None => ad_stream(ads),
        }),
{
    if let Some(ad) = ad {
        assert(ads.push(ad).drop_last() == ads);
    }
}

/// Writes one AD structure.
pub fn push_ad(out: &mut Vec<u8>, ad_type: u8, payload: &[u8])
    ensures
        final(out)@ == old(out)@ + (AdStructure { ad_type, payload: payload@ }).bytes(),
{
    out.push(((payload.len() % 0x100 + 1) % 0x100) as u8);
    out.push(ad_type);
    out.extend_from_slice(payload);
}

/// Writes the lists of service UUIDs.
pub fn push_uuid_list_ad(out: &mut Vec<u8>, uuids: &[String])
    ensures
        final(out)@ == old(out)@ + ad_stream(uuid_list_ads(properties::texts(uuids@))),
{
    let ghost all = properties::texts(uuids@);
    let mut bit16: Vec<u8> = Vec::new();
    let mut bit32: Vec<u8> = Vec::new();
    let mut bit128: Vec<u8> = Vec::new();
    let mut i: usize = 0;
    while i < uuids.len()
        invariant
            all == properties::texts(uuids@),
            i <= uuids@.len(),
            bit16@ == uuid_run(all.take(i as int), 0x03),
            bit32@ == uuid_run(all.take(i as int), 0x05),
            bit128@ == uuid_run(all.take(i as int), 0x07),
        decreases uuids@.len() - i,
    {
        assert(all.take(i + 1).drop_last() == all.take(i as int));
        assert(all.take(i + 1).last() == uuids@[i as int]@);
        match parse_uuid(uuids[i].as_str()) {
            Some(uuid) => {
                match &uuid {
                    ShortUuid::Bit16(_) => push_uuid(&mut bit16, &uuid),
                    ShortUuid::Bit32(_) => push_uuid(&mut bit32, &uuid),
                    ShortUuid::Bit128(_) => push_uuid(&mut bit128, &uuid),
                }
            },
            None => {},
        }
        i += 1;
    }
    assert(all.take(uuids@.len() as int) == all);
    proof {
        let ads16 = uuid_list_ad(all, 0x03);
        let ads32 = uuid_list_ad(all, 0x05);
        let ads128 = uuid_list_ad(all, 0x07);
        lemma_ad_stream_add(ads16 + ads32, ads128);
        lemma_ad_stream_add(ads16, ads32);
        lemma_ad_stream_one(AdStructure { ad_type: 0x03, payload: bit16@ });
        lemma_ad_stream_one(AdStructure { ad_type: 0x05, payload: bit32@ });
        lemma_ad_stream_one(AdStructure { ad_type: 0x07, payload: bit128@ });
    }
    if !bit16.is_empty() {
        push_ad(out, 0x03, bit16.as_slice());
    }
    if !bit32.is_empty() {
        push_ad(out, 0x05, bit32.as_slice());
    }
    if !bit128.is_empty() {
        push_ad(out, 0x07, bit128.as_slice());
    }
}

/// Writes the service data of the entries that have a UUID and data.
pub fn push_service_data_ad(out: &mut Vec<u8>, value: &DictProperty)
    ensures
        final(out)@ == old(out)@ + ad_stream(service_data_ads(value@.entries())),
{
    let ghost all = value@.entries();
    assert(ad_stream(service_data_ads(all.take(0))) == Seq::<u8>::empty());
    match value {
        DictProperty::Entries(entries) => {
            let mut i: usize = 0;
            while i < entries.len()
                invariant
                    all == value@.entries(),
                    *value == DictProperty::Entries(*entries),
                    i <= entries@.len(),
                    out@ == old(out)@ + ad_stream(service_data_ads(all.take(i as int))),
                decreases entries@.len() - i,
            {
                let entry = &entries[i];
                assert(all.take(i + 1).drop_last() == all.take(i as int));
                assert(all.take(i + 1).last() == entry@);
                proof {
                    lemma_ad_stream_and_also(
                        service_data_ads(all.take(i as int)),
                        service_data_ad(entry@),
                    );
                }
                match (&entry.key, &entry.data) {
                    (DictKey::Text(text), Some(data)) => match parse_uuid(text.as_str()) {
                        Some(uuid) => {
                            let mut payload: Vec<u8> = Vec::new();
                            push_uuid(&mut payload, &uuid);
                            payload.extend_from_slice(data.as_slice());
                            let ad_type: u8 = match &uuid {
                                ShortUuid::Bit16(_) => 0x16,
                                ShortUuid::Bit32(_) => 0x20,
                                ShortUuid::Bit128(_) => 0x21,
                            };
                            assert(payload@ == uuid@.wire() + data@);
                            push_ad(out, ad_type, payload.as_slice());
                        },
                        None => {},
                    },
                    _ => {},
                }
                i += 1;
            }
            assert(all.take(entries@.len() as int) == all);
        },
        _ => {
            assert(all.take(0) == all);
        },
    }
}

/// Writes the manufacturer data of the entries that have a company identifier
/// and data.
pub fn push_manufacturer_data_ad(out: &mut Vec<u8>, value: &DictProperty)
    ensures
        final(out)@ == old(out)@ + ad_stream(manufacturer_data_ads(value@.entries())),
{
    let ghost all = value@.entries();
    assert(ad_stream(manufacturer_data_ads(all.take(0))) == Seq::<u8>::empty());
    match value {
        DictProperty::Entries(entries) => {
            let mut i: usize = 0;
            while i < entries.len()
                invariant
                    all == value@.entries(),
                    *value == DictProperty::Entries(*entries),
                    i <= entries@.len(),
                    out@ == old(out)@ + ad_stream(manufacturer_data_ads(all.take(i as int))),
                decreases entries@.len() - i,
            {
                let entry = &entries[i];
                assert(all.take(i + 1).drop_last() == all.take(i as int));
                assert(all.take(i + 1).last() == entry@);
                proof {
                    lemma_ad_stream_and_also(
                        manufacturer_data_ads(all.take(i as int)),
                        manufacturer_data_ad(entry@),
                    );
                }
                match (&entry.key, &entry.data) {
                    (DictKey::Number(company), Some(data)) => {
                        let mut payload: Vec<u8> = Vec::new();
                        payload.push((*company % 0x100) as u8);
                        payload.push((*company / 0x100) as u8);
                        payload.extend_from_slice(data.as_slice());
                        assert(payload@ == seq![
                            (*company % 0x100) as u8,
                            (*company / 0x100) as u8,
                        ] + data@);
                        push_ad(out, 0xFF, payload.as_slice());
                    },
                    _ => {},
                }
                i += 1;
            }
            assert(all.take(entries@.len() as int) == all);
        },
        _ => {
            assert(all.take(0) == all);
        },
    }
}

/// Writes the transmit power, where it fits one byte.
fn push_tx_power_ad(out: &mut Vec<u8>, tx_power: Option<i16>)
    ensures
        final(out)@ == old(out)@ + ad_stream(and_also(Seq::empty(), tx_power_ad(tx_power))),
{
    proof {
        lemma_ad_stream_and_also(Seq::empty(), tx_power_ad(tx_power));
    }
    if let Some(power) = tx_power {
        if -128 <= power && power <= 127 {
            let byte: u8 = if power < 0 {
                (power + 0x100) as u8
            } else {
                power as u8
            };
            let payload: [u8; 1] = [byte];
            assert(payload@ == seq![byte]);
            push_ad(out, 0x0A, payload.as_slice());
        }
    }
}

/// Encodes the properties of a device as advertising data.
pub fn encode_advertisement(device: &DeviceProperties) -> (out: Vec<u8>)
    ensures
        out@ == ad_stream(advertised(device@)),
{
    let mut out: Vec<u8> = Vec::new();
    let ghost name = and_also(Seq::empty(), name_ad(device@.name));
    let ghost uuids = match device@.uuids {
        Some(uuids) => uuid_list_ads(uuids),
        None => Seq::empty(),
    };
    let ghost service = service_data_ads(device@.service_data.entries());
    let ghost manufacturer = manufacturer_data_ads(device@.manufacturer_data.entries());
    let ghost power = and_also(Seq::empty(), tx_power_ad(device@.tx_power));
    proof {
        lemma_ad_stream_and_also(Seq::empty(), name_ad(device@.name));
        lemma_ad_stream_add(name, uuids);
        lemma_ad_stream_add(name + uuids, service);
        lemma_ad_stream_add(name + uuids + service, manufacturer);
        lemma_ad_stream_add(name + uuids + service + manufacturer, power);
        assert(advertised(device@) == name + uuids + service + manufacturer + power);
    }
    if let Some(name) = &device.name {
        push_ad(&mut out, 0x09, name.as_str().as_bytes());
    }
    assert(out@ == ad_stream(name));
    if let Some(uuids) = &device.uuids {
        push_uuid_list_ad(&mut out, uuids.as_slice());
    }
    assert(out@ == ad_stream(name + uuids));
    push_service_data_ad(&mut out, &device.service_data);
    push_manufacturer_data_ad(&mut out, &device.manufacturer_data);
    push_tx_power_ad(&mut out, device.tx_power);
    out
}

/// Reconstructs a raw BLE advertising-data (AD structure) byte stream from
/// BlueZ's already-parsed Device1 properties.
///
/// BlueZ does not expose the bytes of an advertisement as they came over the air
/// (it coalesces/parses them into Device1 properties), so this is a
/// best-effort re-encoding: the payload bytes of service/manufacturer data
/// are byte-exact (BlueZ passes those through verbatim), but framing details
/// BlueZ doesn't surface (e.g. the AD Flags byte) are omitted.
pub fn build_raw_advertisement_data(props: &HashMap<String, OwnedValue>) -> (out: Vec<u8>)
    ensures
        out@ == ad_stream(advertised(properties::device(props@))),
{
    encode_advertisement(&DeviceProperties::read(props))
}

/// The AD structures that a stream of bytes is made of. A structure of length
/// zero and one that the bytes do not fill are none.
pub open spec fn ad_structures(bytes: Seq<u8>) -> Option<Seq<AdStructure>>
    decreases bytes.len(),
{
    if bytes.len() == 0 {
        Some(Seq::empty())
    } else {
        let size = bytes[0] as int;
        if size == 0 || bytes.len() < 1 + size {
            None
        } else {
            match ad_structures(bytes.skip(1 + size)) {
                Some(rest) => Some(
                    seq![
                        AdStructure { ad_type: bytes[1], payload: bytes.subrange(2, 1 + size) },
                    ] + rest,
                ),
                None => None,
            }
        }
    }
}

/// A stream of AD structures is read back structure by structure, as long as
/// each payload has at most 254 bytes, which is what the length byte can count.
pub proof fn law_ad_stream_reads_back(ads: Seq<AdStructure>)
    requires
        forall|i: int| 0 <= i < ads.len() ==> (#[trigger] ads[i]).payload.len() <= 254,
    ensures
        ad_structures(ad_stream(ads)) == Some(ads),
    decreases ads.len(),
{
    if ads.len() > 0 {
        let first = ads[0];
        let rest = ads.skip(1);
        assert forall|i: int| 0 <= i < rest.len() implies (#[trigger] rest[i]).payload.len()
            <= 254 by {
            assert(rest[i] == ads[i + 1]);
        }
        law_ad_stream_reads_back(rest);
        assert(ads == seq![first] + rest);
        lemma_ad_stream_add(seq![first], rest);
        lemma_ad_stream_one(first);
        let bytes = ad_stream(ads);
        assert(bytes == first.bytes() + ad_stream(rest));
        let size = bytes[0] as int;
        assert(size == first.payload.len() + 1);
        assert(bytes.skip(1 + size) == ad_stream(rest));
        assert(bytes.subrange(2, 1 + size) == first.payload);
    } else {
        assert(ads == Seq::<AdStructure>::empty());
    }
}

/// The advertising data of a device are read back as its AD structures, as long
/// as each payload has at most 254 bytes.
pub proof fn law_advertisement_reads_back(device: DeviceModel)
    requires
        forall|i: int|
            0 <= i < advertised(device).len() ==> (#[trigger] advertised(device)[i]).payload.len()
                <= 254,
    ensures
        ad_structures(ad_stream(advertised(device))) == Some(advertised(device)),
{
    law_ad_stream_reads_back(advertised(device));
}

/// The UUIDs whose lists are of AD type `list_type`, in the order of `uuids`.
pub open spec fn uuids_listed(uuids: Seq<Seq<char>>, list_type: u8) -> Seq<UuidModel>
    decreases uuids.len(),
{
    if uuids.len() == 0 {
        Seq::empty()
    } else {
        let before = uuids_listed(uuids.drop_last(), list_type);
        match uuid::uuid_of(uuids.last()) {
            Some(uuid) if uuid.list_type() == list_type => before.push(uuid),
            _ => before,
        }
    }
}

/// The bytes that a UUID takes in a list of AD type `list_type`.
pub open spec fn list_width(list_type: u8) -> nat {
    if list_type == 0x03 {
        2
    } else if list_type == 0x05 {
        4
    } else {
        16
    }
}

/// A list of service UUIDs holds every UUID of its width, in order, each in as
/// many bytes as the width says, and nothing else.
pub proof fn law_uuid_list_reads_back(uuids: Seq<Seq<char>>, list_type: u8)
    ensures
        uuid_run(uuids, list_type).len() == uuids_listed(uuids, list_type).len() * list_width(
            list_type,
        ),
        forall|i: int|
            0 <= i < uuids_listed(uuids, list_type).len() ==> (#[trigger] uuids_listed(
                uuids,
                list_type,
            )[i]).wire() == uuid_run(uuids, list_type).subrange(
                i * list_width(list_type),
                (i + 1) * list_width(list_type),
            ),
    decreases uuids.len(),
{
    if uuids.len() > 0 {
        let before = uuids.drop_last();
        law_uuid_list_reads_back(before, list_type);
        uuid::law_wire_is_reversed(uuids.last());
        let run = uuid_run(uuids, list_type);
        let run_before = uuid_run(before, list_type);
        let listed = uuids_listed(uuids, list_type);
        let listed_before = uuids_listed(before, list_type);
        let width = list_width(list_type);
        if listed.len() != listed_before.len() {
            let uuid = uuid::uuid_of(uuids.last())->0;
            assert(uuid.width() == width);
            let n = listed_before.len() as int;
            assert((n + 1) * width == n * width + width) by (nonlinear_arith);
            assert forall|i: int| 0 <= i < listed.len() implies (#[trigger] listed[i]).wire()
                == run.subrange(i * width, (i + 1) * width) by {
                if i < n {
                    assert(listed[i] == listed_before[i]);
                    assert(0 <= i * width <= (i + 1) * width <= n * width) by (nonlinear_arith)
                        requires
                            0 <= i < n,
                            width >= 0,
                    ;
                    assert(run.subrange(i * width, (i + 1) * width) == run_before.subrange(
                        i * width,
                        (i + 1) * width,
                    ));
                } else {
                    assert(run.subrange(n * width, (n + 1) * width) == uuid.wire());
                }
            }
        }
    } else {
        assert(0 * list_width(list_type) == 0);
    }
}

/// Service data pass through byte by byte: the structures are those of the
/// entries with a UUID and data, and no others, and behind the UUID each holds
/// the data of its entry as they are.
pub proof fn law_service_data_exact(entries: Seq<EntryModel>)
    ensures
        forall|i: int|
            0 <= i < entries.len() && (#[trigger] service_data_ad(entries[i])) is Some
                ==> service_data_ads(entries).contains(service_data_ad(entries[i])->0),
        forall|k: int|
            0 <= k < service_data_ads(entries).len() ==> exists|i: int|
                0 <= i < entries.len() && service_data_ad(#[trigger] entries[i]) == Some(
                    #[trigger] service_data_ads(entries)[k],
                ),
        forall|i: int|
            0 <= i < entries.len() ==> ((#[trigger] service_data_ad(entries[i])) matches Some(ad)
                ==> {
                let uuid = uuid::uuid_of(entries[i].key->Text_0)->0;
                &&& ad.payload.take(uuid.width() as int) == uuid.wire()
                &&& ad.payload.skip(uuid.width() as int) == entries[i].data->0
            }),
    decreases entries.len(),
{
    let ads = service_data_ads(entries);
    if entries.len() > 0 {
        let before = entries.drop_last();
        let ads_before = service_data_ads(before);
        law_service_data_exact(before);
        assert forall|i: int| 0 <= i < entries.len() && (#[trigger] service_data_ad(
            entries[i],
        )) is Some implies ads.contains(service_data_ad(entries[i])->0) by {
            let ad = service_data_ad(entries[i])->0;
            if i < before.len() {
                assert(before[i] == entries[i]);
                assert(service_data_ad(before[i]) is Some);
                let k = ads_before.index_of(ad);
                assert(ads[k] == ad);
            } else {
                assert(ads.last() == ad);
            }
        }
        assert forall|k: int| 0 <= k < ads.len() implies exists|i: int|
            0 <= i < entries.len() && service_data_ad(#[trigger] entries[i]) == Some(
                #[trigger] ads[k],
            ) by {
            if k < ads_before.len() {
                assert(ads[k] == ads_before[k]);
                let i = choose|i: int|
                    0 <= i < before.len() && service_data_ad(#[trigger] before[i]) == Some(
                        ads_before[k],
                    );
                assert(entries[i] == before[i]);
            } else {
                assert(entries[entries.len() - 1] == entries.last());
            }
        }
    }
    assert forall|i: int| 0 <= i < entries.len() implies ((#[trigger] service_data_ad(
        entries[i],
    )) matches Some(ad) ==> {
        let uuid = uuid::uuid_of(entries[i].key->Text_0)->0;
        &&& ad.payload.take(uuid.width() as int) == uuid.wire()
        &&& ad.payload.skip(uuid.width() as int) == entries[i].data->0
    }) by {
        if service_data_ad(entries[i]) is Some {
            uuid::law_wire_is_reversed(entries[i].key->Text_0);
        }
    }
}

/// Manufacturer data pass through byte by byte: the structures are those of the
/// entries with a company identifier and data, and no others, and behind the two
/// bytes of the identifier each holds the data of its entry as they are.
pub proof fn law_manufacturer_data_exact(entries: Seq<EntryModel>)
    ensures
        forall|i: int|
            0 <= i < entries.len() && (#[trigger] manufacturer_data_ad(entries[i])) is Some
                ==> manufacturer_data_ads(entries).contains(manufacturer_data_ad(entries[i])->0),
        forall|k: int|
            0 <= k < manufacturer_data_ads(entries).len() ==> exists|i: int|
                0 <= i < entries.len() && manufacturer_data_ad(#[trigger] entries[i]) == Some(
                    #[trigger] manufacturer_data_ads(entries)[k],
                ),
        forall|i: int|
            0 <= i < entries.len() ==> ((#[trigger] manufacturer_data_ad(entries[i])) matches Some(
                ad,
            ) ==> {
                &&& ad.payload[0] + ad.payload[1] * 0x100 == entries[i].key->Number_0
                &&& ad.payload.skip(2) == entries[i].data->0
            }),
    decreases entries.len(),
{
    let ads = manufacturer_data_ads(entries);
    if entries.len() > 0 {
        let before = entries.drop_last();
        let ads_before = manufacturer_data_ads(before);
        law_manufacturer_data_exact(before);
        assert forall|i: int| 0 <= i < entries.len() && (#[trigger] manufacturer_data_ad(
            entries[i],
        )) is Some implies ads.contains(manufacturer_data_ad(entries[i])->0) by {
            let ad = manufacturer_data_ad(entries[i])->0;
            if i < before.len() {
                assert(before[i] == entries[i]);
                assert(manufacturer_data_ad(before[i]) is Some);
                let k = ads_before.index_of(ad);
                assert(ads[k] == ad);
            } else {
                assert(ads.last() == ad);
            }
        }
        assert forall|k: int| 0 <= k < ads.len() implies exists|i: int|
            0 <= i < entries.len() && manufacturer_data_ad(#[trigger] entries[i]) == Some(
                #[trigger] ads[k],
            ) by {
            if k < ads_before.len() {
                assert(ads[k] == ads_before[k]);
                let i = choose|i: int|
                    0 <= i < before.len() && manufacturer_data_ad(#[trigger] before[i]) == Some(
                        ads_before[k],
                    );
                assert(entries[i] == before[i]);
            } else {
                assert(entries[entries.len() - 1] == entries.last());
            }
        }
    }
    assert forall|i: int| 0 <= i < entries.len() implies ((#[trigger] manufacturer_data_ad(
        entries[i],
    )) matches Some(ad) ==> {
        &&& ad.payload[0] + ad.payload[1] * 0x100 == entries[i].key->Number_0
        &&& ad.payload.skip(2) == entries[i].data->0
    }) by {
        if let Some(ad) = manufacturer_data_ad(entries[i]) {
            assert(ad.payload.skip(2) == entries[i].data->0);
        }
    }
}

/// The AD types that advertising data are made of.
pub open spec fn known_type(ad_type: u8) -> bool {
    ||| ad_type == 0x03 || ad_type == 0x05 || ad_type == 0x07
    ||| ad_type == 0x09 || ad_type == 0x0A
    ||| ad_type == 0x16 || ad_type == 0x20 || ad_type == 0x21
    ||| ad_type == 0xFF
}

/// Whether AD structures are of such types only.
pub open spec fn all_known(ads: Seq<AdStructure>) -> bool {
    forall|k: int| 0 <= k < ads.len() ==> known_type((#[trigger] ads[k]).ad_type)
}

/// Service data have the AD types of service data.
proof fn lemma_service_data_types(entries: Seq<EntryModel>)
    ensures
        all_known(service_data_ads(entries)),
{
    law_service_data_exact(entries);
    assert forall|k: int| 0 <= k < service_data_ads(entries).len() implies known_type(
        (#[trigger] service_data_ads(entries)[k]).ad_type,
    ) by {
        let i = choose|i: int|
            0 <= i < entries.len() && service_data_ad(#[trigger] entries[i]) == Some(
                service_data_ads(entries)[k],
            );
    }
}

/// Manufacturer data have the AD type of manufacturer data.
proof fn lemma_manufacturer_data_types(entries: Seq<EntryModel>)
    ensures
        all_known(manufacturer_data_ads(entries)),
{
    law_manufacturer_data_exact(entries);
    assert forall|k: int| 0 <= k < manufacturer_data_ads(entries).len() implies known_type(
        (#[trigger] manufacturer_data_ads(entries)[k]).ad_type,
    ) by {
        let i = choose|i: int|
            0 <= i < entries.len() && manufacturer_data_ad(#[trigger] entries[i]) == Some(
                manufacturer_data_ads(entries)[k],
            );
    }
}

/// Structures of known types behind others are of known types.
proof fn lemma_known_add(first: Seq<AdStructure>, second: Seq<AdStructure>)
    requires
        all_known(first),
        all_known(second),
    ensures
        all_known(first + second),
{
}

/// Advertising data hold names, service UUIDs, service and manufacturer data and
/// transmit powers, and nothing that BlueZ does not tell: no flags, above all.
pub proof fn law_known_types_only(device: DeviceModel)
    ensures
        !known_type(0x01),
        all_known(advertised(device)),
{
    let name = and_also(Seq::empty(), name_ad(device.name));
    let uuids = match device.uuids {
        Some(uuids) => uuid_list_ads(uuids),
        None => Seq::empty(),
    };
    let service = service_data_ads(device.service_data.entries());
    let manufacturer = manufacturer_data_ads(device.manufacturer_data.entries());
    let power = and_also(Seq::empty(), tx_power_ad(device.tx_power));
    lemma_service_data_types(device.service_data.entries());
    lemma_manufacturer_data_types(device.manufacturer_data.entries());
    lemma_known_add(name, uuids);
    lemma_known_add(name + uuids, service);
    lemma_known_add(name + uuids + service, manufacturer);
    lemma_known_add(name + uuids + service + manufacturer, power);
    assert(advertised(device) == name + uuids + service + manufacturer + power);
}

/// An AD structure is a byte with the length of what follows, modulo 256, a byte
/// with the type, and all of the payload, however long it is.
pub proof fn law_ad_structure_layout(ad: AdStructure)
    ensures
        ad.bytes().len() == ad.payload.len() + 2,
        ad.bytes()[0] == (ad.payload.len() + 1) % 256,
        ad.bytes()[1] == ad.ad_type,
        ad.bytes().skip(2) == ad.payload,
{
}

/// A stream of AD structures is their bytes in order, with nothing before,
/// between or behind them.
pub proof fn law_ad_stream_concatenates(
    first: Seq<AdStructure>,
    second: Seq<AdStructure>,
    ad: AdStructure,
)
    ensures
        ad_stream(Seq::empty()).len() == 0,
        ad_stream(seq![ad]) == ad.bytes(),
        ad_stream(first + second) == ad_stream(first) + ad_stream(second),
{
    lemma_ad_stream_add(first, second);
    lemma_ad_stream_one(ad);
}

/// The UUIDs of one list are all UUIDs of its width among the texts, in order:
/// those of the first texts, then those of the others. A text that is a UUID of
/// that width counts once each time it comes; every other text does not count.
pub proof fn law_uuids_listed_one_by_one(
    first: Seq<Seq<char>>,
    second: Seq<Seq<char>>,
    text: Seq<char>,
    list_type: u8,
)
    ensures
        uuids_listed(first + second, list_type) == uuids_listed(first, list_type) + uuids_listed(
            second,
            list_type,
        ),
        uuids_listed(seq![text], list_type) == (match uuid::uuid_of(text) {
            Some(UuidModel::Bit16(id)) if list_type == 3 => seq![UuidModel::Bit16(id)],
            Some(UuidModel::Bit32(id)) if list_type == 5 => seq![UuidModel::Bit32(id)],
            Some(UuidModel::Bit128(bytes)) if list_type == 7 => seq![UuidModel::Bit128(bytes)],
            _ => Seq::empty(),
        }),
    decreases second.len(),
{
    reveal_with_fuel(uuids_listed, 2);
    assert(seq![text].drop_last() == Seq::<Seq<char>>::empty());
    if second.len() == 0 {
        assert(first + second == first);
    } else {
        law_uuids_listed_one_by_one(first, second.drop_last(), text, list_type);
        assert((first + second).drop_last() == first + second.drop_last());
    }
}

/// The bytes of one list are the bytes of all its UUIDs, one behind the other.
pub proof fn law_uuid_run_is_all_listed(uuids: Seq<Seq<char>>, list_type: u8)
    ensures
        uuid_run(uuids, list_type) == uuids_listed(uuids, list_type).map_values(
            |uuid: UuidModel| uuid.wire(),
        ).flatten(),
    decreases uuids.len(),
{
    let wire = |uuid: UuidModel| uuid.wire();
    let wires = uuids_listed(uuids, list_type).map_values(wire);
    if uuids.len() > 0 {
        let before = uuids.drop_last();
        law_uuid_run_is_all_listed(before, list_type);
        let wires_before = uuids_listed(before, list_type).map_values(wire);
        if let Some(uuid) = uuid::uuid_of(uuids.last()) {
            if uuid.list_type() == list_type {
                assert(wires == wires_before.push(uuid.wire()));
                wires_before.lemma_flatten_push(uuid.wire());
            } else {
                assert(wires == wires_before);
            }
        } else {
            assert(wires == wires_before);
        }
    } else {
        assert(wires == Seq::<Seq<u8>>::empty());
    }
}

/// Of each width there is exactly one list where there are UUIDs of that width,
/// and none where there are not. It is complete: its payload is the bytes of all
/// of them, however many there are. The lists come in the order of their widths.
pub proof fn law_uuid_lists_are_complete(uuids: Seq<Seq<char>>)
    ensures
        forall|k: int|
            0 <= k < uuid_list_ads(uuids).len() ==> {
                let ad = #[trigger] uuid_list_ads(uuids)[k];
                &&& ad.ad_type == 3 || ad.ad_type == 5 || ad.ad_type == 7
                &&& ad.payload.len() > 0
                &&& ad.payload == uuids_listed(uuids, ad.ad_type).map_values(
                    |uuid: UuidModel| uuid.wire(),
                ).flatten()
            },
        forall|j: int, k: int|
            0 <= j < k < uuid_list_ads(uuids).len() ==> (#[trigger] uuid_list_ads(uuids)[j]).ad_type
                < (#[trigger] uuid_list_ads(uuids)[k]).ad_type,
        forall|list_type: u8| #[trigger]
            uuids_listed(uuids, list_type).len() > 0 ==> exists|k: int|
                0 <= k < uuid_list_ads(uuids).len() && (#[trigger] uuid_list_ads(uuids)[k]).ad_type
                    == list_type,
{
    let ads = uuid_list_ads(uuids);
    let ads16 = uuid_list_ad(uuids, 0x03);
    let ads32 = uuid_list_ad(uuids, 0x05);
    let ads128 = uuid_list_ad(uuids, 0x07);
    law_uuid_run_is_all_listed(uuids, 0x03);
    law_uuid_run_is_all_listed(uuids, 0x05);
    law_uuid_run_is_all_listed(uuids, 0x07);
    assert forall|list_type: u8| #[trigger] uuids_listed(uuids, list_type).len() > 0 implies exists|
        k: int|
        0 <= k < ads.len() && (#[trigger] ads[k]).ad_type == list_type by {
        lemma_listed_types(uuids, list_type);
        law_uuid_list_reads_back(uuids, list_type);
        let n = uuids_listed(uuids, list_type).len();
        let width = list_width(list_type);
        assert(n * width > 0) by (nonlinear_arith)
            requires
                n > 0,
                width > 0,
        ;
        assert(uuid_list_ad(uuids, list_type).len() == 1);
        let k = if list_type == 0x03 {
            0
        } else if list_type == 0x05 {
            ads16.len() as int
        } else {
            (ads16.len() + ads32.len()) as int
        };
        assert(ads[k].ad_type == list_type);
    }
}

/// Only lists of three AD types have UUIDs.
proof fn lemma_listed_types(uuids: Seq<Seq<char>>, list_type: u8)
    ensures
        uuids_listed(uuids, list_type).len() > 0 ==> list_type == 0x03 || list_type == 0x05
            || list_type == 0x07,
    decreases uuids.len(),
{
    if uuids.len() > 0 {
        lemma_listed_types(uuids.drop_last(), list_type);
    }
}

/// Every entry with a UUID as its key and with bytes, however many, has its
/// service data structure, of the AD type for the width of the UUID and with the
/// UUID and all of the bytes as its payload. No other entry has one.
pub proof fn law_service_data_of_each_entry(entry: EntryModel, text: Seq<char>, data: Seq<u8>)
    ensures
        entry.key == KeyModel::Text(text) && entry.data == Some(data) ==> service_data_ads(
            seq![entry],
        ) == (match uuid::uuid_of(text) {
            Some(UuidModel::Bit16(id)) => seq![
                AdStructure { ad_type: 0x16, payload: UuidModel::Bit16(id).wire() + data },
            ],
            Some(UuidModel::Bit32(id)) => seq![
                AdStructure { ad_type: 0x20, payload: UuidModel::Bit32(id).wire() + data },
            ],
            Some(UuidModel::Bit128(bytes)) => seq![
                AdStructure { ad_type: 0x21, payload: UuidModel::Bit128(bytes).wire() + data },
            ],
            None => Seq::empty(),
        }),
        entry.key !is Text || entry.data is None ==> service_data_ads(seq![entry]).len() == 0,
{
    reveal_with_fuel(service_data_ads, 2);
    assert(seq![entry].drop_last() == Seq::<EntryModel>::empty());
}

/// Every entry with a company identifier as its key and with bytes, however many,
/// has its manufacturer data structure: the identifier, the less significant byte
/// first, and all of the bytes. No other entry has one.
pub proof fn law_manufacturer_data_of_each_entry(entry: EntryModel, company: u16, data: Seq<u8>)
    ensures
        entry.key == KeyModel::Number(company) && entry.data == Some(data) ==> {
            let ads = manufacturer_data_ads(seq![entry]);
            &&& ads.len() == 1
            &&& ads[0].ad_type == 0xFF
            &&& ads[0].payload.len() == 2 + data.len()
            &&& ads[0].payload[0] + ads[0].payload[1] * 256 == company
            &&& ads[0].payload.skip(2) == data
        },
        entry.key !is Number || entry.data is None ==> manufacturer_data_ads(seq![entry]).len()
            == 0,
{
    reveal_with_fuel(manufacturer_data_ads, 2);
    assert(seq![entry].drop_last() == Seq::<EntryModel>::empty());
    if entry.key == KeyModel::Number(company) && entry.data == Some(data) {
        assert(manufacturer_data_ads(seq![entry])[0].payload.skip(2) == data);
    }
}

/// The data of a dictionary are those of its first entries, then those of the
/// others: no entry changes what another one gives.
pub proof fn law_data_entry_by_entry(first: Seq<EntryModel>, second: Seq<EntryModel>)
    ensures
        service_data_ads(first + second) == service_data_ads(first) + service_data_ads(second),
        manufacturer_data_ads(first + second) == manufacturer_data_ads(first)
            + manufacturer_data_ads(second),
    decreases second.len(),
{
    if second.len() == 0 {
        assert(first + second == first);
    } else {
        law_data_entry_by_entry(first, second.drop_last());
        assert((first + second).drop_last() == first + second.drop_last());
        assert((first + second).last() == second.last());
    }
}

/// In a dictionary of any size, every entry with a UUID as its key and with bytes
/// has the structure with the UUID and all of the bytes.
pub proof fn law_no_service_data_are_lost(
    entries: Seq<EntryModel>,
    i: int,
    text: Seq<char>,
    data: Seq<u8>,
)
    requires
        0 <= i < entries.len(),
        entries[i].key == KeyModel::Text(text),
        entries[i].data == Some(data),
    ensures
        uuid::uuid_of(text) matches Some(uuid) ==> service_data_ads(entries).contains(
            AdStructure {
                ad_type: match uuid {
                    UuidModel::Bit16(_) => 0x16,
                    UuidModel::Bit32(_) => 0x20,
                    UuidModel::Bit128(_) => 0x21,
                },
                payload: uuid.wire() + data,
            },
        ),
{
    law_service_data_exact(entries);
    if uuid::uuid_of(text) is Some {
        assert(service_data_ad(entries[i]) is Some);
    }
}

/// In a dictionary of any size, every entry with a company identifier as its key
/// and with bytes has the structure with the identifier and all of the bytes.
pub proof fn law_no_manufacturer_data_are_lost(
    entries: Seq<EntryModel>,
    i: int,
    company: u16,
    data: Seq<u8>,
)
    requires
        0 <= i < entries.len(),
        entries[i].key == KeyModel::Number(company),
        entries[i].data == Some(data),
    ensures
        manufacturer_data_ads(entries).contains(
            AdStructure {
                ad_type: 0xFF,
                payload: seq![(company % 256) as u8, (company / 256) as u8] + data,
            },
        ),
{
    law_manufacturer_data_exact(entries);
    assert(manufacturer_data_ad(entries[i]) is Some);
}

/// What a device advertises is what it would advertise with its name alone, then
/// with its UUIDs alone, its service data, its manufacturer data, and its transmit
/// power alone: no property changes what another one gives.
pub proof fn law_advertised_property_by_property(device: DeviceModel)
    ensures
        ({
            let name = DeviceModel {
                uuids: None,
                service_data: DictModel::Absent,
                manufacturer_data: DictModel::Absent,
                tx_power: None,
                ..device
            };
            let uuids = DeviceModel { name: None, uuids: device.uuids, ..name };
            let service = DeviceModel { name: None, service_data: device.service_data, ..name };
            let manufacturer = DeviceModel {
                name: None,
                manufacturer_data: device.manufacturer_data,
                ..name
            };
            let power = DeviceModel { name: None, tx_power: device.tx_power, ..name };
            advertised(device) == advertised(name) + advertised(uuids) + advertised(service)
                + advertised(manufacturer) + advertised(power)
        }),
{
    assert(service_data_ads(Seq::empty()) == Seq::<AdStructure>::empty());
    assert(manufacturer_data_ads(Seq::empty()) == Seq::<AdStructure>::empty());
}

/// A name alone is one structure, a complete local name with all of it in UTF-8.
pub proof fn law_name_alone(device: DeviceModel)
    requires
        device.uuids is None,
        device.service_data !is Entries,
        device.manufacturer_data !is Entries,
        device.tx_power is None,
    ensures
        device.name is None ==> advertised(device).len() == 0,
        device.name matches Some(name) ==> advertised(device) == seq![
            AdStructure { ad_type: 0x09, payload: vstd::utf8::encode_utf8(name) },
        ],
{
}

/// UUIDs alone are their lists.
pub proof fn law_uuids_alone(device: DeviceModel)
    requires
        device.name is None,
        device.service_data !is Entries,
        device.manufacturer_data !is Entries,
        device.tx_power is None,
    ensures
        device.uuids matches Some(uuids) ==> advertised(device) == uuid_list_ads(uuids),
{
}

/// A dictionary of service data or of manufacturer data alone is the structures
/// of its entries, all of them.
pub proof fn law_data_alone(device: DeviceModel)
    requires
        device.name is None,
        device.uuids is None,
        device.tx_power is None,
    ensures
        device.manufacturer_data !is Entries ==> (device.service_data matches DictModel::Entries(
            entries,
        ) ==> advertised(device) == service_data_ads(entries)),
        device.service_data !is Entries ==> (device.manufacturer_data matches DictModel::Entries(
            entries,
        ) ==> advertised(device) == manufacturer_data_ads(entries)),
{
}

/// A transmit power alone is one structure with one byte, which is the power in
/// two's complement. Only a power that one byte cannot hold is left out.
pub proof fn law_power_alone(device: DeviceModel)
    requires
        device.name is None,
        device.uuids is None,
        device.service_data !is Entries,
        device.manufacturer_data !is Entries,
    ensures
        device.tx_power is None ==> advertised(device).len() == 0,
        device.tx_power matches Some(power) ==> if -128 <= power <= 127 {
            let ads = advertised(device);
            &&& ads.len() == 1
            &&& ads[0].ad_type == 0x0A
            &&& ads[0].payload.len() == 1
            &&& power == if ads[0].payload[0] < 128 {
                ads[0].payload[0] as int
            } else {
                ads[0].payload[0] - 256
            }
        } else {
            advertised(device).len() == 0
        },
{
}

} // verus!
