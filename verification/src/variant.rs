//! D-Bus variants, as `zvariant` decodes them.
//!
//! The functions here hand over to `zvariant` and to the standard hash map.
//! Nothing is proved of what they call: their contracts say what is relied on.
use std::collections::HashMap;
use vstd::prelude::*;
use zbus::zvariant::{Dict, OwnedValue, Value};

verus! {

/// What a D-Bus variant holds, as a mathematical value.
pub enum Variant {
    /// A string.
    Text(Seq<char>),
    /// A boolean.
    Flag(bool),
    /// An unsigned 8-bit integer.
    Byte(u8),
    /// A signed 16-bit integer.
    Int16(i16),
    /// An unsigned 16-bit integer.
    Uint16(u16),
    /// The elements of an array.
    Array(Seq<Variant>),
    /// The keys and values of a dictionary, in the order of its iterator.
    Dict(Seq<(Variant, Variant)>),
    /// A variant inside the variant.
    Nested(Box<Variant>),
    /// A value of any other type.
    Other,
}

impl Variant {
    /// The variant inside, where there is one, else the variant itself.
    pub open spec fn opened(self) -> Variant {
        match self {
            Variant::Nested(inner) => *inner,
            _ => self,
        }
    }

    /// The string in a variant, nested once or not.
    pub open spec fn text(self) -> Option<Seq<char>> {
        match self.opened() {
            Variant::Text(text) => Some(text),
            _ => None,
        }
    }

    /// The boolean in a variant, nested once or not.
    pub open spec fn flag(self) -> Option<bool> {
        match self.opened() {
            Variant::Flag(flag) => Some(flag),
            _ => None,
        }
    }

    /// The signed 16-bit integer in a variant, nested once or not.
    pub open spec fn int16(self) -> Option<i16> {
        match self.opened() {
            Variant::Int16(number) => Some(number),
            _ => None,
        }
    }

    /// The unsigned 16-bit integer in a variant, nested once or not.
    pub open spec fn uint16(self) -> Option<u16> {
        match self.opened() {
            Variant::Uint16(number) => Some(number),
            _ => None,
        }
    }

    /// The bytes in a variant, nested once or not: an array all of whose
    /// elements are bytes, each nested once or not.
    pub open spec fn bytes(self) -> Option<Seq<u8>> {
        match self.opened() {
            Variant::Array(elements) => if forall|i: int|
                0 <= i < elements.len() ==> (#[trigger] elements[i]).opened() is Byte {
                Some(Seq::new(elements.len(), |i: int| elements[i].opened()->Byte_0))
            } else {
                None
            },
            _ => None,
        }
    }

    /// The strings in a variant that is an array of strings, each nested once or
    /// not.
    pub open spec fn texts(self) -> Option<Seq<Seq<char>>> {
        match self {
            Variant::Array(elements) => if forall|i: int|
                0 <= i < elements.len() ==> (#[trigger] elements[i]).opened() is Text {
                Some(Seq::new(elements.len(), |i: int| elements[i].opened()->Text_0))
            } else {
                None
            },
            _ => None,
        }
    }

    /// The entries of a variant that is a dictionary.
    pub open spec fn items(self) -> Option<Seq<(Variant, Variant)>> {
        match self {
            Variant::Dict(items) => Some(items),
            _ => None,
        }
    }
}

#[verifier::external_type_specification]
#[verifier::external_body]
pub struct ExOwnedValue(OwnedValue);

#[verifier::external_type_specification]
#[verifier::external_body]
pub struct ExValue<'a>(Value<'a>);

/// What a `zvariant` value holds.
pub uninterp spec fn content(value: Value<'_>) -> Variant;

/// What an owned `zvariant` value holds.
pub uninterp spec fn owned_content(value: OwnedValue) -> Variant;

/// What `map` has under the key with the characters `key`.
pub open spec fn entry<V>(map: Map<String, V>, key: Seq<char>) -> Option<V> {
    if exists|k: String| map.contains_key(k) && k@ == key {
        Some(map[choose|k: String| map.contains_key(k) && k@ == key])
    } else {
        None
    }
}

/// `HashMap::get`, for keys that are strings, which `vstd` leaves open: the value
/// under `key`, or `None` where the map has no such key. No two keys of a map
/// have the same characters.
#[verifier::external_body]
pub(crate) fn find<'a, V>(map: &'a HashMap<String, V>, key: &str) -> (found: Option<&'a V>)
    ensures
        match found {
            Some(value) => entry(map@, key@) == Some(*value),
            None => entry(map@, key@) is None,
        },
{
    map.get(key)
}

/// `<OwnedValue as Deref>::deref`: the value inside an owned one.
#[verifier::external_body]
pub(crate) fn borrowed(value: &OwnedValue) -> (inner: &Value<'static>)
    ensures
        content(*inner) == owned_content(*value),
{
    value
}

/// `Value::downcast_ref::<String>`: the string in a value.
#[verifier::external_body]
pub(crate) fn text(value: &Value<'_>) -> (text: Option<String>)
    ensures
        match text {
            Some(text) => content(*value).text() == Some(text@),
            None => content(*value).text() is None,
        },
{
    value.downcast_ref::<String>().ok()
}

/// `Value::downcast_ref::<bool>`: the boolean in a value.
#[verifier::external_body]
pub(crate) fn flag(value: &Value<'_>) -> (flag: Option<bool>)
    ensures
        flag == content(*value).flag(),
{
    value.downcast_ref::<bool>().ok()
}

/// `Value::downcast_ref::<i16>`: the signed 16-bit integer in a value.
#[verifier::external_body]
pub(crate) fn int16(value: &Value<'_>) -> (number: Option<i16>)
    ensures
        number == content(*value).int16(),
{
    value.downcast_ref::<i16>().ok()
}

/// `Value::downcast_ref::<u16>`: the unsigned 16-bit integer in a value.
#[verifier::external_body]
pub(crate) fn uint16(value: &Value<'_>) -> (number: Option<u16>)
    ensures
        number == content(*value).uint16(),
{
    value.downcast_ref::<u16>().ok()
}

/// `Value::downcast::<Vec<u8>>`, on a copy: the bytes in a value. A value that
/// cannot be copied holds a file descriptor, and so no array of bytes.
#[verifier::external_body]
pub(crate) fn bytes(value: &Value<'_>) -> (bytes: Option<Vec<u8>>)
    ensures
        match bytes {
            Some(bytes) => content(*value).bytes() == Some(bytes@),
            None => content(*value).bytes() is None,
        },
{
    value.try_clone().ok().and_then(|copy| copy.downcast::<Vec<u8>>().ok())
}

/// `<Vec<String> as TryFrom<Value>>::try_from`, on a copy: the strings in a
/// value. A value that cannot be copied holds a file descriptor, and so no array
/// of strings.
#[verifier::external_body]
pub(crate) fn texts(value: &Value<'_>) -> (texts: Option<Vec<String>>)
    ensures
        match texts {
            Some(texts) => content(*value).texts() == Some(
                texts@.map_values(|text: String| text@),
            ),
            None => content(*value).texts() is None,
        },
{
    value.try_clone().ok().and_then(|copy| Vec::<String>::try_from(copy).ok())
}

/// `<&Dict as TryFrom<&Value>>::try_from` and `Dict::iter`: the entries of a
/// value that is a dictionary.
#[verifier::external_body]
pub(crate) fn items<'a>(value: &'a Value<'a>) -> (items: Option<Vec<(&'a Value<'a>, &'a Value<'a>)>>)
    ensures
        match items {
            Some(items) => content(*value).items() == Some(
                items@.map_values(
                    |item: (&Value<'_>, &Value<'_>)| (content(*item.0), content(*item.1)),
                ),
            ),
            None => content(*value).items() is None,
        },
{
    <&Dict>::try_from(value).ok().map(|dict| dict.iter().collect())
}

/// What a map has under a text is the value under the key with these characters,
/// and nothing exactly where no key has them.
pub proof fn law_entry_is_under_its_key<V>(map: Map<String, V>, k: String, key: Seq<char>)
    ensures
        map.contains_key(k) && (forall|other: String|
            map.contains_key(other) && #[trigger] other@ == k@ ==> other == k) ==> entry(map, k@)
            == Some(map[k]),
        entry(map, key) is None <==> forall|other: String|
            map.contains_key(other) ==> #[trigger] other@ != key,
{
    if exists|other: String| map.contains_key(other) && other@ == key {
        let other = choose|other: String| map.contains_key(other) && other@ == key;
        assert(other@ == key);
    }
    if map.contains_key(k) {
        let other = choose|other: String| map.contains_key(other) && other@ == k@;
        assert(map.contains_key(other) && other@ == k@);
    }
}

/// A variant gives the string, boolean or integer that it holds, or that a
/// variant in it holds, and nothing else.
pub proof fn law_single_values(
    value: Variant,
    text: Seq<char>,
    flag: bool,
    int16: i16,
    uint16: u16,
)
    ensures
        value.text() == Some(text) <==> value == Variant::Text(text) || (value matches Variant::Nested(
            inner,
        ) && *inner == Variant::Text(text)),
        value.flag() == Some(flag) <==> value == Variant::Flag(flag) || (value matches Variant::Nested(
            inner,
        ) && *inner == Variant::Flag(flag)),
        value.int16() == Some(int16) <==> value == Variant::Int16(int16) || (
        value matches Variant::Nested(inner) && *inner == Variant::Int16(int16)),
        value.uint16() == Some(uint16) <==> value == Variant::Uint16(uint16) || (
        value matches Variant::Nested(inner) && *inner == Variant::Uint16(uint16)),
{
}

/// Whether `value` is `expected` or a variant that holds it.
pub open spec fn is_or_holds(value: Variant, expected: Variant) -> bool {
    value == expected || (value matches Variant::Nested(inner) && *inner == expected)
}

/// An array gives bytes or strings exactly where each element is one, nested once
/// or not: then one for each element, in order. An array of bytes may itself be
/// nested once, an array of strings may not.
pub proof fn law_arrays(elements: Seq<Variant>, bytes: Seq<u8>, texts: Seq<Seq<char>>)
    ensures
        Variant::Array(elements).bytes() == Some(bytes) <==> bytes.len() == elements.len()
            && forall|i: int|
            0 <= i < elements.len() ==> is_or_holds(
                #[trigger] elements[i],
                Variant::Byte(bytes[i]),
            ),
        Variant::Nested(Box::new(Variant::Array(elements))).bytes() == Variant::Array(
            elements,
        ).bytes(),
        Variant::Array(elements).texts() == Some(texts) <==> texts.len() == elements.len()
            && forall|i: int|
            0 <= i < elements.len() ==> is_or_holds(
                #[trigger] elements[i],
                Variant::Text(texts[i]),
            ),
{
    if bytes.len() == elements.len() && forall|i: int|
        0 <= i < elements.len() ==> is_or_holds(#[trigger] elements[i], Variant::Byte(bytes[i])) {
        assert(Variant::Array(elements).bytes()->0 == bytes);
    }
    if texts.len() == elements.len() && forall|i: int|
        0 <= i < elements.len() ==> is_or_holds(#[trigger] elements[i], Variant::Text(texts[i])) {
        assert(Variant::Array(elements).texts()->0 == texts);
    }
}

/// Only arrays give bytes or strings, and only dictionaries give entries: all of
/// theirs, in order.
pub proof fn law_containers(value: Variant, items: Seq<(Variant, Variant)>)
    ensures
        value.bytes() is Some ==> value is Array || (value matches Variant::Nested(inner)
            && *inner is Array),
        value.texts() is Some ==> value is Array,
        value.items() == Some(items) <==> value == Variant::Dict(items),
{
}

} // verus!
