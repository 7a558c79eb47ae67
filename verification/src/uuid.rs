//! Service UUIDs, and how short Bluetooth writes them.
use crate::text;
use crate::text::{characters, read_hex_byte};
use vstd::prelude::*;

verus! {

/// The last twelve bytes of the Bluetooth base UUID.
pub const BASE_UUID_SUFFIX: [u8; 12] = [
    0x00, 0x00, 0x10, 0x00, 0x80, 0x00, 0x00, 0x80, 0x5F, 0x9B, 0x34, 0xFB,
];

/// A UUID in the shortest form that Bluetooth has for it.
pub enum ShortUuid {
    /// The number that replaces the third and fourth byte of the base UUID.
    Bit16(u16),
    /// The number that replaces the first four bytes of the base UUID.
    Bit32(u32),
    /// All bytes, the most significant first.
    Bit128([u8; 16]),
}

/// What a `ShortUuid` stands for.
pub enum UuidModel {
    Bit16(u16),
    Bit32(u32),
    Bit128(Seq<u8>),
}

impl View for ShortUuid {
    type V = UuidModel;

    open spec fn view(&self) -> UuidModel {
        match self {
            ShortUuid::Bit16(id) => UuidModel::Bit16(*id),
            ShortUuid::Bit32(id) => UuidModel::Bit32(*id),
            ShortUuid::Bit128(bytes) => UuidModel::Bit128(bytes@),
        }
    }
}

/// `text` without its dashes.
pub open spec fn undashed(text: Seq<char>) -> Seq<char> {
    text.filter(|c: char| c != '-')
}

/// The sixteen bytes that `text` writes, two characters each, with dashes
/// anywhere.
pub open spec fn uuid_bytes(text: Seq<char>) -> Option<Seq<u8>> {
    let hex = undashed(text);
    if hex.len() == 32 && forall|i: int|
        0 <= i < 16 ==> text::hex_byte(#[trigger] hex.subrange(2 * i, 2 * i + 2)) is Some {
        Some(Seq::new(16, |i: int| text::hex_byte(hex.subrange(2 * i, 2 * i + 2))->0))
    } else {
        None
    }
}

/// The shortest form of a UUID of sixteen bytes, the most significant first.
pub open spec fn shorten(bytes: Seq<u8>) -> UuidModel {
    if bytes.skip(4) == BASE_UUID_SUFFIX@ {
        if bytes[0] == 0 && bytes[1] == 0 {
            UuidModel::Bit16((bytes[2] * 0x100 + bytes[3]) as u16)
        } else {
            UuidModel::Bit32(
                (bytes[0] * 0x100_0000 + bytes[1] * 0x1_0000 + bytes[2] * 0x100 + bytes[3]) as u32,
            )
        }
    } else {
        UuidModel::Bit128(bytes)
    }
}

/// The UUID that `text` writes, in its shortest form.
pub open spec fn uuid_of(text: Seq<char>) -> Option<UuidModel> {
    match uuid_bytes(text) {
        Some(bytes) => Some(shorten(bytes)),
        None => None,
    }
}

/// Parses a canonical (dashed) 128-bit UUID string and, if it follows the
/// Bluetooth SIG base UUID pattern, shrinks it to its 16- or 32-bit form --
/// matching how such UUIDs are actually encoded over the air.
pub fn parse_uuid(uuid_str: &str) -> (uuid: Option<ShortUuid>)
    ensures
        match uuid {
            Some(uuid) => uuid_of(uuid_str@) == Some(uuid@),
            None => uuid_of(uuid_str@) is None,
        },
{
    let chars = characters(uuid_str);
    let mut hex: Vec<char> = Vec::new();
    let mut i: usize = 0;
    assert(undashed(uuid_str@.take(0)) == hex@) by {
        reveal(Seq::filter);
    }
    while i < chars.len()
        invariant
            chars@ == uuid_str@,
            i <= chars@.len(),
            hex@ == undashed(uuid_str@.take(i as int)),
        decreases chars@.len() - i,
    {
        reveal(Seq::filter);
        assert(uuid_str@.take(i + 1).drop_last() == uuid_str@.take(i as int));
        if chars[i] != '-' {
            hex.push(chars[i]);
        }
        i += 1;
    }
    assert(uuid_str@.take(i as int) == uuid_str@);
    if hex.len() != 32 {
        return None;
    }
    let mut bytes: [u8; 16] = [0u8; 16];
    let mut n: usize = 0;
    while n < 16
        invariant
            hex@ == undashed(uuid_str@),
            hex@.len() == 32,
            n <= 16,
            forall|k: int|
                0 <= k < n ==> text::hex_byte(#[trigger] hex@.subrange(2 * k, 2 * k + 2)) == Some(
                    bytes@[k],
                ),
        decreases 16 - n,
    {
        match read_hex_byte(&hex, 2 * n, 2 * n + 2) {
            Some(byte) => {
                bytes[n] = byte;
            },
            None => {
                return None;
            },
        }
        n += 1;
    }
    assert(uuid_bytes(uuid_str@) == Some(bytes@));
    let mut based = true;
    let mut k: usize = 0;
    while k < 12
        invariant
            k <= 12,
            based <==> forall|j: int|
                0 <= j < k ==> #[trigger] bytes@.skip(4)[j] == BASE_UUID_SUFFIX@[j],
        decreases 12 - k,
    {
        assert(bytes@.skip(4)[k as int] == bytes@[4 + k]);
        if bytes[4 + k] != BASE_UUID_SUFFIX[k] {
            based = false;
        }
        k += 1;
    }
    assert(based <==> bytes@.skip(4) =~= BASE_UUID_SUFFIX@);
    if based {
        if bytes[0] == 0 && bytes[1] == 0 {
            Some(ShortUuid::Bit16(bytes[2] as u16 * 0x100 + bytes[3] as u16))
        } else {
            Some(
                ShortUuid::Bit32(
                    bytes[0] as u32 * 0x100_0000 + bytes[1] as u32 * 0x1_0000 + bytes[2] as u32
                        * 0x100 + bytes[3] as u32,
                ),
            )
        }
    } else {
        Some(ShortUuid::Bit128(bytes))
    }
}

impl UuidModel {
    /// All sixteen bytes of the UUID, the most significant first.
    pub open spec fn expanded(self) -> Seq<u8> {
        match self {
            UuidModel::Bit16(id) => seq![0u8, 0u8, (id / 0x100) as u8, (id % 0x100) as u8]
                + BASE_UUID_SUFFIX@,
            UuidModel::Bit32(id) => seq![
                (id / 0x100_0000) as u8,
                (id / 0x1_0000 % 0x100) as u8,
                (id / 0x100 % 0x100) as u8,
                (id % 0x100) as u8,
            ] + BASE_UUID_SUFFIX@,
            UuidModel::Bit128(bytes) => bytes,
        }
    }

    /// The number of bytes that go over the air.
    pub open spec fn width(self) -> nat {
        match self {
            UuidModel::Bit16(_) => 2,
            UuidModel::Bit32(_) => 4,
            UuidModel::Bit128(_) => 16,
        }
    }

    /// The bytes that go over the air, the least significant first.
    pub open spec fn wire(self) -> Seq<u8> {
        match self {
            UuidModel::Bit16(id) => seq![(id % 0x100) as u8, (id / 0x100) as u8],
            UuidModel::Bit32(id) => seq![
                (id % 0x100) as u8,
                (id / 0x100 % 0x100) as u8,
                (id / 0x1_0000 % 0x100) as u8,
                (id / 0x100_0000) as u8,
            ],
            UuidModel::Bit128(bytes) => bytes.reverse(),
        }
    }

    /// The AD type of a complete list of service UUIDs of this width.
    pub open spec fn list_type(self) -> u8 {
        match self {
            UuidModel::Bit16(_) => 0x03,
            UuidModel::Bit32(_) => 0x05,
            UuidModel::Bit128(_) => 0x07,
        }
    }

    /// The AD type of service data under a UUID of this width.
    pub open spec fn data_type(self) -> u8 {
        match self {
            UuidModel::Bit16(_) => 0x16,
            UuidModel::Bit32(_) => 0x20,
            UuidModel::Bit128(_) => 0x21,
        }
    }
}

/// Writes a UUID, the least significant byte first.
pub(crate) fn push_uuid(out: &mut Vec<u8>, uuid: &ShortUuid)
    ensures
        final(out)@ == old(out)@ + uuid@.wire(),
{
    match uuid {
        ShortUuid::Bit16(id) => {
            out.push((*id % 0x100) as u8);
            out.push((*id / 0x100) as u8);
        },
        ShortUuid::Bit32(id) => {
            out.push((*id % 0x100) as u8);
            out.push((*id / 0x100 % 0x100) as u8);
            out.push((*id / 0x1_0000 % 0x100) as u8);
            out.push((*id / 0x100_0000) as u8);
        },
        ShortUuid::Bit128(bytes) => {
            let mut n: usize = 0;
            while n < 16
                invariant
                    n <= 16,
                    out@ == old(out)@ + bytes@.reverse().take(n as int),
                decreases 16 - n,
            {
                out.push(bytes[15 - n]);
                n += 1;
            }
            assert(bytes@.reverse().take(16) == bytes@.reverse());
        },
    }
}

/// The bytes of a number of four bytes.
proof fn lemma_four_bytes(a: u8, b: u8, c: u8, d: u8)
    ensures
        ({
            let id = (a * 0x100_0000 + b * 0x1_0000 + c * 0x100 + d) as u32;
            &&& id / 0x100_0000 == a
            &&& id / 0x1_0000 % 0x100 == b
            &&& id / 0x100 % 0x100 == c
            &&& id % 0x100 == d
        }),
{
    let id = (a * 0x100_0000 + b * 0x1_0000 + c * 0x100 + d) as u32;
    assert(id == a * 0x100_0000 + b * 0x1_0000 + c * 0x100 + d);
    assert(id / 0x100 == a * 0x1_0000 + b * 0x100 + c);
    assert(id / 0x1_0000 == a * 0x100 + b);
}

/// What the short form says of the bytes it was made of.
proof fn lemma_shorten(bytes: Seq<u8>)
    requires
        bytes.len() == 16,
    ensures
        match shorten(bytes) {
            UuidModel::Bit16(id) => {
                &&& bytes.skip(4) == BASE_UUID_SUFFIX@
                &&& bytes[0] == 0 && bytes[1] == 0
                &&& bytes[2] == id / 0x100 && bytes[3] == id % 0x100
            },
            UuidModel::Bit32(id) => {
                &&& bytes.skip(4) == BASE_UUID_SUFFIX@
                &&& bytes[0] == id / 0x100_0000 && bytes[1] == id / 0x1_0000 % 0x100
                &&& bytes[2] == id / 0x100 % 0x100 && bytes[3] == id % 0x100
            },
            UuidModel::Bit128(all) => all == bytes,
        },
{
    lemma_four_bytes(bytes[0], bytes[1], bytes[2], bytes[3]);
}

/// Shortening loses nothing: the short form stands for the bytes that the text
/// writes.
pub proof fn law_short_form_is_lossless(text: Seq<char>)
    ensures
        uuid_of(text) is Some <==> uuid_bytes(text) is Some,
        uuid_of(text) matches Some(uuid) ==> uuid.expanded() == uuid_bytes(text)->0,
{
    if let Some(bytes) = uuid_bytes(text) {
        let uuid = shorten(bytes);
        lemma_shorten(bytes);
        assert(bytes == bytes.take(4) + bytes.skip(4));
        assert(bytes.take(4) == seq![bytes[0], bytes[1], bytes[2], bytes[3]]);
    }
}

/// The short form is the shortest there is: 16 bits for every UUID that has
/// them, 32 bits only for a number that 16 do not hold, all bytes only for a
/// UUID that is not made from the base UUID.
pub proof fn law_short_form_is_shortest(text: Seq<char>)
    ensures
        uuid_of(text) matches Some(UuidModel::Bit32(id)) ==> id >= 0x1_0000,
        uuid_of(text) matches Some(UuidModel::Bit128(bytes)) ==> bytes.len() == 16 && bytes.skip(4)
            != BASE_UUID_SUFFIX@,
{
}

/// Over the air a UUID is its short form, the least significant byte first: the
/// third and fourth byte, the first four bytes, or all of them, in reverse.
pub proof fn law_wire_is_reversed(text: Seq<char>)
    ensures
        uuid_of(text) matches Some(uuid) ==> {
            let bytes = uuid_bytes(text)->0;
            &&& uuid.wire().len() == uuid.width()
            &&& uuid.wire() == (match uuid {
                UuidModel::Bit16(_) => bytes.subrange(2, 4).reverse(),
                UuidModel::Bit32(_) => bytes.subrange(0, 4).reverse(),
                UuidModel::Bit128(_) => bytes.reverse(),
            })
        },
{
    if let Some(bytes) = uuid_bytes(text) {
        let uuid = shorten(bytes);
        lemma_shorten(bytes);
        if uuid is Bit16 {
            assert(uuid.wire() == seq![bytes[3], bytes[2]]);
            assert(uuid.wire() == bytes.subrange(2, 4).reverse());
        } else if uuid is Bit32 {
            assert(uuid.wire() == seq![bytes[3], bytes[2], bytes[1], bytes[0]]);
            assert(uuid.wire() == bytes.subrange(0, 4).reverse());
        }
    }
}

/// Bytes as hexadecimal digits in lower case.
pub open spec fn digits(bytes: Seq<u8>) -> Seq<char> {
    Seq::new(
        2 * bytes.len(),
        |k: int|
            text::lower_digits()[if k % 2 == 0 {
                bytes[k / 2] as int / 16
            } else {
                bytes[k / 2] as int % 16
            }],
    )
}

/// The canonical text of a UUID: groups of eight, four, four, four and twelve
/// digits with dashes between them.
pub open spec fn canonical(bytes: Seq<u8>) -> Seq<char> {
    digits(bytes.subrange(0, 4)) + seq!['-'] + digits(bytes.subrange(4, 6)) + seq!['-'] + digits(
        bytes.subrange(6, 8),
    ) + seq!['-'] + digits(bytes.subrange(8, 10)) + seq!['-'] + digits(bytes.subrange(10, 16))
}

/// Digits are no dashes.
proof fn lemma_undashed_digits(bytes: Seq<u8>)
    ensures
        undashed(digits(bytes)) == digits(bytes),
{
    assert forall|k: int| 0 <= k < digits(bytes).len() implies #[trigger] digits(bytes)[k]
        != '-' by {
        text::lemma_digit_values(bytes[k / 2] as int / 16);
        text::lemma_digit_values(bytes[k / 2] as int % 16);
    }
    lemma_undashed(digits(bytes));
}

/// A text without dashes is left as it is.
proof fn lemma_undashed(text: Seq<char>)
    requires
        forall|k: int| 0 <= k < text.len() ==> #[trigger] text[k] != '-',
    ensures
        undashed(text) == text,
    decreases text.len(),
{
    reveal(Seq::filter);
    if text.len() > 0 {
        let rest = text.drop_last();
        assert forall|k: int| 0 <= k < rest.len() implies #[trigger] rest[k] != '-' by {
            assert(rest[k] == text[k]);
        }
        lemma_undashed(rest);
        assert(text[text.len() - 1] == text.last());
        assert(rest.push(text.last()) == text);
    }
}

/// A dash and a group of digits more.
proof fn lemma_undashed_group(head: Seq<char>, bytes: Seq<u8>, group: Seq<u8>)
    requires
        undashed(head) == digits(bytes),
    ensures
        undashed(head + seq!['-'] + digits(group)) == digits(bytes + group),
{
    let dash = seq!['-'];
    Seq::filter_distributes_over_add(head + dash, digits(group), |c: char| c != '-');
    Seq::filter_distributes_over_add(head, dash, |c: char| c != '-');
    assert(undashed(dash) == Seq::<char>::empty()) by {
        reveal(Seq::filter);
        assert(dash.drop_last() == Seq::<char>::empty());
        assert(undashed(Seq::<char>::empty()) == Seq::<char>::empty());
    }
    lemma_undashed_digits(group);
    assert(digits(bytes + group) == digits(bytes) + digits(group));
}

/// Two digits of a UUID are one of its bytes.
proof fn lemma_digits_read_back(bytes: Seq<u8>, i: int)
    requires
        0 <= i < bytes.len(),
    ensures
        text::hex_byte(digits(bytes).subrange(2 * i, 2 * i + 2)) == Some(bytes[i]),
{
    let pair = digits(bytes).subrange(2 * i, 2 * i + 2);
    let high = bytes[i] as int / 16;
    let low = bytes[i] as int % 16;
    text::lemma_digit_values(high);
    text::lemma_digit_values(low);
    assert(pair[0] == text::lower_digits()[high]);
    assert(pair[1] == text::lower_digits()[low]);
    text::lemma_two_digits(pair);
}

/// The canonical text of a UUID is read as that UUID.
pub proof fn law_canonical_text_reads_back(bytes: Seq<u8>)
    requires
        bytes.len() == 16,
    ensures
        uuid_bytes(canonical(bytes)) == Some(bytes),
        uuid_of(canonical(bytes)) == Some(shorten(bytes)),
{
    let dash = seq!['-'];
    let a = bytes.subrange(0, 4);
    let b = bytes.subrange(4, 6);
    let c = bytes.subrange(6, 8);
    let d = bytes.subrange(8, 10);
    let e = bytes.subrange(10, 16);
    let ab = digits(a) + dash + digits(b);
    let abc = ab + dash + digits(c);
    let abcd = abc + dash + digits(d);
    lemma_undashed_digits(a);
    lemma_undashed_group(digits(a), a, b);
    lemma_undashed_group(ab, a + b, c);
    lemma_undashed_group(abc, a + b + c, d);
    lemma_undashed_group(abcd, a + b + c + d, e);
    assert(a + b + c + d + e == bytes);
    let hex = undashed(canonical(bytes));
    assert(hex == digits(bytes));
    assert forall|i: int| 0 <= i < 16 implies text::hex_byte(
        #[trigger] hex.subrange(2 * i, 2 * i + 2),
    ) == Some(bytes[i]) by {
        lemma_digits_read_back(bytes, i);
    }
    assert(uuid_bytes(canonical(bytes))->0 == bytes);
}

/// A `ShortUuid` stands for the number or the bytes in it.
pub proof fn law_uuid_model(uuid: ShortUuid)
    ensures
        uuid matches ShortUuid::Bit16(id) ==> uuid@ == UuidModel::Bit16(id),
        uuid matches ShortUuid::Bit32(id) ==> uuid@ == UuidModel::Bit32(id),
        uuid matches ShortUuid::Bit128(bytes) ==> uuid@ == UuidModel::Bit128(bytes@),
{
}

/// Of a text, the dashes go and all other characters stay, in order.
pub proof fn law_only_dashes_go(first: Seq<char>, second: Seq<char>, c: char)
    ensures
        undashed(first + second) == undashed(first) + undashed(second),
        c != '-' ==> undashed(seq![c]) == seq![c],
        undashed(seq!['-']).len() == 0,
{
    Seq::filter_distributes_over_add(first, second, |c: char| c != '-');
    reveal(Seq::filter);
    assert(seq![c].drop_last() == Seq::<char>::empty());
    assert(seq!['-'].drop_last() == Seq::<char>::empty());
    assert(undashed(Seq::<char>::empty()) == Seq::<char>::empty());
}

/// A text writes sixteen bytes exactly where 32 characters of it are no dashes
/// and each two of those, from the first on, write a byte in hexadecimal.
pub proof fn law_uuid_is_sixteen_pairs(text: Seq<char>, bytes: Seq<u8>)
    ensures
        uuid_bytes(text) == Some(bytes) <==> {
            &&& undashed(text).len() == 32
            &&& bytes.len() == 16
            &&& forall|i: int|
                0 <= i < 16 ==> text::hex_byte(undashed(text).subrange(2 * i, 2 * i + 2)) == Some(
                    #[trigger] bytes[i],
                )
        },
{
    let hex = undashed(text);
    if hex.len() == 32 && bytes.len() == 16 && forall|i: int|
        0 <= i < 16 ==> text::hex_byte(hex.subrange(2 * i, 2 * i + 2)) == Some(
            #[trigger] bytes[i],
        ) {
        assert forall|i: int| 0 <= i < 16 implies text::hex_byte(
            #[trigger] hex.subrange(2 * i, 2 * i + 2),
        ) is Some by {
            assert(text::hex_byte(hex.subrange(2 * i, 2 * i + 2)) == Some(bytes[i]));
        }
        assert(uuid_bytes(text)->0 == bytes);
    }
    if uuid_bytes(text) == Some(bytes) {
        assert forall|i: int| 0 <= i < 16 implies text::hex_byte(
            hex.subrange(2 * i, 2 * i + 2),
        ) == Some(#[trigger] bytes[i]) by {
            assert(text::hex_byte(hex.subrange(2 * i, 2 * i + 2)) is Some);
        }
    }
}

/// A UUID that ends in the Bluetooth base UUID is a number: of 16 bits where its
/// first two bytes are zero, else of 32. Every other UUID is its sixteen bytes.
pub proof fn law_short_form_by_bytes(text: Seq<char>, id16: u16, id32: u32, all: Seq<u8>)
    ensures
        uuid_bytes(text) is None ==> uuid_of(text) is None,
        uuid_bytes(text) matches Some(bytes) ==> {
            let based = bytes.skip(4) == seq![
                0u8,
                0u8,
                0x10u8,
                0u8,
                0x80u8,
                0u8,
                0u8,
                0x80u8,
                0x5Fu8,
                0x9Bu8,
                0x34u8,
                0xFBu8,
            ];
            &&& uuid_of(text) is Some
            &&& uuid_of(text) == Some(UuidModel::Bit16(id16)) <==> based && bytes[0] == 0
                && bytes[1] == 0 && id16 == bytes[2] * 256 + bytes[3]
            &&& uuid_of(text) == Some(UuidModel::Bit32(id32)) <==> based && !(bytes[0] == 0
                && bytes[1] == 0) && id32 == bytes[0] * 16777216 + bytes[1] * 65536 + bytes[2] * 256
                + bytes[3]
            &&& uuid_of(text) == Some(UuidModel::Bit128(all)) <==> !based && all == bytes
        },
{
    let base = seq![
        0u8,
        0u8,
        0x10u8,
        0u8,
        0x80u8,
        0u8,
        0u8,
        0x80u8,
        0x5Fu8,
        0x9Bu8,
        0x34u8,
        0xFBu8,
    ];
    assert(BASE_UUID_SUFFIX@ == base);
    if let Some(bytes) = uuid_bytes(text) {
        let a = bytes[0];
        let b = bytes[1];
        let c = bytes[2];
        let d = bytes[3];
        assert((c * 0x100 + d) as u16 == c * 256 + d);
        assert((a * 0x100_0000 + b * 0x1_0000 + c * 0x100 + d) as u32 == a * 16777216 + b * 65536
            + c * 256 + d);
    }
}

/// Over the air a number is two or four bytes, the least significant first, and
/// sixteen bytes go from the last to the first.
pub proof fn law_wire_bytes(uuid: UuidModel)
    ensures
        uuid matches UuidModel::Bit16(id) ==> {
            let wire = uuid.wire();
            &&& wire.len() == 2
            &&& wire[0] + wire[1] * 256 == id
        },
        uuid matches UuidModel::Bit32(id) ==> {
            let wire = uuid.wire();
            &&& wire.len() == 4
            &&& wire[0] + wire[1] * 256 + wire[2] * 65536 + wire[3] * 16777216 == id
        },
        uuid matches UuidModel::Bit128(bytes) ==> {
            let wire = uuid.wire();
            &&& wire.len() == bytes.len()
            &&& forall|i: int|
                0 <= i < bytes.len() ==> #[trigger] wire[i] == bytes[bytes.len() - 1 - i]
        },
{
    if let UuidModel::Bit32(id) = uuid {
        let low = id % 0x1_0000;
        let high = id / 0x1_0000;
        assert(id / 0x100 % 0x100 == low / 0x100);
        assert(id % 0x100 == low % 0x100);
        assert(id / 0x100_0000 == high / 0x100);
    }
}

/// UUIDs of 16, 32 and 128 bits take two, four and sixteen bytes. Their complete
/// lists have the AD types 3, 5 and 7, data under them the AD types 0x16, 0x20
/// and 0x21.
pub proof fn law_widths_and_types(uuid: UuidModel)
    ensures
        uuid is Bit16 ==> uuid.width() == 2 && uuid.list_type() == 3 && uuid.data_type() == 0x16,
        uuid is Bit32 ==> uuid.width() == 4 && uuid.list_type() == 5 && uuid.data_type() == 0x20,
        uuid is Bit128 ==> uuid.width() == 16 && uuid.list_type() == 7 && uuid.data_type() == 0x21,
{
}

} // verus!
