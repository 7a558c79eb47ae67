//! MAC addresses as text.
use crate::text;
use crate::text::{characters, push_hex_pair, read_hex_byte, split_text};
use vstd::prelude::*;
use vstd::string::StringExecFns;

verus! {

broadcast use vstd::seq_lib::group_seq_properties;

/// Why a text is no MAC address.
pub open spec fn wrong_part_count() -> Seq<char> {
    "Invalid MAC format: expected 6 hex bytes separated by ':'"@
}

/// The complaint about a part that is no hexadecimal byte.
pub open spec fn wrong_part(part: Seq<char>) -> Seq<char> {
    "Invalid hex byte: '"@ + part + "'"@
}

/// The bytes that `parts` write, or the complaint about the first part that is
/// no hexadecimal byte.
pub open spec fn mac_bytes(parts: Seq<Seq<char>>) -> Result<Seq<u8>, Seq<char>>
    decreases parts.len(),
{
    if parts.len() == 0 {
        Ok(Seq::empty())
    } else {
        match (mac_bytes(parts.drop_last()), text::hex_byte(parts.last())) {
            (Ok(bytes), Some(byte)) => Ok(bytes.push(byte)),
            (Ok(bytes), None) => Err(wrong_part(parts.last())),
            (Err(complaint), _) => Err(complaint),
        }
    }
}

/// The address that `text` writes as six hexadecimal bytes between colons, or
/// what is wrong with it.
pub open spec fn mac_address(text: Seq<char>) -> Result<Seq<u8>, Seq<char>> {
    let parts = text::split(text, ':');
    if parts.len() != 6 {
        Err(wrong_part_count())
    } else {
        mac_bytes(parts)
    }
}

/// The bytes of `mac` as pairs of hexadecimal digits.
pub open spec fn mac_pairs(mac: Seq<u8>) -> Seq<Seq<char>> {
    mac.map_values(|byte: u8| text::hex_pair(byte))
}

/// Writes the bytes of `mac` as pairs of hexadecimal digits in upper case, with
/// `sep` between them.
pub fn format_mac(mac: &[u8], sep: &str) -> (text: String)
    ensures
        text@ == text::join(mac_pairs(mac@), sep@),
{
    let mut text = String::new();
    let mut i: usize = 0;
    while i < mac.len()
        invariant
            i <= mac@.len(),
            text@ == text::join(mac_pairs(mac@).take(i as int), sep@),
        decreases mac@.len() - i,
    {
        let ghost pairs = mac_pairs(mac@);
        assert(pairs.take(i + 1).drop_last() == pairs.take(i as int));
        if i > 0 {
            text.append(sep);
        }
        push_hex_pair(&mut text, mac[i]);
        i += 1;
    }
    assert(mac_pairs(mac@).take(mac@.len() as int) == mac_pairs(mac@));
    text
}

/// Reads a MAC address: six bytes in hexadecimal, separated by colons.
pub fn parse_mac(s: &str) -> (mac: Result<[u8; 6], String>)
    ensures
        match mac {
            Ok(mac) => mac_address(s@) == Ok::<Seq<u8>, Seq<char>>(mac@),
            Err(complaint) => mac_address(s@) == Err::<Seq<u8>, Seq<char>>(complaint@),
        },
{
    let parts = split_text(s, ':');
    let ghost texts = text::split(s@, ':');
    assert(texts.len() == parts@.len());
    if parts.len() != 6 {
        return Err("Invalid MAC format: expected 6 hex bytes separated by ':'".to_owned());
    }
    let mut mac: [u8; 6] = [0u8; 6];
    let mut i: usize = 0;
    while i < 6
        invariant
            i <= 6,
            parts@.len() == 6,
            texts == text::split(s@, ':'),
            texts == parts@.map_values(|part: &str| part@),
            mac_bytes(texts.take(i as int)) == Ok::<Seq<u8>, Seq<char>>(mac@.take(i as int)),
        decreases 6 - i,
    {
        let chars = characters(parts[i]);
        assert(texts[i as int] == parts@[i as int]@);
        assert(chars@.subrange(0, chars@.len() as int) == chars@);
        assert(texts.take(i + 1).drop_last() == texts.take(i as int));
        match read_hex_byte(&chars, 0, chars.len()) {
            Some(byte) => {
                let ghost before = mac@;
                mac[i] = byte;
                assert(mac@.take(i + 1) == before.take(i as int).push(byte));
            },
            None => {
                let mut complaint = "Invalid hex byte: '".to_owned();
                complaint.append(parts[i]);
                complaint.append("'");
                proof {
                    lemma_first_complaint(texts, i + 1, complaint@);
                }
                return Err(complaint);
            },
        }
        i += 1;
    }
    assert(texts.take(6) == texts);
    assert(mac@.take(6) == mac@);
    Ok(mac)
}

/// What is wrong with the first parts stays wrong with all of them.
proof fn lemma_first_complaint(parts: Seq<Seq<char>>, n: int, complaint: Seq<char>)
    requires
        0 <= n <= parts.len(),
        mac_bytes(parts.take(n)) == Err::<Seq<u8>, Seq<char>>(complaint),
    ensures
        mac_bytes(parts) == Err::<Seq<u8>, Seq<char>>(complaint),
    decreases parts.len() - n,
{
    if n < parts.len() {
        assert(parts.take(n + 1).drop_last() == parts.take(n));
        lemma_first_complaint(parts, n + 1, complaint);
    } else {
        assert(parts.take(n) == parts);
    }
}

/// The pairs of digits of an address read as its bytes.
proof fn lemma_pairs_read_back(mac: Seq<u8>)
    ensures
        mac_bytes(mac_pairs(mac)) == Ok::<Seq<u8>, Seq<char>>(mac),
    decreases mac.len(),
{
    if mac.len() > 0 {
        let rest = mac.drop_last();
        lemma_pairs_read_back(rest);
        text::law_hex_pair_reads_back(mac.last());
        assert(mac_pairs(mac).drop_last() == mac_pairs(rest));
        assert(rest.push(mac.last()) == mac);
    } else {
        assert(mac == Seq::<u8>::empty());
    }
}

/// A MAC address that is written with colons is read back as it was.
pub proof fn law_format_then_parse(mac: Seq<u8>)
    requires
        mac.len() == 6,
    ensures
        mac_address(text::join(mac_pairs(mac), ":"@)) == Ok::<Seq<u8>, Seq<char>>(mac),
{
    reveal_strlit(":");
    assert(":"@ == seq![':']);
    let pairs = mac_pairs(mac);
    assert forall|i: int| 0 <= i < pairs.len() implies !(#[trigger] pairs[i]).contains(':') by {
        text::law_hex_pair_reads_back(mac[i]);
    }
    text::law_join_then_split(pairs, ':');
    lemma_pairs_read_back(mac);
}

/// Two characters for each byte, and the separators between them: so long is a
/// written address.
pub proof fn law_format_length(mac: Seq<u8>, sep: Seq<char>)
    ensures
        mac.len() == 0 ==> text::join(mac_pairs(mac), sep).len() == 0,
        mac.len() > 0 ==> text::join(mac_pairs(mac), sep).len() == 2 * mac.len() + (mac.len() - 1)
            * sep.len(),
    decreases mac.len(),
{
    if mac.len() > 1 {
        let rest = mac.drop_last();
        law_format_length(rest, sep);
        assert(mac_pairs(mac).drop_last() == mac_pairs(rest));
        assert((mac.len() - 1) * sep.len() == (rest.len() - 1) * sep.len() + sep.len())
            by (nonlinear_arith)
            requires
                mac.len() == rest.len() + 1,
        ;
    } else if mac.len() == 1 {
        assert((mac.len() - 1) * sep.len() == 0) by (nonlinear_arith)
            requires
                mac.len() == 1,
        ;
    }
}

/// What reads as a MAC address has six bytes.
pub proof fn law_mac_has_six_bytes(address: Seq<char>)
    ensures
        mac_address(address) matches Ok(mac) ==> mac.len() == 6,
{
    lemma_bytes_len(text::split(address, ':'));
}

/// One byte for each part.
proof fn lemma_bytes_len(parts: Seq<Seq<char>>)
    ensures
        mac_bytes(parts) matches Ok(mac) ==> mac.len() == parts.len(),
    decreases parts.len(),
{
    if parts.len() > 0 {
        lemma_bytes_len(parts.drop_last());
    }
}

/// A text reads as a MAC address exactly where it has six parts between colons
/// and each writes a byte in hexadecimal: those are the bytes of the address, in
/// order.
pub proof fn law_mac_is_its_six_parts(address: Seq<char>, mac: Seq<u8>)
    ensures
        mac_address(address) == Ok::<Seq<u8>, Seq<char>>(mac) <==> {
            let parts = text::split(address, ':');
            &&& parts.len() == 6
            &&& mac.len() == 6
            &&& forall|i: int|
                0 <= i < 6 ==> text::hex_byte(#[trigger] parts[i]) == Some(#[trigger] mac[i])
        },
{
    lemma_bytes_of_parts(text::split(address, ':'), mac);
}

/// A text with another number of parts than six is refused with one complaint;
/// else the complaint is about the first part that writes no byte, and quotes it.
pub proof fn law_mac_complaints(address: Seq<char>, i: int)
    ensures
        ({
            let parts = text::split(address, ':');
            &&& parts.len() != 6 ==> mac_address(address) == Err::<Seq<u8>, Seq<char>>(
                "Invalid MAC format: expected 6 hex bytes separated by ':'"@,
            )
            &&& parts.len() == 6 && 0 <= i < 6 && text::hex_byte(parts[i]) is None && (forall|k: int|
                0 <= k < i ==> text::hex_byte(#[trigger] parts[k]) is Some) ==> mac_address(address)
                == Err::<Seq<u8>, Seq<char>>("Invalid hex byte: '"@ + parts[i] + "'"@)
        }),
{
    let parts = text::split(address, ':');
    if parts.len() == 6 && 0 <= i < 6 && text::hex_byte(parts[i]) is None && (forall|k: int|
        0 <= k < i ==> text::hex_byte(#[trigger] parts[k]) is Some) {
        let head = parts.take(i);
        let bytes = Seq::new(i as nat, |k: int| text::hex_byte(parts[k])->0);
        assert forall|k: int| 0 <= k < i implies text::hex_byte(#[trigger] head[k]) == Some(
            #[trigger] bytes[k],
        ) by {
            assert(head[k] == parts[k]);
        }
        lemma_bytes_of_parts(head, bytes);
        assert(parts.take(i + 1).drop_last() == head);
        lemma_first_complaint(parts, i + 1, wrong_part(parts[i]));
    }
}

/// Parts read as bytes exactly where each part does.
proof fn lemma_bytes_of_parts(parts: Seq<Seq<char>>, mac: Seq<u8>)
    ensures
        mac_bytes(parts) == Ok::<Seq<u8>, Seq<char>>(mac) <==> {
            &&& mac.len() == parts.len()
            &&& forall|i: int|
                0 <= i < parts.len() ==> text::hex_byte(#[trigger] parts[i]) == Some(
                    #[trigger] mac[i],
                )
        },
    decreases parts.len(),
{
    lemma_bytes_len(parts);
    if parts.len() == 0 {
        assert(mac.len() == 0 ==> mac == Seq::<u8>::empty());
    } else if mac.len() == parts.len() {
        let head = parts.drop_last();
        let rest = mac.drop_last();
        lemma_bytes_of_parts(head, rest);
        assert(rest.push(mac.last()) == mac);
        if mac_bytes(parts) == Ok::<Seq<u8>, Seq<char>>(mac) {
            let before = mac_bytes(head)->Ok_0;
            assert(before == before.push(mac.last()).drop_last());
            assert forall|i: int| 0 <= i < parts.len() implies text::hex_byte(#[trigger] parts[i])
                == Some(#[trigger] mac[i]) by {
                if i < head.len() {
                    assert(head[i] == parts[i] && rest[i] == mac[i]);
                }
            }
        }
        if forall|i: int|
            0 <= i < parts.len() ==> text::hex_byte(#[trigger] parts[i]) == Some(#[trigger] mac[i]) {
            assert forall|i: int| 0 <= i < head.len() implies text::hex_byte(#[trigger] head[i])
                == Some(#[trigger] rest[i]) by {
                assert(head[i] == parts[i] && rest[i] == mac[i]);
            }
            assert(parts[parts.len() - 1] == parts.last() && mac[mac.len() - 1] == mac.last());
        }
    }
}

/// In a written address, byte number `i` stands at its place: two digits and a
/// separator for each byte before it, then its higher and its lower digit in
/// upper case, with the separator in front of it where it is not the first.
pub proof fn law_format_digits(mac: Seq<u8>, sep: Seq<char>, i: int)
    requires
        0 <= i < mac.len(),
    ensures
        ({
            let text = text::join(mac_pairs(mac), sep);
            let place = i * (2 + sep.len());
            let high = mac[i] / 16;
            let low = mac[i] % 16;
            &&& text[place] as int == if high < 10 {
                48 + high
            } else {
                55 + high
            }
            &&& text[place + 1] as int == if low < 10 {
                48 + low
            } else {
                55 + low
            }
            &&& i > 0 ==> text.subrange(place - sep.len(), place) == sep
        }),
    decreases mac.len(),
{
    let pairs = mac_pairs(mac);
    let text = text::join(pairs, sep);
    let n = mac.len() as int;
    let s = sep.len() as int;
    let place = i * (2 + s);
    text::law_hex_pair_digits(mac[i]);
    law_format_length(mac, sep);
    if n > 1 {
        let rest = mac.drop_last();
        assert(pairs.drop_last() == mac_pairs(rest));
        let head = text::join(mac_pairs(rest), sep);
        law_format_length(rest, sep);
        assert(head.len() == 2 * (n - 1) + (n - 2) * s);
        assert(text == head + sep + text::hex_pair(mac.last()));
        if i < n - 1 {
            law_format_digits(rest, sep, i);
            assert(place + 2 <= 2 * (n - 1) + (n - 2) * s) by (nonlinear_arith)
                requires
                    place == i * (2 + s),
                    0 <= i <= n - 2,
                    s >= 0,
            ;
            assert(i > 0 ==> place >= s) by (nonlinear_arith)
                requires
                    place == i * (2 + s),
                    i >= 0,
                    s >= 0,
            ;
            assert(place >= 0) by (nonlinear_arith)
                requires
                    place == i * (2 + s),
                    i >= 0,
                    s >= 0,
            ;
            assert(text[place] == head[place]);
            assert(text[place + 1] == head[place + 1]);
            if i > 0 {
                assert(text.subrange(place - s, place) == head.subrange(place - s, place));
            }
        } else {
            assert(place == head.len() + s) by (nonlinear_arith)
                requires
                    place == i * (2 + s),
                    i == n - 1,
                    head.len() == 2 * (n - 1) + (n - 2) * s,
            ;
            assert(text.subrange(place - s, place) == sep);
        }
    } else {
        assert(place == 0) by (nonlinear_arith)
            requires
                place == i * (2 + s),
                i == 0,
        ;
        assert(text == text::hex_pair(mac[0]));
    }
}

} // verus!
