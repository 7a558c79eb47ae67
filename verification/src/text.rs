//! Text: characters, splitting, and numbers written as digits.
use vstd::prelude::*;
use vstd::string::StrSliceExecFns;
use vstd::string::StringExecFns;

verus! {

/// The parts of `text` between the separators: one more than there are
/// separators, empty parts among them.
pub open spec fn split(text: Seq<char>, separator: char) -> Seq<Seq<char>>
    decreases text.len(),
{
    if text.len() == 0 {
        seq![Seq::empty()]
    } else {
        let parts = split(text.drop_last(), separator);
        if text.last() == separator {
            parts.push(Seq::empty())
        } else {
            parts.drop_last().push(parts.last().push(text.last()))
        }
    }
}

/// `parts` in order, with `separator` between each two neighbours.
pub open spec fn join(parts: Seq<Seq<char>>, separator: Seq<char>) -> Seq<char>
    decreases parts.len(),
{
    if parts.len() == 0 {
        Seq::empty()
    } else if parts.len() == 1 {
        parts[0]
    } else {
        join(parts.drop_last(), separator) + separator + parts.last()
    }
}

/// The value of a hexadecimal digit, in either case.
pub open spec fn hex_digit_value(c: char) -> Option<nat> {
    if '0' <= c <= '9' {
        Some((c as int - '0' as int) as nat)
    } else if 'a' <= c <= 'f' {
        Some((c as int - 'a' as int + 10) as nat)
    } else if 'A' <= c <= 'F' {
        Some((c as int - 'A' as int + 10) as nat)
    } else {
        None
    }
}

/// Whether `digits` are hexadecimal digits only.
pub open spec fn all_hex(digits: Seq<char>) -> bool {
    forall|i: int| 0 <= i < digits.len() ==> hex_digit_value(#[trigger] digits[i]) is Some
}

/// The number that hexadecimal `digits` write, the most significant first.
pub open spec fn hex_value(digits: Seq<char>) -> nat
    decreases digits.len(),
{
    if digits.len() == 0 {
        0
    } else {
        hex_value(digits.drop_last()) * 16 + hex_digit_value(digits.last())->0
    }
}

/// `text` without the plus sign that it may start with.
pub open spec fn unsigned_digits(text: Seq<char>) -> Seq<char> {
    if text.len() > 0 && text[0] == '+' {
        text.skip(1)
    } else {
        text
    }
}

/// The byte that `text` writes in hexadecimal: at least one digit, in either
/// case, behind a plus sign or not, with any number of leading zeros.
pub open spec fn hex_byte(text: Seq<char>) -> Option<u8> {
    let digits = unsigned_digits(text);
    if digits.len() > 0 && all_hex(digits) && hex_value(digits) <= u8::MAX {
        Some(hex_value(digits) as u8)
    } else {
        None
    }
}

/// The characters of `text`.
pub(crate) fn characters(text: &str) -> (chars: Vec<char>)
    ensures
        chars@ == text@,
{
    let mut chars: Vec<char> = Vec::new();
    for c in it: text.chars()
        invariant
            chars@ == it.seq().take(it.index() as int),
            it.seq() == text@,
    {
        chars.push(c);
        assert(it.seq().take(it.index() + 1) == it.seq().take(it.index() as int).push(c));
    }
    assert(text@.take(text@.len() as int) == text@);
    chars
}

/// Whether two texts have the same characters.
pub(crate) fn same_text(a: &str, b: &str) -> (same: bool)
    ensures
        same == (a@ == b@),
{
    a.to_owned() == b.to_owned()
}

/// The value of a hexadecimal digit, in either case.
fn read_hex_digit(c: char) -> (value: Option<u32>)
    ensures
        match value {
            Some(v) => hex_digit_value(c) == Some(v as nat) && v < 16,
            None => hex_digit_value(c) is None,
        },
{
    if '0' <= c && c <= '9' {
        Some(c as u32 - '0' as u32)
    } else if 'a' <= c && c <= 'f' {
        Some(c as u32 - 'a' as u32 + 10)
    } else if 'A' <= c && c <= 'F' {
        Some(c as u32 - 'A' as u32 + 10)
    } else {
        None
    }
}

/// More digits make the number no smaller.
proof fn lemma_hex_value_grows(digits: Seq<char>, n: int)
    requires
        0 <= n <= digits.len(),
    ensures
        hex_value(digits.take(n)) <= hex_value(digits),
    decreases digits.len() - n,
{
    if n < digits.len() {
        lemma_hex_value_grows(digits, n + 1);
        assert(digits.take(n + 1).drop_last() == digits.take(n));
    } else {
        assert(digits.take(n) == digits);
    }
}

/// Reads the characters from `from` up to `to` as a byte in hexadecimal.
pub(crate) fn read_hex_byte(chars: &Vec<char>, from: usize, to: usize) -> (byte: Option<u8>)
    requires
        from <= to <= chars@.len(),
    ensures
        byte == hex_byte(chars@.subrange(from as int, to as int)),
{
    let ghost text = chars@.subrange(from as int, to as int);
    let ghost digits = unsigned_digits(text);
    let start: usize = if from < to && chars[from] == '+' {
        from + 1
    } else {
        from
    };
    assert(digits == chars@.subrange(start as int, to as int));
    if start == to {
        return None;
    }
    let mut value: u32 = 0;
    let mut i: usize = start;
    while i < to
        invariant
            from <= start <= i <= to <= chars@.len(),
            text == chars@.subrange(from as int, to as int),
            digits == unsigned_digits(text),
            digits == chars@.subrange(start as int, to as int),
            start < to,
            all_hex(digits.take(i - start)),
            value == hex_value(digits.take(i - start)),
            value <= u8::MAX,
        decreases to - i,
    {
        let ghost n = i - start;
        assert(digits[n] == chars@[i as int]);
        assert(digits.take(n + 1).drop_last() == digits.take(n));
        match read_hex_digit(chars[i]) {
            Some(digit) => {
                value = value * 16 + digit;
                assert(value == hex_value(digits.take(n + 1)));
                assert(all_hex(digits.take(n + 1))) by {
                    assert forall|k: int| 0 <= k < n + 1 implies hex_digit_value(
                        #[trigger] digits.take(n + 1)[k],
                    ) is Some by {
                        if k < n {
                            assert(digits.take(n + 1)[k] == digits.take(n)[k]);
                        }
                    }
                }
                if value > u8::MAX as u32 {
                    proof {
                        lemma_hex_value_grows(digits, n + 1);
                    }
                    return None;
                }
            },
            None => {
                assert(!all_hex(digits));
                return None;
            },
        }
        i += 1;
    }
    assert(digits.take(to - start) == digits);
    Some(value as u8)
}

/// The parts of `text` between the separators.
pub(crate) fn split_text<'a>(text: &'a str, separator: char) -> (parts: Vec<&'a str>)
    ensures
        parts@.map_values(|part: &str| part@) == split(text@, separator),
{
    let chars = characters(text);
    let mut parts: Vec<&'a str> = Vec::new();
    let mut start: usize = 0;
    let mut i: usize = 0;
    let ghost view = |part: &str| part@;
    assert(text@.subrange(0, 0) == Seq::<char>::empty());
    assert(split(text@.take(0), separator) == parts@.map_values(view).push(text@.subrange(0, 0)));
    while i < chars.len()
        invariant
            chars@ == text@,
            start <= i <= chars@.len(),
            view == |part: &str| part@,
            split(text@.take(i as int), separator) == parts@.map_values(view).push(
                text@.subrange(start as int, i as int),
            ),
        decreases chars@.len() - i,
    {
        let ghost before = parts@.map_values(view);
        assert(text@.take(i + 1).drop_last() == text@.take(i as int));
        assert(before.push(text@.subrange(start as int, i as int)).drop_last() == before);
        assert(text@.subrange(start as int, i + 1) == text@.subrange(start as int, i as int).push(
            text@[i as int],
        ));
        if chars[i] == separator {
            let part = text.substring_char(start, i);
            parts.push(part);
            start = i + 1;
            assert(parts@.map_values(view) == before.push(part@));
            assert(text@.subrange(start as int, i + 1) == Seq::<char>::empty());
        }
        i += 1;
    }
    let ghost before = parts@.map_values(view);
    let part = text.substring_char(start, chars.len());
    parts.push(part);
    assert(parts@.map_values(view) == before.push(part@));
    assert(text@.take(text@.len() as int) == text@);
    parts
}

/// The sixteen digits in upper case.
pub open spec fn upper_digits() -> Seq<char> {
    "0123456789ABCDEF"@
}

/// The sixteen digits in lower case.
pub open spec fn lower_digits() -> Seq<char> {
    "0123456789abcdef"@
}

/// A byte as two hexadecimal digits in upper case.
pub open spec fn hex_pair(byte: u8) -> Seq<char> {
    seq![upper_digits()[byte as int / 16], upper_digits()[byte as int % 16]]
}

/// A 16-bit number as four hexadecimal digits in lower case.
pub open spec fn hex_quad(number: u16) -> Seq<char> {
    seq![
        lower_digits()[number as int / 4096],
        lower_digits()[number as int / 256 % 16],
        lower_digits()[number as int / 16 % 16],
        lower_digits()[number as int % 16],
    ]
}

/// A number in decimal, without leading zeros.
pub open spec fn decimal(number: nat) -> Seq<char>
    decreases number,
{
    if number < 10 {
        seq![upper_digits()[number as int]]
    } else {
        decimal(number / 10).push(upper_digits()[(number % 10) as int])
    }
}

/// Writes the digit `n` in upper case.
fn push_upper_digit(out: &mut String, n: usize)
    requires
        n < 16,
    ensures
        final(out)@ == old(out)@.push(upper_digits()[n as int]),
{
    proof {
        reveal_strlit("0123456789ABCDEF");
    }
    let digits = "0123456789ABCDEF";
    assert(digits.is_ascii());
    out.append(digits.substring_ascii(n, n + 1));
    assert(upper_digits().subrange(n as int, n + 1) == seq![upper_digits()[n as int]]);
}

/// Writes the digit `n` in lower case.
fn push_lower_digit(out: &mut String, n: usize)
    requires
        n < 16,
    ensures
        final(out)@ == old(out)@.push(lower_digits()[n as int]),
{
    proof {
        reveal_strlit("0123456789abcdef");
    }
    let digits = "0123456789abcdef";
    assert(digits.is_ascii());
    out.append(digits.substring_ascii(n, n + 1));
    assert(lower_digits().subrange(n as int, n + 1) == seq![lower_digits()[n as int]]);
}

/// Writes `byte` as two hexadecimal digits in upper case.
pub(crate) fn push_hex_pair(out: &mut String, byte: u8)
    ensures
        final(out)@ == old(out)@ + hex_pair(byte),
{
    push_upper_digit(out, (byte / 16) as usize);
    push_upper_digit(out, (byte % 16) as usize);
}

/// Writes `number` as four hexadecimal digits in lower case.
pub(crate) fn push_hex_quad(out: &mut String, number: u16)
    ensures
        final(out)@ == old(out)@ + hex_quad(number),
{
    push_lower_digit(out, (number / 4096) as usize);
    push_lower_digit(out, (number / 256 % 16) as usize);
    push_lower_digit(out, (number / 16 % 16) as usize);
    push_lower_digit(out, (number % 16) as usize);
}

/// Writes `number` in decimal.
pub(crate) fn push_decimal(out: &mut String, number: u64)
    ensures
        final(out)@ == old(out)@ + decimal(number as nat),
    decreases number,
{
    if number >= 10 {
        push_decimal(out, number / 10);
    }
    push_upper_digit(out, (number % 10) as usize);
}

/// There is always at least one part.
proof fn lemma_split_len(text: Seq<char>, separator: char)
    ensures
        split(text, separator).len() >= 1,
    decreases text.len(),
{
    if text.len() > 0 {
        lemma_split_len(text.drop_last(), separator);
    }
}

/// Splitting takes out the separators and nothing else: no part holds one, and
/// the parts joined by the separator are the text again.
pub proof fn law_split_then_join(text: Seq<char>, separator: char)
    ensures
        forall|i: int|
            0 <= i < split(text, separator).len() ==> !(#[trigger] split(
                text,
                separator,
            )[i]).contains(separator),
        join(split(text, separator), seq![separator]) == text,
    decreases text.len(),
{
    let parts = split(text, separator);
    if text.len() > 0 {
        let rest = text.drop_last();
        let before = split(rest, separator);
        lemma_split_len(rest, separator);
        law_split_then_join(rest, separator);
        assert(text == rest.push(text.last()));
        if text.last() == separator {
            assert(parts.drop_last() == before);
            assert forall|i: int| 0 <= i < parts.len() implies !(
            #[trigger] parts[i]).contains(separator) by {
                if i < before.len() {
                    assert(parts[i] == before[i]);
                }
            }
        } else {
            assert(parts.drop_last() == before.drop_last());
            assert forall|i: int| 0 <= i < parts.len() implies !(
            #[trigger] parts[i]).contains(separator) by {
                if i < before.len() - 1 {
                    assert(parts[i] == before[i]);
                } else {
                    let last = before.last();
                    assert(!last.contains(separator));
                    assert(parts[i] == last.push(text.last()));
                    if parts[i].contains(separator) {
                        let k = choose|k: int|
                            0 <= k < parts[i].len() && parts[i][k] == separator;
                        assert(last[k] == separator);
                    }
                }
            }
            assert(join(parts, seq![separator]) == join(before, seq![separator]).push(
                text.last(),
            ));
        }
    }
}

/// A text without the separator is one part.
pub(crate) proof fn lemma_split_one(text: Seq<char>, separator: char)
    requires
        !text.contains(separator),
    ensures
        split(text, separator) == seq![text],
    decreases text.len(),
{
    if text.len() > 0 {
        let rest = text.drop_last();
        assert(text[text.len() - 1] == text.last());
        assert(!rest.contains(separator)) by {
            if rest.contains(separator) {
                let k = choose|k: int| 0 <= k < rest.len() && rest[k] == separator;
                assert(text[k] == separator);
            }
        }
        lemma_split_one(rest, separator);
        assert(rest.push(text.last()) == text);
    } else {
        assert(text == Seq::<char>::empty());
    }
}

/// What follows a separator and holds none is the last part.
pub(crate) proof fn lemma_split_last(head: Seq<char>, separator: char, tail: Seq<char>)
    requires
        !tail.contains(separator),
    ensures
        split(head + seq![separator] + tail, separator) == split(head, separator).push(tail),
    decreases tail.len(),
{
    let text = head + seq![separator] + tail;
    if tail.len() == 0 {
        assert(text.drop_last() == head);
        assert(tail == Seq::<char>::empty());
    } else {
        let rest = tail.drop_last();
        assert(tail[tail.len() - 1] == tail.last());
        assert(!rest.contains(separator)) by {
            if rest.contains(separator) {
                let k = choose|k: int| 0 <= k < rest.len() && rest[k] == separator;
                assert(tail[k] == separator);
            }
        }
        lemma_split_last(head, separator, rest);
        assert(text.drop_last() == head + seq![separator] + rest);
        assert(split(head, separator).push(rest).drop_last() == split(head, separator));
        assert(rest.push(tail.last()) == tail);
    }
}

/// Parts that hold no separator come back, each as it was, when they are joined
/// by it and the text is split again.
pub proof fn law_join_then_split(parts: Seq<Seq<char>>, separator: char)
    requires
        parts.len() > 0,
        forall|i: int| 0 <= i < parts.len() ==> !(#[trigger] parts[i]).contains(separator),
    ensures
        split(join(parts, seq![separator]), separator) == parts,
    decreases parts.len(),
{
    if parts.len() == 1 {
        lemma_split_one(parts[0], separator);
        assert(parts == seq![parts[0]]);
    } else {
        let before = parts.drop_last();
        assert forall|i: int| 0 <= i < before.len() implies !(#[trigger] before[i]).contains(
            separator,
        ) by {
            assert(before[i] == parts[i]);
        }
        law_join_then_split(before, separator);
        assert(!parts[parts.len() - 1].contains(separator));
        lemma_split_last(join(before, seq![separator]), separator, parts.last());
        assert(before.push(parts.last()) == parts);
    }
}

/// The digits of both cases have their values.
pub(crate) proof fn lemma_digit_values(n: int)
    requires
        0 <= n < 16,
    ensures
        hex_digit_value(upper_digits()[n]) == Some(n as nat),
        hex_digit_value(lower_digits()[n]) == Some(n as nat),
        upper_digits()[n] != ':',
        lower_digits()[n] != '-',
{
    reveal_strlit("0123456789ABCDEF");
    reveal_strlit("0123456789abcdef");
    if n < 8 {
        assert(n == 0 || n == 1 || n == 2 || n == 3 || n == 4 || n == 5 || n == 6 || n == 7);
    } else {
        assert(n == 8 || n == 9 || n == 10 || n == 11 || n == 12 || n == 13 || n == 14 || n == 15);
    }
}

/// Two digits write the byte that they are in hexadecimal.
pub(crate) proof fn lemma_two_digits(pair: Seq<char>)
    requires
        pair.len() == 2,
        all_hex(pair),
    ensures
        hex_byte(pair) == Some(
            (hex_digit_value(pair[0])->0 * 16 + hex_digit_value(pair[1])->0) as u8,
        ),
        hex_digit_value(pair[0])->0 < 16,
        hex_digit_value(pair[1])->0 < 16,
{
    assert(hex_digit_value(pair[0]) is Some);
    assert(hex_digit_value(pair[1]) is Some);
    assert(unsigned_digits(pair) == pair);
    assert(pair.drop_last() == seq![pair[0]]);
    assert(pair.drop_last().drop_last() == Seq::<char>::empty());
    reveal_with_fuel(hex_value, 3);
    assert(hex_value(pair) == hex_digit_value(pair[0])->0 * 16 + hex_digit_value(pair[1])->0);
}

/// A byte written as a pair of digits reads as that byte.
pub proof fn law_hex_pair_reads_back(byte: u8)
    ensures
        hex_byte(hex_pair(byte)) == Some(byte),
        !hex_pair(byte).contains(':'),
{
    lemma_digit_values(byte as int / 16);
    lemma_digit_values(byte as int % 16);
    lemma_two_digits(hex_pair(byte));
}

/// A 16-bit number written in four digits is that number in hexadecimal.
pub proof fn law_hex_quad_reads_back(number: u16)
    ensures
        all_hex(hex_quad(number)),
        hex_value(hex_quad(number)) == number,
{
    let quad = hex_quad(number);
    let a = number as int / 4096;
    let b = number as int / 256 % 16;
    let c = number as int / 16 % 16;
    let d = number as int % 16;
    lemma_digit_values(a);
    lemma_digit_values(b);
    lemma_digit_values(c);
    lemma_digit_values(d);
    let first = lower_digits()[a];
    let second = lower_digits()[b];
    let third = lower_digits()[c];
    let fourth = lower_digits()[d];
    lemma_one_more_digit(Seq::empty(), first);
    lemma_one_more_digit(seq![first], second);
    lemma_one_more_digit(seq![first, second], third);
    lemma_one_more_digit(seq![first, second, third], fourth);
    assert(Seq::<char>::empty().push(first) == seq![first]);
    assert(seq![first].push(second) == seq![first, second]);
    assert(seq![first, second].push(third) == seq![first, second, third]);
    assert(seq![first, second, third].push(fourth) == quad);
    assert(a * 16 + b == number as int / 256);
    assert((a * 16 + b) * 16 + c == number as int / 16);
}

/// One more digit makes the number sixteen times as large and adds its value.
proof fn lemma_one_more_digit(digits: Seq<char>, digit: char)
    ensures
        hex_value(Seq::empty()) == 0,
        hex_value(digits.push(digit)) == hex_value(digits) * 16 + hex_digit_value(digit)->0,
{
    assert(digits.push(digit).drop_last() == digits);
}

/// Joining starts with nothing, takes one part as it is, and puts each further
/// part behind a separator.
pub proof fn law_join_part_by_part(
    parts: Seq<Seq<char>>,
    part: Seq<char>,
    separator: Seq<char>,
)
    ensures
        join(Seq::empty(), separator).len() == 0,
        join(seq![part], separator) == part,
        parts.len() > 0 ==> join(parts.push(part), separator) == join(parts, separator) + separator
            + part,
{
    assert(parts.push(part).drop_last() == parts);
}

/// The hexadecimal digits are the characters with the codes 48 to 57, 65 to 70
/// and 97 to 102, and no others. Their values are those of `0` to `9`, `A` to `F`
/// and `a` to `f`.
pub proof fn law_hex_digit_codes(c: char, n: nat)
    ensures
        hex_digit_value(c) == Some(n) <==> {
            ||| n < 10 && c as int == 48 + n
            ||| 10 <= n < 16 && (c as int == 55 + n || c as int == 87 + n)
        },
{
}

/// One digit writes its value. Behind a text that starts a number, one more digit
/// makes the byte sixteen times as large and adds its value; what does not fit a
/// byte is none, and what was no byte stays none. A plus sign may stand in front,
/// once, and is no number by itself.
pub proof fn law_hex_byte_digit_by_digit(text: Seq<char>, c: char)
    ensures
        hex_byte(Seq::empty()) is None,
        hex_byte(seq!['+']) is None,
        hex_byte(seq!['+', '+'] + text) is None,
        hex_byte(seq![c]) == (match hex_digit_value(c) {
            Some(digit) => Some(digit as u8),
            None => None,
        }),
        text.len() > 0 && text != seq!['+'] ==> hex_byte(text.push(c)) == (match (
            hex_byte(text),
            hex_digit_value(c),
        ) {
            (Some(byte), Some(digit)) => if byte * 16 + digit <= 255 {
                Some((byte * 16 + digit) as u8)
            } else {
                None
            },
            _ => None,
        }),
        text.len() > 0 && text[0] != '+' ==> hex_byte(seq!['+'] + text) == hex_byte(text),
{
    reveal_with_fuel(hex_value, 2);
    assert(unsigned_digits(seq!['+']) == Seq::<char>::empty());
    let twice = seq!['+', '+'] + text;
    assert(unsigned_digits(twice)[0] == '+');
    assert(seq![c].drop_last() == Seq::<char>::empty());
    if c == '+' {
        assert(unsigned_digits(seq![c]) == Seq::<char>::empty());
    } else {
        assert(unsigned_digits(seq![c]) == seq![c]);
        assert(seq![c][0] == c);
        assert(hex_digit_value(c) is Some ==> all_hex(seq![c]));
    }
    if text.len() > 0 && text[0] != '+' {
        assert(unsigned_digits(seq!['+'] + text) == text);
    }
    if text.len() > 0 && text != seq!['+'] {
        let digits = unsigned_digits(text);
        let more = unsigned_digits(text.push(c));
        assert(more == digits.push(c));
        assert(more.drop_last() == digits);
        if digits.len() == 0 {
            assert(text == seq!['+']);
        }
        assert(more[digits.len() as int] == c);
        if all_hex(more) {
            assert forall|i: int| 0 <= i < digits.len() implies hex_digit_value(
                #[trigger] digits[i],
            ) is Some by {
                assert(more[i] == digits[i]);
            }
        }
        if all_hex(digits) && hex_digit_value(c) is Some {
            assert(all_hex(more));
        }
    }
}

/// A byte is written as its two digits, the higher one first, with `A` to `F` in
/// upper case.
pub proof fn law_hex_pair_digits(byte: u8)
    ensures
        hex_pair(byte).len() == 2,
        hex_pair(byte)[0] as int == (if byte / 16 < 10 {
            48 + byte / 16
        } else {
            55 + byte / 16
        }),
        hex_pair(byte)[1] as int == (if byte % 16 < 10 {
            48 + byte % 16
        } else {
            55 + byte % 16
        }),
{
    lemma_digit_codes(byte as int / 16);
    lemma_digit_codes(byte as int % 16);
}

/// A 16-bit number is written as its four digits, the highest first, with `a` to
/// `f` in lower case.
pub proof fn law_hex_quad_digits(number: u16, i: int)
    requires
        0 <= i < 4,
    ensures
        hex_quad(number).len() == 4,
        ({
            let digit = if i == 0 {
                number / 4096
            } else if i == 1 {
                number / 256 % 16
            } else if i == 2 {
                number / 16 % 16
            } else {
                number % 16
            };
            hex_quad(number)[i] as int == if digit < 10 {
                48 + digit
            } else {
                87 + digit
            }
        }),
{
    lemma_digit_codes(number as int / 4096);
    lemma_digit_codes(number as int / 256 % 16);
    lemma_digit_codes(number as int / 16 % 16);
    lemma_digit_codes(number as int % 16);
}

/// A number below ten is one decimal digit. Ten times a number and a digit more
/// is the number in decimal with that digit behind it.
pub proof fn law_decimal_digit_by_digit(number: nat, digit: nat)
    requires
        digit < 10,
    ensures
        decimal(digit).len() == 1,
        decimal(digit)[0] as int == 48 + digit,
        number > 0 ==> {
            let longer = decimal(number * 10 + digit);
            &&& longer.len() == decimal(number).len() + 1
            &&& longer.drop_last() == decimal(number)
            &&& longer.last() as int == 48 + digit
        },
{
    lemma_digit_codes(digit as int);
    if number > 0 {
        let longer = number * 10 + digit;
        assert(longer / 10 == number);
        assert(longer % 10 == digit);
        assert(decimal(longer).drop_last() == decimal(number));
    }
}

/// The codes of the digits of both cases.
proof fn lemma_digit_codes(n: int)
    requires
        0 <= n < 16,
    ensures
        upper_digits()[n] as int == (if n < 10 {
            48 + n
        } else {
            55 + n
        }),
        lower_digits()[n] as int == (if n < 10 {
            48 + n
        } else {
            87 + n
        }),
{
    reveal_strlit("0123456789ABCDEF");
    reveal_strlit("0123456789abcdef");
    if n < 8 {
        assert(n == 0 || n == 1 || n == 2 || n == 3 || n == 4 || n == 5 || n == 6 || n == 7);
    } else {
        assert(n == 8 || n == 9 || n == 10 || n == 11 || n == 12 || n == 13 || n == 14 || n == 15);
    }
}

/// Different numbers have different digits.
pub proof fn law_decimal_tells_numbers_apart(first: nat, second: nat)
    ensures
        decimal(first) == decimal(second) ==> first == second,
    decreases first,
{
    if decimal(first) == decimal(second) {
        lemma_decimal_last(first);
        lemma_decimal_last(second);
        if first >= 10 && second >= 10 {
            law_decimal_tells_numbers_apart(first / 10, second / 10);
        }
    }
}

/// The last decimal digit of a number, and the digits before it.
proof fn lemma_decimal_last(number: nat)
    ensures
        decimal(number).len() >= 1,
        decimal(number).last() as int == 48 + number % 10,
        number < 10 ==> decimal(number).len() == 1,
        number >= 10 ==> decimal(number).drop_last() == decimal(number / 10) && decimal(
            number,
        ).len() > 1,
    decreases number,
{
    lemma_digit_codes((number % 10) as int);
    if number >= 10 {
        lemma_decimal_last(number / 10);
        assert(decimal(number).drop_last() == decimal(number / 10));
    }
}

} // verus!
