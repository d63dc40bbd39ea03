//! Byte-level encodings: percent-encoding, hexadecimal digits and decimal ports.
use vstd::prelude::*;
use vstd::utf8::encode_utf8;

use crate::text::{is_ascii_digit, push_char};

verus! {

/// The bytes that percent-encoding leaves as they are: ASCII letters and
/// digits, `-`, `.`, `_` and `~` (RFC 3986 unreserved).
pub open spec fn is_unreserved(b: u8) -> bool {
    ||| (65 <= b && b <= 90)
    ||| (97 <= b && b <= 122)
    ||| (48 <= b && b <= 57)
    ||| b == 45
    ||| b == 46
    ||| b == 95
    ||| b == 126
}

/// The upper-case hexadecimal digit of `n < 16`.
pub open spec fn hex_upper(n: u8) -> char {
    if n < 10 {
        (n + 48) as char
    } else {
        (n + 55) as char
    }
}

/// The lower-case hexadecimal digit of `n < 16`.
pub open spec fn hex_lower(n: u8) -> char {
    if n < 10 {
        (n + 48) as char
    } else {
        (n + 87) as char
    }
}

/// The percent-encoding of one byte.
pub open spec fn percent_encode_byte(b: u8) -> Seq<char> {
    if is_unreserved(b) {
        seq![b as char]
    } else {
        seq!['%', hex_upper(b / 16), hex_upper(b % 16)]
    }
}

/// The percent-encoding of a byte string, byte by byte.
pub open spec fn percent_encode_bytes(bs: Seq<u8>) -> Seq<char>
    decreases bs.len(),
{
    if bs.len() == 0 {
        seq![]
    } else {
        percent_encode_bytes(bs.drop_last()) + percent_encode_byte(bs.last())
    }
}

/// The percent-encoding of the UTF-8 bytes of `s`.
pub open spec fn percent_encoded(s: Seq<char>) -> Seq<char> {
    percent_encode_bytes(encode_utf8(s))
}

/// Whether `c` may appear in percent-encoded text: an unreserved ASCII
/// character, `%`, or an upper-case hexadecimal digit.
pub open spec fn is_percent_encoded_char(c: char) -> bool {
    ||| ('A' <= c && c <= 'Z')
    ||| ('a' <= c && c <= 'z')
    ||| ('0' <= c && c <= '9')
    ||| c == '-'
    ||| c == '.'
    ||| c == '_'
    ||| c == '~'
    ||| c == '%'
}

/// Percent-encoded text holds only unreserved characters and `%` escapes, so
/// it never holds the `&`, `=`, `?`, `#` or spaces that would end a query
/// value early.
pub proof fn lemma_percent_encoded_chars(s: Seq<char>)
    ensures
        forall|i: int|
            0 <= i < percent_encoded(s).len() ==> is_percent_encoded_char(
                #[trigger] percent_encoded(s)[i],
            ),
{
    lemma_percent_encode_bytes_chars(encode_utf8(s));
}

proof fn lemma_percent_encode_bytes_chars(bs: Seq<u8>)
    ensures
        forall|i: int|
            0 <= i < percent_encode_bytes(bs).len() ==> is_percent_encoded_char(
                #[trigger] percent_encode_bytes(bs)[i],
            ),
    decreases bs.len(),
{
    if bs.len() > 0 {
        let front = bs.drop_last();
        let b = bs.last();
        lemma_percent_encode_bytes_chars(front);
        let e = percent_encode_byte(b);
        assert forall|i: int| 0 <= i < e.len() implies is_percent_encoded_char(#[trigger] e[i]) by {
            if !is_unreserved(b) {
                assert(b / 16 < 16);
                assert(b % 16 < 16);
            }
        }
        let whole = percent_encode_bytes(bs);
        assert(whole == percent_encode_bytes(front) + e);
        assert forall|i: int| 0 <= i < whole.len() implies is_percent_encoded_char(
            #[trigger] whole[i],
        ) by {
            if i < percent_encode_bytes(front).len() {
                assert(whole[i] == percent_encode_bytes(front)[i]);
            } else {
                assert(whole[i] == e[i - percent_encode_bytes(front).len()]);
            }
        }
    }
}

/// The value of a hexadecimal digit, in either case.
pub open spec fn hex_char_value(c: char) -> Option<u8> {
    if '0' <= c && c <= '9' {
        Some(((c as u32) - 48) as u8)
    } else if 'a' <= c && c <= 'f' {
        Some(((c as u32) - 87) as u8)
    } else if 'A' <= c && c <= 'F' {
        Some(((c as u32) - 55) as u8)
    } else {
        None
    }
}

/// Percent-decoding: `%` and two hexadecimal digits stand for the byte they
/// write; any other character stands for its own code.
pub open spec fn percent_decoded(s: Seq<char>) -> Seq<u8>
    decreases s.len(),
{
    if s.len() == 0 {
        seq![]
    } else if s.len() >= 3 && s[0] == '%' && hex_char_value(s[1]) is Some && hex_char_value(
        s[2],
    ) is Some {
        seq![
            (hex_char_value(s[1])->0 * 16 + hex_char_value(s[2])->0) as u8,
        ] + percent_decoded(s.skip(3))
    } else {
        seq![s[0] as u8] + percent_decoded(s.drop_first())
    }
}

/// The number of bytes of `bs` that percent-encoding escapes.
pub open spec fn escaped_count(bs: Seq<u8>) -> nat
    decreases bs.len(),
{
    if bs.len() == 0 {
        0
    } else {
        escaped_count(bs.drop_first()) + if is_unreserved(bs[0]) {
            0nat
        } else {
            1nat
        }
    }
}

proof fn lemma_percent_encode_bytes_front(bs: Seq<u8>)
    requires
        bs.len() > 0,
    ensures
        percent_encode_bytes(bs) == percent_encode_byte(bs[0]) + percent_encode_bytes(
            bs.drop_first(),
        ),
    decreases bs.len(),
{
    if bs.len() == 1 {
        assert(bs.drop_last() =~= Seq::<u8>::empty());
        assert(bs.drop_first() =~= Seq::<u8>::empty());
        assert(percent_encode_bytes(bs.drop_first()) =~= Seq::<char>::empty());
        assert(percent_encode_bytes(bs.drop_last()) =~= Seq::<char>::empty());
        assert(percent_encode_bytes(bs) =~= percent_encode_byte(bs[0]));
    } else {
        let front = bs.drop_last();
        lemma_percent_encode_bytes_front(front);
        assert(front.drop_first() =~= bs.drop_first().drop_last());
        assert(bs.drop_first().last() == bs.last());
        assert(front[0] == bs[0]);
        assert(percent_encode_bytes(bs) =~= percent_encode_byte(bs[0]) + percent_encode_bytes(
            bs.drop_first(),
        ));
    }
}

proof fn lemma_hex_upper_value(n: u8)
    requires
        n < 16,
    ensures
        hex_char_value(hex_upper(n)) == Some(n),
{
}

proof fn lemma_percent_decode_bytes(bs: Seq<u8>)
    ensures
        percent_decoded(percent_encode_bytes(bs)) == bs,
        percent_encode_bytes(bs).len() == bs.len() + 2 * escaped_count(bs),
    decreases bs.len(),
{
    if bs.len() == 0 {
        assert(percent_encode_bytes(bs) =~= Seq::<char>::empty());
    } else {
        let b = bs[0];
        let rest = bs.drop_first();
        lemma_percent_encode_bytes_front(bs);
        lemma_percent_decode_bytes(rest);
        let e = percent_encode_byte(b);
        let tail = percent_encode_bytes(rest);
        let whole = e + tail;
        if is_unreserved(b) {
            assert(whole[0] == b as char);
            assert(whole[0] != '%');
            assert(whole.drop_first() =~= tail);
            assert(percent_decoded(whole) == seq![(b as char) as u8] + percent_decoded(tail));
        } else {
            lemma_hex_upper_value(b / 16);
            lemma_hex_upper_value(b % 16);
            assert(whole[0] == '%');
            assert(whole[1] == hex_upper(b / 16));
            assert(whole[2] == hex_upper(b % 16));
            assert(whole.skip(3) =~= tail);
            assert(((b / 16) * 16 + b % 16) as u8 == b);
            assert(percent_decoded(whole) == seq![b] + percent_decoded(tail));
        }
        assert(seq![b] + rest =~= bs);
    }
}

/// Percent-decoding the percent-encoding of `s` gives back its UTF-8 bytes;
/// the encoding is two characters longer than those bytes for each byte it
/// escapes.
pub proof fn lemma_percent_decoding_undoes_encoding(s: Seq<char>)
    ensures
        percent_decoded(percent_encoded(s)) == encode_utf8(s),
        percent_encoded(s).len() == encode_utf8(s).len() + 2 * escaped_count(encode_utf8(s)),
{
    lemma_percent_decode_bytes(encode_utf8(s));
}

/// Lower-case hexadecimal, two digits per byte (`hex::encode`).
pub open spec fn hex_encoded(bs: Seq<u8>) -> Seq<char>
    decreases bs.len(),
{
    if bs.len() == 0 {
        seq![]
    } else {
        hex_encoded(bs.drop_last()) + seq![hex_lower(bs.last() / 16), hex_lower(bs.last() % 16)]
    }
}

/// The value of a hexadecimal digit byte, in either case.
pub open spec fn hex_digit_value(b: u8) -> Option<u8> {
    if 48 <= b && b <= 57 {
        Some((b - 48) as u8)
    } else if 97 <= b && b <= 102 {
        Some((b - 97 + 10) as u8)
    } else if 65 <= b && b <= 70 {
        Some((b - 65 + 10) as u8)
    } else {
        None
    }
}

/// The bytes that a hexadecimal byte string stands for (`hex::decode`):
/// `None` for an odd length or a byte that is not a hexadecimal digit.
pub open spec fn hex_decoded(bs: Seq<u8>) -> Option<Seq<u8>>
    decreases bs.len(),
{
    if bs.len() == 0 {
        Some(seq![])
    } else if bs.len() == 1 {
        None
    } else {
        match (
            hex_decoded(bs.take(bs.len() - 2)),
            hex_digit_value(bs[bs.len() - 2]),
            hex_digit_value(bs.last()),
        ) {
            (Some(front), Some(hi), Some(lo)) => Some(front.push((hi * 16 + lo) as u8)),
            _ => None,
        }
    }
}

/// The decimal value of a string of ASCII digits.
pub open spec fn decimal_value(d: Seq<char>) -> nat
    decreases d.len(),
{
    if d.len() == 0 {
        0
    } else {
        decimal_value(d.drop_last()) * 10 + ((d.last() as int) - 48) as nat
    }
}

pub open spec fn all_digits(d: Seq<char>) -> bool {
    forall|i: int| 0 <= i < d.len() ==> is_ascii_digit(#[trigger] d[i])
}

/// `str::parse::<u16>`: an optional `+`, then one or more ASCII digits whose
/// value fits in 16 bits.
pub open spec fn parse_u16(s: Seq<char>) -> Option<u16> {
    let d = if s.len() > 0 && s[0] == '+' {
        s.drop_first()
    } else {
        s
    };
    if d.len() == 0 || !all_digits(d) || decimal_value(d) > 65535 {
        None
    } else {
        Some(decimal_value(d) as u16)
    }
}

pub proof fn lemma_decimal_value_grows(d: Seq<char>, k: int)
    requires
        0 <= k <= d.len(),
        all_digits(d),
    ensures
        decimal_value(d.take(k)) <= decimal_value(d),
    decreases d.len() - k,
{
    if k < d.len() {
        let t = d.take(k + 1);
        assert(t.drop_last() =~= d.take(k));
        assert(is_ascii_digit(d[k]));
        lemma_decimal_value_grows(d, k + 1);
        if k + 1 == d.len() {
            assert(t =~= d);
        }
    } else {
        assert(d.take(k) =~= d);
    }
}

/// Whether `c` is a lower-case hexadecimal digit.
pub open spec fn is_lower_hex_digit(c: char) -> bool {
    ('0' <= c && c <= '9') || ('a' <= c && c <= 'f')
}

proof fn lemma_hex_lower_digit(n: u8)
    requires
        n < 16,
    ensures
        is_lower_hex_digit(hex_lower(n)),
        hex_lower(n) as u32 == (if n < 10 { n + 48 } else { n + 87 }),
        hex_digit_value(hex_lower(n) as u8) == Some(n),
{
}

/// `hex_encoded` writes two digits per byte, the high half first, and only
/// lower-case hexadecimal digits.
pub proof fn lemma_hex_encoded_digits(bs: Seq<u8>)
    ensures
        hex_encoded(bs).len() == 2 * bs.len(),
        forall|i: int|
            #![trigger bs[i]]
            0 <= i < bs.len() ==> hex_encoded(bs)[2 * i] == hex_lower(bs[i] / 16)
                && hex_encoded(bs)[2 * i + 1] == hex_lower(bs[i] % 16),
        forall|j: int|
            0 <= j < hex_encoded(bs).len() ==> is_lower_hex_digit(#[trigger] hex_encoded(bs)[j]),
    decreases bs.len(),
{
    if bs.len() > 0 {
        let front = bs.drop_last();
        let b = bs.last();
        lemma_hex_encoded_digits(front);
        lemma_hex_lower_digit(b / 16);
        lemma_hex_lower_digit(b % 16);
        let s = hex_encoded(bs);
        assert(s == hex_encoded(front) + seq![hex_lower(b / 16), hex_lower(b % 16)]);
        assert forall|i: int| #![trigger bs[i]] 0 <= i < bs.len() implies s[2 * i] == hex_lower(
            bs[i] / 16,
        ) && s[2 * i + 1] == hex_lower(bs[i] % 16) by {
            if i < front.len() {
                assert(front[i] == bs[i]);
            }
        }
    }
}

proof fn lemma_hex_decoded_bytes(bs: Seq<u8>, e: Seq<u8>)
    requires
        e.len() == 2 * bs.len(),
        forall|i: int|
            #![trigger bs[i]]
            0 <= i < bs.len() ==> e[2 * i] == hex_lower(bs[i] / 16) as u8 && e[2 * i + 1]
                == hex_lower(bs[i] % 16) as u8,
    ensures
        hex_decoded(e) == Some(bs),
    decreases bs.len(),
{
    if bs.len() > 0 {
        let front = bs.drop_last();
        let b = bs.last();
        let ef = e.take(e.len() - 2);
        assert forall|i: int| #![trigger front[i]] 0 <= i < front.len() implies ef[2 * i]
            == hex_lower(front[i] / 16) as u8 && ef[2 * i + 1] == hex_lower(front[i] % 16) as u8 by {
            assert(front[i] == bs[i]);
        }
        lemma_hex_decoded_bytes(front, ef);
        lemma_hex_lower_digit(b / 16);
        lemma_hex_lower_digit(b % 16);
        assert(bs[bs.len() - 1] == b);
        assert(e[e.len() - 2] == hex_lower(b / 16) as u8);
        assert(e.last() == hex_lower(b % 16) as u8);
        assert(((b / 16) * 16 + b % 16) as u8 == b);
        assert(front.push(b) =~= bs);
    }
}

/// Reading back what `hex_encoded` wrote gives the bytes again.
pub proof fn lemma_hex_roundtrip(bs: Seq<u8>)
    ensures
        hex_decoded(encode_utf8(hex_encoded(bs))) == Some(bs),
{
    let s = hex_encoded(bs);
    lemma_hex_encoded_digits(bs);
    assert(vstd::utf8::is_ascii_chars(s)) by {
        assert forall|j: int| 0 <= j < s.len() implies '\0' <= #[trigger] s[j] <= '\u{7f}' by {
            assert(is_lower_hex_digit(s[j]));
        }
    }
    vstd::utf8::is_ascii_chars_encode_utf8(s);
    let e = encode_utf8(s);
    assert forall|i: int| #![trigger bs[i]] 0 <= i < bs.len() implies e[2 * i] == hex_lower(
        bs[i] / 16,
    ) as u8 && e[2 * i + 1] == hex_lower(bs[i] % 16) as u8 by {
        assert(s[2 * i] == hex_lower(bs[i] / 16));
        assert(e[2 * i] == s[2 * i] as u8);
        assert(e[2 * i + 1] == s[2 * i + 1] as u8);
    }
    lemma_hex_decoded_bytes(bs, e);
}

pub fn hex_upper_exec(n: u8) -> (c: char)
    requires
        n < 16,
    ensures
        c == hex_upper(n),
{
    if n < 10 {
        (n + 48) as char
    } else {
        (n + 55) as char
    }
}

/// Percent-encodes `value` byte by byte, leaving unreserved bytes unchanged
/// and writing every other byte as `%` and two upper-case hexadecimal digits.
pub fn percent_encode(value: &str) -> (encoded: String)
    ensures
        encoded@ == percent_encoded(value@),
{
    let bytes = value.as_bytes();
    let mut encoded = String::new();
    let mut i: usize = 0;
    while i < bytes.len()
        invariant
            i <= bytes@.len(),
            bytes@ == encode_utf8(value@),
            encoded@ == percent_encode_bytes(bytes@.take(i as int)),
        decreases bytes@.len() - i,
    {
        let b = bytes[i];
        let ghost before = encoded@;
        if (65 <= b && b <= 90) || (97 <= b && b <= 122) || (48 <= b && b <= 57) || b
            == 45 || b == 46 || b == 95 || b == 126 {
            push_char(&mut encoded, b as char);
        } else {
            push_char(&mut encoded, '%');
            push_char(&mut encoded, hex_upper_exec(b / 16));
            push_char(&mut encoded, hex_upper_exec(b % 16));
        }
        proof {
            let t = bytes@.take(i as int + 1);
            assert(t.drop_last() =~= bytes@.take(i as int));
            assert(encoded@ =~= before + percent_encode_byte(b));
        }
        i += 1;
    }
    assert(bytes@.take(bytes@.len() as int) =~= bytes@);
    encoded
}

/// `str::parse::<u16>` of `v[from..to]`.
pub fn parse_u16_range(v: &Vec<char>, from: usize, to: usize) -> (r: Option<u16>)
    requires
        from <= to <= v.len(),
    ensures
        r == parse_u16(v@.subrange(from as int, to as int)),
{
    let ghost s = v@.subrange(from as int, to as int);
    let mut start = from;
    if from < to && v[from] == '+' {
        start = from + 1;
    }
    let ghost d = v@.subrange(start as int, to as int);
    assert(d =~= (if s.len() > 0 && s[0] == '+' {
        s.drop_first()
    } else {
        s
    }));
    if start == to {
        return None;
    }
    let mut value: u32 = 0;
    let mut i = start;
    while i < to
        invariant
            from <= start <= i <= to <= v.len(),
            d == v@.subrange(start as int, to as int),
            d.len() > 0,
            parse_u16(v@.subrange(from as int, to as int)) == (if d.len() == 0 || !all_digits(d)
                || decimal_value(d) > 65535 {
                None
            } else {
                Some(decimal_value(d) as u16)
            }),
            forall|j: int| 0 <= j < i - start ==> is_ascii_digit(#[trigger] d[j]),
            value == decimal_value(d.take(i - start)),
            value <= 65535,
        decreases to - i,
    {
        let c = v[i];
        if !('0' <= c && c <= '9') {
            assert(d[i - start] == c);
            assert(!is_ascii_digit(d[i - start]));
            assert(!all_digits(d));
            return None;
        }
        let digit = (c as u32) - 48;
        proof {
            let t = d.take(i - start + 1);
            assert(t.drop_last() =~= d.take(i - start));
            assert(t.last() == c);
        }
        value = value * 10 + digit;
        i += 1;
        if value > 65535 {
            proof {
                if all_digits(d) {
                    lemma_decimal_value_grows(d, i - start);
                }
            }
            return None;
        }
    }
    assert(d.take(i - start) =~= d);
    Some(value as u16)
}


/// The decimal digits of `n`, without leading zeros.
pub open spec fn decimal_text(n: nat) -> Seq<char>
    decreases n,
{
    if n < 10 {
        seq![((n + 48) as u8) as char]
    } else {
        decimal_text(n / 10).push((((n % 10) + 48) as u8) as char)
    }
}

fn push_decimal(out: &mut Vec<char>, n: u64)
    ensures
        final(out)@ == old(out)@ + decimal_text(n as nat),
    decreases n,
{
    if n >= 10 {
        push_decimal(out, n / 10);
    }
    let d = (n % 10) as u8;
    out.push((d + 48) as char);
}

/// `n` written in decimal, as `format!("{n}")` writes it.
pub fn decimal_string(n: u64) -> (s: Vec<char>)
    ensures
        s@ == decimal_text(n as nat),
{
    let mut out: Vec<char> = Vec::new();
    push_decimal(&mut out, n);
    assert(out@ =~= decimal_text(n as nat));
    out
}

/// `hex::encode`: two lower-case hexadecimal digits per byte, most
/// significant digit first.
#[verifier::external_body]
pub(crate) fn hex_encode(bytes: &[u8]) -> (s: String)
    ensures
        s@ == hex_encoded(bytes@),
{
    hex::encode(bytes)
}

/// `hex::decode` of the UTF-8 bytes of `s`: the decoded bytes when `s` has
/// an even number of bytes that are all hexadecimal digits (either case),
/// `None` otherwise (the crate's `OddLength` or `InvalidHexCharacter` error).
#[verifier::external_body]
pub(crate) fn hex_decode(s: &str) -> (r: Option<Vec<u8>>)
    ensures
        r matches Some(b) ==> hex_decoded(encode_utf8(s@)) == Some(b@),
        r is None ==> hex_decoded(encode_utf8(s@)) is None,
{
    hex::decode(s).ok()
}

/// `rand::random::<[u8; 32]>()`: 32 bytes from the thread-local random
/// generator of `rand`.  Only their number is claimed.
#[verifier::external_body]
pub(crate) fn random_bytes_32() -> (bytes: Vec<u8>)
    ensures
        bytes@.len() == 32,
{
    rand::random::<[u8; 32]>().to_vec()
}

} // verus!
