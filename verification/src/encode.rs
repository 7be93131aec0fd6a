//! The encodings that requests and digests are written in: hexadecimal, Base64 and
//! `application/x-www-form-urlencoded`.
use vstd::prelude::*;
use vstd::utf8::{encode_utf8, encode_utf8_decode_utf8};

use crate::dict::{entries, Entry};

verus! {

/// The lower-case hexadecimal digit for `v`, which is below sixteen.
pub open spec fn hex_lower(v: int) -> char {
    if v < 10 {
        (48 + v) as char
    } else {
        (97 + v - 10) as char
    }
}

/// The upper-case hexadecimal digit for `v`, which is below sixteen.
pub open spec fn hex_upper(v: int) -> char {
    if v < 10 {
        (48 + v) as char
    } else {
        (65 + v - 10) as char
    }
}

/// Two lower-case hexadecimal digits for each byte.
pub open spec fn hex_of(data: Seq<u8>) -> Seq<char> {
    Seq::new(
        2 * data.len(),
        |i: int|
            if i % 2 == 0 {
                hex_lower(data[i / 2] as int / 16)
            } else {
                hex_lower(data[i / 2] as int % 16)
            },
    )
}

/// The Base64 character for `v`, which is below sixty-four.
pub open spec fn base64_char(v: int) -> char {
    if v < 26 {
        (65 + v) as char
    } else if v < 52 {
        (97 + v - 26) as char
    } else if v < 62 {
        (48 + v - 52) as char
    } else if v == 62 {
        '+'
    } else {
        '/'
    }
}

/// Base64 with the standard alphabet and with padding: four characters for every
/// three bytes.
pub open spec fn base64_of(data: Seq<u8>) -> Seq<char>
    decreases data.len(),
{
    let a = data[0] as int;
    let b = data[1] as int;
    let c = data[2] as int;
    if data.len() == 0 {
        Seq::empty()
    } else if data.len() == 1 {
        seq![base64_char(a / 4), base64_char(a % 4 * 16), '=', '=']
    } else if data.len() == 2 {
        seq![base64_char(a / 4), base64_char(a % 4 * 16 + b / 16), base64_char(b % 16 * 4), '=']
    } else {
        seq![
            base64_char(a / 4),
            base64_char(a % 4 * 16 + b / 16),
            base64_char(b % 16 * 4 + c / 64),
            base64_char(c % 64),
        ] + base64_of(data.skip(3))
    }
}

/// Whether a byte stands for itself in a form: letters, digits and `*-._`.
pub open spec fn is_form_plain(byte: u8) -> bool {
    ||| 48 <= byte <= 57
    ||| 65 <= byte <= 90
    ||| 97 <= byte <= 122
    ||| byte == 42
    ||| byte == 45
    ||| byte == 46
    ||| byte == 95
}

/// A byte in a form: itself, a plus sign for a space, or a percent sign and two
/// upper-case hexadecimal digits.
pub open spec fn form_byte(byte: u8) -> Seq<char> {
    if is_form_plain(byte) {
        seq![byte as char]
    } else if byte == 32 {
        seq!['+']
    } else {
        seq!['%', hex_upper(byte as int / 16), hex_upper(byte as int % 16)]
    }
}

/// Bytes in a form, one after the other.
pub open spec fn form_bytes(bytes: Seq<u8>) -> Seq<char>
    decreases bytes.len(),
{
    if bytes.len() == 0 {
        Seq::empty()
    } else {
        form_byte(bytes[0]) + form_bytes(bytes.skip(1))
    }
}

/// A pair in a form: the UTF-8 bytes of key and value, with an equals sign between.
pub open spec fn form_pair(pair: Entry) -> Seq<char> {
    form_bytes(encode_utf8(pair.0)) + seq!['='] + form_bytes(encode_utf8(pair.1))
}

/// Pairs as a form: in their order, with ampersands between.
pub open spec fn form_of(pairs: Seq<Entry>) -> Seq<char>
    decreases pairs.len(),
{
    if pairs.len() == 0 {
        Seq::empty()
    } else if pairs.len() == 1 {
        form_pair(pairs[0])
    } else {
        form_pair(pairs[0]) + seq!['&'] + form_of(pairs.skip(1))
    }
}

/// `hex::encode` gives two lower-case hexadecimal digits for each byte. The length of the
/// result has to be one that a vector can have.
#[verifier::external_body]
pub(crate) fn hex_encode(data: &[u8]) -> (text: String)
    requires
        2 * data@.len() <= isize::MAX,
    ensures
        text@ == hex_of(data@),
{
    hex::encode(data)
}

/// `Engine::encode` of the engine `STANDARD` gives Base64 with the standard alphabet
/// and with padding. The length of the result has to be one that a vector can have.
#[verifier::external_body]
pub(crate) fn base64_encode(data: &[u8]) -> (text: String)
    requires
        (data@.len() + 2) / 3 * 4 <= isize::MAX,
    ensures
        text@ == base64_of(data@),
{
    base64::Engine::encode(&base64::prelude::BASE64_STANDARD, data)
}

/// `Serializer::extend_pairs` on an empty string, then `finish`, gives the pairs as a
/// form.
#[verifier::external_body]
pub(crate) fn form_encode(pairs: &Vec<(String, String)>) -> (form: String)
    ensures
        form@ == form_of(entries(pairs@)),
{
    url::form_urlencoded::Serializer::new(String::new()).extend_pairs(pairs).finish()
}

/// Bytes with the same hexadecimal digits are the same.
proof fn lemma_hex_digits(a: u8, b: u8)
    requires
        hex_lower(a as int / 16) == hex_lower(b as int / 16),
        hex_lower(a as int % 16) == hex_lower(b as int % 16),
    ensures
        a == b,
{
    let (p, q) = (a as int / 16, b as int / 16);
    let (r, s) = (a as int % 16, b as int % 16);
    assert(0 <= p < 16 && 0 <= q < 16 && 0 <= r < 16 && 0 <= s < 16);
    assert(p == q);
    assert(r == s);
}

/// Different bytes have different hexadecimal texts.
pub proof fn law_hex_is_injective(a: Seq<u8>, b: Seq<u8>)
    requires
        hex_of(a) == hex_of(b),
    ensures
        a == b,
{
    assert(hex_of(a).len() == 2 * a.len() && hex_of(b).len() == 2 * b.len());
    assert(a.len() == b.len());
    assert forall|i: int| 0 <= i < a.len() implies a[i] == b[i] by {
        assert((2 * i) / 2 == i && (2 * i) % 2 == 0);
        assert((2 * i + 1) / 2 == i && (2 * i + 1) % 2 == 1);
        assert(hex_of(a)[2 * i] == hex_lower(a[i] as int / 16));
        assert(hex_of(b)[2 * i] == hex_lower(b[i] as int / 16));
        assert(hex_of(a)[2 * i + 1] == hex_lower(a[i] as int % 16));
        assert(hex_of(b)[2 * i + 1] == hex_lower(b[i] as int % 16));
        lemma_hex_digits(a[i], b[i]);
    }
    assert(a =~= b);
}

/// Whether a character is a lower-case hexadecimal digit.
pub open spec fn is_hex_digit(c: char) -> bool {
    '0' <= c <= '9' || 'a' <= c <= 'f'
}

/// A hexadecimal text consists of lower-case hexadecimal digits.
pub proof fn law_hex_has_hex_digits(data: Seq<u8>)
    ensures
        forall|i: int| 0 <= i < hex_of(data).len() ==> is_hex_digit(#[trigger] hex_of(data)[i]),
{
    assert forall|i: int| 0 <= i < hex_of(data).len() implies is_hex_digit(
        #[trigger] hex_of(data)[i],
    ) by {
        let byte = data[i / 2] as int;
        assert(0 <= byte / 16 < 16 && 0 <= byte % 16 < 16);
    }
}

/// The value of a lower-case hexadecimal digit.
pub open spec fn hex_value(c: char) -> int {
    if c <= '9' {
        c as int - '0' as int
    } else {
        c as int - 'a' as int + 10
    }
}

/// Whether a text writes bytes in lower-case hexadecimal: it consists of two digits for each
/// byte, and their values make the byte.
pub open spec fn is_hex_of(text: Seq<char>, data: Seq<u8>) -> bool {
    &&& text.len() == 2 * data.len()
    &&& forall|i: int|
        0 <= i < data.len() ==> is_hex_digit(text[2 * i]) && is_hex_digit(text[2 * i + 1])
            && #[trigger] data[i] == 16 * hex_value(text[2 * i]) + hex_value(text[2 * i + 1])
}

/// The hexadecimal text of bytes writes those bytes.
pub proof fn law_hex_denotes_the_bytes(data: Seq<u8>)
    ensures
        is_hex_of(hex_of(data), data),
{
    let text = hex_of(data);
    law_hex_has_hex_digits(data);
    assert forall|i: int| 0 <= i < data.len() implies is_hex_digit(text[2 * i]) && is_hex_digit(
        text[2 * i + 1],
    ) && #[trigger] data[i] == 16 * hex_value(text[2 * i]) + hex_value(text[2 * i + 1]) by {
        let byte = data[i] as int;
        assert((2 * i) / 2 == i && (2 * i) % 2 == 0);
        assert((2 * i + 1) / 2 == i && (2 * i + 1) % 2 == 1);
        assert(text[2 * i] == hex_lower(byte / 16));
        assert(text[2 * i + 1] == hex_lower(byte % 16));
        assert(0 <= byte / 16 < 16 && 0 <= byte % 16 < 16);
        assert(byte == 16 * (byte / 16) + byte % 16);
    }
}

/// Different values have different Base64 characters, none of them the padding.
proof fn lemma_base64_char(v: int, w: int)
    requires
        0 <= v < 64,
        0 <= w < 64,
    ensures
        base64_char(v) == base64_char(w) <==> v == w,
        base64_char(v) != '=',
{
}

/// The first three bytes, or as many as there are, follow from the first four
/// characters of the Base64 text.
proof fn lemma_base64_group(a: Seq<u8>, b: Seq<u8>)
    requires
        a.len() > 0,
        b.len() > 0,
        forall|i: int| 0 <= i < 4 ==> base64_of(a)[i] == base64_of(b)[i],
    ensures
        a.len() >= 3 <==> b.len() >= 3,
        a.len() < 3 ==> a.len() == b.len(),
        forall|i: int| 0 <= i < 3 && i < a.len() ==> a[i] == b[i],
{
    let (p, q, r) = (
        a[0] as int,
        if a.len() > 1 {
            a[1] as int
        } else {
            0
        },
        if a.len() > 2 {
            a[2] as int
        } else {
            0
        },
    );
    let (x, y, z) = (
        b[0] as int,
        if b.len() > 1 {
            b[1] as int
        } else {
            0
        },
        if b.len() > 2 {
            b[2] as int
        } else {
            0
        },
    );
    let (s, t) = (base64_of(a), base64_of(b));
    assert(s[0] == t[0] && s[1] == t[1] && s[2] == t[2] && s[3] == t[3]);
    lemma_base64_char(p / 4, x / 4);
    lemma_base64_char(p % 4 * 16 + q / 16, x % 4 * 16 + y / 16);
    lemma_base64_char(q % 16 * 4 + r / 64, y % 16 * 4 + z / 64);
    lemma_base64_char(y % 16 * 4 + z / 64, q % 16 * 4 + r / 64);
    lemma_base64_char(r % 64, z % 64);
    lemma_base64_char(z % 64, r % 64);
}

/// Different bytes have different Base64 texts.
pub proof fn law_base64_is_injective(a: Seq<u8>, b: Seq<u8>)
    requires
        base64_of(a) == base64_of(b),
    ensures
        a == b,
    decreases a.len(),
{
    if a.len() == 0 || b.len() == 0 {
        assert(a =~= b);
    } else {
        lemma_base64_group(a, b);
        if a.len() >= 3 {
            assert(base64_of(a.skip(3)) =~= base64_of(a).skip(4));
            assert(base64_of(b.skip(3)) =~= base64_of(b).skip(4));
            law_base64_is_injective(a.skip(3), b.skip(3));
            assert(a =~= a.take(3) + a.skip(3));
            assert(b =~= b.take(3) + b.skip(3));
            assert(a.take(3) =~= b.take(3));
        }
        assert(a =~= b);
    }
}

/// A form writes bytes with letters, digits and `*-._+%` only.
pub open spec fn is_form_char(c: char) -> bool {
    ||| '0' <= c <= '9'
    ||| 'A' <= c <= 'Z'
    ||| 'a' <= c <= 'z'
    ||| c == '*'
    ||| c == '-'
    ||| c == '.'
    ||| c == '_'
    ||| c == '+'
    ||| c == '%'
}

/// Bytes in a form are written with form characters.
proof fn lemma_form_chars(bytes: Seq<u8>)
    ensures
        forall|i: int| 0 <= i < form_bytes(bytes).len() ==> is_form_char(#[trigger] form_bytes(bytes)[i]),
    decreases bytes.len(),
{
    if bytes.len() > 0 {
        lemma_form_chars(bytes.skip(1));
        let head = form_byte(bytes[0]);
        let tail = form_bytes(bytes.skip(1));
        assert forall|i: int| 0 <= i < head.len() implies is_form_char(#[trigger] head[i]) by {
            assert(0 <= bytes[0] as int / 16 < 16);
        }
        assert forall|i: int| 0 <= i < (head + tail).len() implies is_form_char(
            #[trigger] (head + tail)[i],
        ) by {
            if i < head.len() {
                assert((head + tail)[i] == head[i]);
            } else {
                assert((head + tail)[i] == tail[i - head.len()]);
            }
        }
    }
}

/// Different bytes are written differently in a form.
proof fn lemma_form_bytes_injective(a: Seq<u8>, b: Seq<u8>)
    requires
        form_bytes(a) == form_bytes(b),
    ensures
        a == b,
    decreases a.len(),
{
    let x = form_bytes(a);
    if a.len() == 0 || b.len() == 0 {
        assert(a.len() > 0 ==> form_byte(a[0]).len() > 0);
        assert(b.len() > 0 ==> form_byte(b[0]).len() > 0);
        assert(a =~= b);
    } else {
        let p = form_byte(a[0]);
        let q = form_byte(b[0]);
        assert(x[0] == p[0] && x[0] == q[0]);
        assert(p.len() == q.len());
        if p.len() == 3 {
            assert(x[1] == p[1] && x[1] == q[1]);
            assert(x[2] == p[2] && x[2] == q[2]);
        }
        assert(a[0] == b[0]);
        assert(form_bytes(a.skip(1)) =~= x.skip(p.len() as int));
        assert(form_bytes(b.skip(1)) =~= x.skip(p.len() as int));
        lemma_form_bytes_injective(a.skip(1), b.skip(1));
        assert forall|i: int| 0 <= i < a.len() implies a[i] == b[i] by {
            if i > 0 {
                assert(a[i] == a.skip(1)[i - 1] && b[i] == b.skip(1)[i - 1]);
            }
        }
        assert(a =~= b);
    }
}

/// Where the head does not hold the separator, a text splits in one way only.
proof fn lemma_split(x: Seq<char>, y: Seq<char>, p: Seq<char>, q: Seq<char>, c: char)
    requires
        x + seq![c] + y == p + seq![c] + q,
        !x.contains(c),
        !p.contains(c),
    ensures
        x == p,
        y == q,
{
    let s = x + seq![c] + y;
    assert(s[x.len() as int] == c);
    assert(s[p.len() as int] == c);
    if x.len() < p.len() {
        assert(p[x.len() as int] == c);
    }
    if p.len() < x.len() {
        assert(x[p.len() as int] == c);
    }
    assert(x =~= s.take(x.len() as int));
    assert(p =~= s.take(x.len() as int));
    assert(y =~= s.skip(x.len() as int + 1));
    assert(q =~= s.skip(x.len() as int + 1));
}

/// A pair in a form holds no ampersand.
proof fn lemma_pair_has_no_ampersand(pair: Entry)
    ensures
        !form_pair(pair).contains('&'),
        form_pair(pair).len() > 0,
{
    let x = form_bytes(encode_utf8(pair.0));
    let y = form_bytes(encode_utf8(pair.1));
    lemma_form_chars(encode_utf8(pair.0));
    lemma_form_chars(encode_utf8(pair.1));
    let s = x + seq!['='] + y;
    assert forall|i: int| 0 <= i < s.len() implies s[i] != '&' by {
        if i < x.len() {
            assert(s[i] == x[i]);
        } else if i > x.len() {
            assert(s[i] == y[i - x.len() - 1]);
        }
    }
}

/// Different pairs are written differently in a form.
proof fn lemma_form_pair_injective(a: Entry, b: Entry)
    requires
        form_pair(a) == form_pair(b),
    ensures
        a == b,
{
    lemma_form_chars(encode_utf8(a.0));
    lemma_form_chars(encode_utf8(b.0));
    lemma_split(
        form_bytes(encode_utf8(a.0)),
        form_bytes(encode_utf8(a.1)),
        form_bytes(encode_utf8(b.0)),
        form_bytes(encode_utf8(b.1)),
        '=',
    );
    lemma_form_bytes_injective(encode_utf8(a.0), encode_utf8(b.0));
    lemma_form_bytes_injective(encode_utf8(a.1), encode_utf8(b.1));
    encode_utf8_decode_utf8(a.0);
    encode_utf8_decode_utf8(b.0);
    encode_utf8_decode_utf8(a.1);
    encode_utf8_decode_utf8(b.1);
}

/// A form is empty only where there are no pairs.
pub proof fn law_form_is_empty_without_pairs(pairs: Seq<Entry>)
    ensures
        form_of(pairs).len() == 0 <==> pairs.len() == 0,
{
    if pairs.len() > 0 {
        lemma_pair_has_no_ampersand(pairs[0]);
    }
}

/// A form consists of form characters, equals signs and ampersands, so that it can
/// stand in the query of a URL as it is.
pub proof fn law_form_fits_in_a_query(pairs: Seq<Entry>)
    ensures
        forall|i: int|
            0 <= i < form_of(pairs).len() ==> (is_form_char(#[trigger] form_of(pairs)[i])
                || form_of(pairs)[i] == '=' || form_of(pairs)[i] == '&'),
    decreases pairs.len(),
{
    if pairs.len() > 0 {
        let x = form_bytes(encode_utf8(pairs[0].0));
        let y = form_bytes(encode_utf8(pairs[0].1));
        lemma_form_chars(encode_utf8(pairs[0].0));
        lemma_form_chars(encode_utf8(pairs[0].1));
        law_form_fits_in_a_query(pairs.skip(1));
        let pair = form_pair(pairs[0]);
        assert forall|i: int| 0 <= i < pair.len() implies is_form_char(#[trigger] pair[i]) || pair[i]
            == '=' by {
            if i < x.len() {
                assert(pair[i] == x[i]);
            } else if i > x.len() {
                assert(pair[i] == y[i - x.len() - 1]);
            }
        }
        let s = form_of(pairs);
        let rest = form_of(pairs.skip(1));
        assert forall|i: int| 0 <= i < s.len() implies (is_form_char(#[trigger] s[i]) || s[i] == '='
            || s[i] == '&') by {
            if i < pair.len() {
                assert(s[i] == pair[i]);
            } else if i > pair.len() {
                assert(s[i] == rest[i - pair.len() - 1]);
            }
        }
    }
}

/// A form tells its pairs, in their order: different pairs give different forms.
pub proof fn law_form_is_injective(a: Seq<Entry>, b: Seq<Entry>)
    requires
        form_of(a) == form_of(b),
    ensures
        a == b,
    decreases a.len(),
{
    law_form_is_empty_without_pairs(a);
    law_form_is_empty_without_pairs(b);
    if a.len() == 0 || b.len() == 0 {
        assert(a =~= b);
    } else {
        lemma_pair_has_no_ampersand(a[0]);
        lemma_pair_has_no_ampersand(b[0]);
        if a.len() == 1 && b.len() == 1 {
            lemma_form_pair_injective(a[0], b[0]);
        } else if a.len() == 1 {
            assert(form_of(b)[form_pair(b[0]).len() as int] == '&');
        } else if b.len() == 1 {
            assert(form_of(a)[form_pair(a[0]).len() as int] == '&');
        } else {
            lemma_split(
                form_pair(a[0]),
                form_of(a.skip(1)),
                form_pair(b[0]),
                form_of(b.skip(1)),
                '&',
            );
            lemma_form_pair_injective(a[0], b[0]);
            law_form_is_injective(a.skip(1), b.skip(1));
            assert forall|i: int| 0 <= i < a.len() implies a[i] == b[i] by {
                if i > 0 {
                    assert(a[i] == a.skip(1)[i - 1] && b[i] == b.skip(1)[i - 1]);
                }
            }
        }
        assert(a =~= b);
    }
}

} // verus!
