//! Text as sequences of characters: decimal numbers, and the fields that a
//! separator cuts a text into.
use vstd::prelude::*;

verus! {

/// `String::push` appends one character to the end of the string.
pub assume_specification[ String::push ](s: &mut String, c: char)
    ensures
        final(s)@ == old(s)@.push(c),
;

/// The decimal digit for `d`, which is below ten.
pub open spec fn digit_char(d: int) -> char {
    (48 + d) as char
}

/// Whether `c` is one of the ten ASCII digits.
pub open spec fn is_digit(c: char) -> bool {
    '0' <= c <= '9'
}

/// `n` in decimal, without leading zeros.
pub open spec fn decimal(n: nat) -> Seq<char>
    decreases n,
{
    if n < 10 {
        seq![digit_char(n as int)]
    } else {
        decimal(n / 10).push(digit_char((n % 10) as int))
    }
}

/// `n` in decimal, with a minus sign where it is negative.
pub open spec fn signed_decimal(n: int) -> Seq<char> {
    if n < 0 {
        seq!['-'] + decimal((-n) as nat)
    } else {
        decimal(n as nat)
    }
}

/// The number that a sequence of decimal digits denotes.
pub open spec fn digits_value(s: Seq<char>) -> nat
    decreases s.len(),
{
    if s.len() == 0 {
        0
    } else {
        (digits_value(s.drop_last()) * 10 + (s.last() as int - 48)) as nat
    }
}

/// Whether every character of `s` is a digit.
pub open spec fn all_digits(s: Seq<char>) -> bool {
    forall|i: int| 0 <= i < s.len() ==> is_digit(#[trigger] s[i])
}

/// `s` without one leading plus sign.
pub open spec fn without_plus(s: Seq<char>) -> Seq<char> {
    if s.len() > 0 && s[0] == '+' {
        s.skip(1)
    } else {
        s
    }
}

/// The unsigned 64-bit number that a text holds: an optional plus sign, then one
/// or more digits and nothing else, whose value fits.
pub open spec fn u64_in(s: Seq<char>) -> Option<u64> {
    let digits = without_plus(s);
    if digits.len() > 0 && all_digits(digits) && digits_value(digits) <= u64::MAX {
        Some(digits_value(digits) as u64)
    } else {
        None
    }
}

/// The first position from `from` on at which `s` holds `c`, or the length of `s`
/// where there is none.
pub open spec fn position_from(s: Seq<char>, c: char, from: int) -> int
    decreases s.len() - from,
{
    if from >= s.len() {
        s.len() as int
    } else if s[from] == c {
        from
    } else {
        position_from(s, c, from + 1)
    }
}

/// The second of the fields that the separator `c` cuts `s` into, if there are two.
pub open spec fn second_field(s: Seq<char>, c: char) -> Option<Seq<char>> {
    let first = position_from(s, c, 0);
    if first >= s.len() {
        None
    } else {
        Some(s.subrange(first + 1, position_from(s, c, first + 1)))
    }
}

/// A position that `position_from` gives lies between `from` and the end, no
/// earlier position holds `c`, and it holds `c` itself unless it is the end.
pub proof fn lemma_position_from(s: Seq<char>, c: char, from: int)
    requires
        0 <= from <= s.len(),
    ensures
        from <= position_from(s, c, from) <= s.len(),
        position_from(s, c, from) < s.len() ==> s[position_from(s, c, from)] == c,
        forall|i: int| from <= i < position_from(s, c, from) ==> s[i] != c,
    decreases s.len() - from,
{
    if from < s.len() && s[from] != c {
        lemma_position_from(s, c, from + 1);
    }
}

/// Dropping digits from the end does not raise the value.
proof fn lemma_prefix_value(s: Seq<char>, i: int)
    requires
        0 <= i <= s.len(),
        all_digits(s),
    ensures
        digits_value(s.take(i)) <= digits_value(s),
    decreases s.len(),
{
    if i == s.len() {
        assert(s.take(i) =~= s);
    } else {
        let t = s.drop_last();
        assert(all_digits(t)) by {
            assert forall|k: int| 0 <= k < t.len() implies is_digit(#[trigger] t[k]) by {
                assert(t[k] == s[k]);
            }
        }
        lemma_prefix_value(t, i);
        assert(s.take(i) =~= t.take(i));
        assert(is_digit(s[s.len() - 1]));
    }
}

/// A decimal number is made of digits, at least one, and they denote the number.
pub proof fn lemma_decimal(n: nat)
    ensures
        decimal(n).len() > 0,
        all_digits(decimal(n)),
        digits_value(decimal(n)) == n,
    decreases n,
{
    reveal_with_fuel(digits_value, 2);
    if n < 10 {
        assert(decimal(n).drop_last() =~= Seq::<char>::empty());
    } else {
        lemma_decimal(n / 10);
        assert(decimal(n).drop_last() =~= decimal(n / 10));
    }
}

/// Reading a number back from its decimal text gives the number.
pub proof fn law_decimal_reads_back(n: u64)
    ensures
        u64_in(decimal(n as nat)) == Some(n),
{
    lemma_decimal(n as nat);
    assert(is_digit(decimal(n as nat)[0]));
    assert(without_plus(decimal(n as nat)) == decimal(n as nat));
}

/// Different numbers have different decimal texts.
pub proof fn law_decimal_is_injective(m: nat, n: nat)
    requires
        decimal(m) == decimal(n),
    ensures
        m == n,
{
    lemma_decimal(m);
    lemma_decimal(n);
}

/// A number below ten has one digit. Any other has the digits of its tenth, then one more:
/// its remainder.
pub proof fn law_decimal_grows_by_a_digit(n: nat, d: nat)
    requires
        d < 10,
    ensures
        decimal(d) == seq![(48 + d) as char],
        n > 0 ==> decimal(10 * n + d) == decimal(n).push((48 + d) as char),
{
    assert((10 * n + d) / 10 == n && (10 * n + d) % 10 == d);
}

/// A number and its negative have the same digits; the negative one has a minus sign in
/// front of them.
pub proof fn law_sign_leads(n: nat)
    ensures
        signed_decimal(n as int) == decimal(n),
        n > 0 ==> signed_decimal(-n) == seq!['-'] + decimal(n),
{
}

/// Whether a text holds no digit yet: it is empty or a plus sign.
pub open spec fn is_bare(s: Seq<char>) -> bool {
    s.len() == 0 || (s.len() == 1 && s[0] == '+')
}

/// One more character at the end of a text makes another number of it. A digit multiplies
/// the number by ten and is added to it, if that fits; the first digit is the number.
/// Whatever is not a digit, and too large a number, is no number and stays none.
pub proof fn law_number_grows_by_a_digit(s: Seq<char>, c: char)
    ensures
        is_bare(s) ==> u64_in(s) is None,
        !('0' <= c <= '9') ==> u64_in(s.push(c)) is None,
        '0' <= c <= '9' && is_bare(s) ==> u64_in(s.push(c)) == Some((c as int - 48) as u64),
        '0' <= c <= '9' && !is_bare(s) ==> u64_in(s.push(c)) == (match u64_in(s) {
            Some(n) => if n * 10 + (c as int - 48) <= u64::MAX {
                Some((n * 10 + (c as int - 48)) as u64)
            } else {
                None
            },
            None => None,
        }),
{
    reveal_with_fuel(digits_value, 2);
    let longer = s.push(c);
    if s.len() == 0 {
        assert(longer.skip(1) =~= Seq::<char>::empty());
        assert(longer.drop_last() =~= Seq::<char>::empty());
        assert(longer[0] == c);
    } else {
        let digits = without_plus(s);
        let more = without_plus(longer);
        assert(longer[0] == s[0]);
        assert(more =~= digits.push(c));
        assert(more.drop_last() =~= digits);
        assert(more.last() == c);
        assert(more[digits.len() as int] == c);
        if is_bare(s) {
            assert(digits =~= Seq::<char>::empty());
        } else {
            assert(digits.len() > 0);
        }
        if all_digits(more) {
            assert forall|i: int| 0 <= i < digits.len() implies is_digit(#[trigger] digits[i]) by {
                assert(more[i] == digits[i]);
            }
        }
        if all_digits(digits) && is_digit(c) {
            assert forall|i: int| 0 <= i < more.len() implies is_digit(#[trigger] more[i]) by {
                if i < digits.len() {
                    assert(more[i] == digits[i]);
                }
            }
        }
    }
}

/// The second field stands between the first separator and the next, or the end; a text
/// without the separator has none.
pub proof fn law_second_field(c: char, first: Seq<char>, second: Seq<char>, rest: Seq<char>)
    requires
        !first.contains(c),
        !second.contains(c),
        rest.len() > 0 ==> rest[0] == c,
    ensures
        second_field(first, c) is None,
        second_field(first + seq![c] + second + rest, c) == Some(second),
{
    let s = first + seq![c] + second + rest;
    lemma_position_from(first, c, 0);
    assert forall|i: int| 0 <= i < first.len() implies first[i] != c by {
        assert(first.contains(first[i]));
    }
    assert forall|i: int| 0 <= i < second.len() implies second[i] != c by {
        assert(second.contains(second[i]));
    }
    let p = position_from(s, c, 0);
    lemma_position_from(s, c, 0);
    assert(s[first.len() as int] == c);
    assert forall|i: int| 0 <= i < first.len() implies s[i] != c by {
        assert(s[i] == first[i]);
    }
    assert(p == first.len());
    let q = position_from(s, c, p + 1);
    lemma_position_from(s, c, p + 1);
    let end = first.len() + 1 + second.len();
    assert forall|i: int| p + 1 <= i < end implies s[i] != c by {
        assert(s[i] == second[i - p - 1]);
    }
    if rest.len() > 0 {
        assert(s[end as int] == rest[0]);
    }
    assert(q == end);
    assert(s.subrange(p + 1, q) =~= second);
}

/// The characters of a text.
pub fn chars_of(text: &str) -> (chars: Vec<char>)
    ensures
        chars@ == text@,
{
    let mut chars: Vec<char> = Vec::new();
    for c in it: text.chars()
        invariant
            chars@.len() == it.index(),
            it.seq() == text@,
            forall|i: int| 0 <= i < chars@.len() ==> chars@[i] == it.seq()[i],
    {
        chars.push(c);
    }
    chars
}

/// The text that holds those characters.
pub fn string_of(chars: &[char]) -> (text: String)
    ensures
        text@ == chars@,
{
    let mut text: String = String::new();
    let mut i: usize = 0;
    while i < chars.len()
        invariant
            i <= chars@.len(),
            text@ == chars@.take(i as int),
        decreases chars@.len() - i,
    {
        text.push(chars[i]);
        i = i + 1;
        assert(chars@.take(i as int) =~= chars@.take(i - 1).push(chars@[i - 1]));
    }
    assert(chars@.take(i as int) =~= chars@);
    text
}

/// Appends `n` in decimal.
pub fn push_decimal(out: &mut String, n: u64)
    ensures
        final(out)@ == old(out)@ + decimal(n as nat),
    decreases n,
{
    if n >= 10 {
        push_decimal(out, n / 10);
    }
    let digit: u8 = 48 + (n % 10) as u8;
    out.push(digit as char);
}

/// Appends `n` in decimal, with a minus sign where it is negative.
pub fn push_signed_decimal(out: &mut String, n: i32)
    ensures
        final(out)@ == old(out)@ + signed_decimal(n as int),
{
    if n < 0 {
        out.push('-');
        push_decimal(out, (-(n as i64)) as u64);
    } else {
        push_decimal(out, n as u64);
    }
}

/// Reads an unsigned 64-bit number, as `str::parse` does: `None` for everything
/// but an optional plus sign and digits whose value fits.
pub fn parse_u64(text: &[char]) -> (number: Option<u64>)
    ensures
        number == u64_in(text@),
{
    let start: usize = if text.len() > 0 && text[0] == '+' { 1 } else { 0 };
    let ghost digits = without_plus(text@);
    if start >= text.len() {
        return None;
    }
    let mut value: u64 = 0;
    let mut i: usize = start;
    assert(digits.take(0) =~= Seq::<char>::empty());
    while i < text.len()
        invariant
            start <= i <= text@.len(),
            start <= 1,
            digits == without_plus(text@),
            digits.len() == text@.len() - start,
            forall|k: int| 0 <= k < digits.len() ==> digits[k] == text@[k + start],
            forall|k: int| 0 <= k < i - start ==> is_digit(#[trigger] digits[k]),
            value == digits_value(digits.take(i - start)),
        decreases text@.len() - i,
    {
        let c: char = text[i];
        if c < '0' || c > '9' {
            assert(!is_digit(digits[i - start]));
            return None;
        }
        let digit: u64 = c as u64 - 48;
        proof {
            let next = digits.take(i - start + 1);
            assert(next.drop_last() =~= digits.take(i - start));
            assert(next.last() == c);
            assert(digits_value(next) == value * 10 + digit);
            if all_digits(digits) {
                lemma_prefix_value(digits, i - start + 1);
            }
        }
        if value > (u64::MAX - digit) / 10 {
            return None;
        }
        value = value * 10 + digit;
        i = i + 1;
    }
    assert(digits.take(digits.len() as int) =~= digits);
    Some(value)
}

/// The first position from `from` on that holds `c`, or the length.
pub fn find_from(text: &[char], c: char, from: usize) -> (position: usize)
    requires
        from <= text@.len(),
    ensures
        position == position_from(text@, c, from as int),
        from <= position <= text@.len(),
        position < text@.len() ==> text@[position as int] == c,
        forall|i: int| from <= i < position ==> text@[i] != c,
{
    let mut i: usize = from;
    while i < text.len()
        invariant
            from <= i <= text@.len(),
            position_from(text@, c, i as int) == position_from(text@, c, from as int),
            forall|k: int| from <= k < i ==> text@[k] != c,
        decreases text@.len() - i,
    {
        if text[i] == c {
            return i;
        }
        i = i + 1;
    }
    i
}

} // verus!
