//! Response headers: looking one up, reading one as text, the size that they
//! announce, and the dictionary of all that are text.
use vstd::prelude::*;
use vstd::utf8::{encode_utf8, is_ascii_chars_encode_utf8};

use crate::dict::{
    entries, has_key, keys_distinct, law_entries_are_the_pairs, law_items_keep_their_places, law_with_item, maps, set_item,
    with_item, Entry,
};
use crate::text::{
    decimal, find_from, is_digit, law_decimal_reads_back, law_second_field, lemma_decimal,
    lemma_position_from, parse_u64, position_from, second_field, string_of, u64_in,
};

verus! {

/// A multimap of header names and values.
#[verifier::external_type_specification]
#[verifier::external_body]
#[verifier::reject_recursive_types(T)]
pub struct ExHeaderMap<T>(ureq::http::HeaderMap<T>);

/// The value of one header.
#[verifier::external_type_specification]
#[verifier::external_body]
pub struct ExHeaderValue(ureq::http::HeaderValue);

/// A header as it was received: its name in lower case, and its value.
pub type RawField = (Seq<char>, Seq<u8>);

/// What a header map holds, in the order in which the map hands it out.
pub uninterp spec fn header_fields(headers: ureq::http::HeaderMap) -> Seq<(Seq<char>, Seq<u8>)>;

/// The views of name and value of each line.
pub open spec fn raw_fields(lines: Seq<(String, Vec<u8>)>) -> Seq<RawField> {
    lines.map_values(|line: (String, Vec<u8>)| (line.0@, line.1@))
}

/// The value of the first field of that name, if there is one.
pub open spec fn first_value(fields: Seq<RawField>, name: Seq<char>) -> Option<Seq<u8>>
    decreases fields.len(),
{
    if fields.len() == 0 {
        None
    } else if fields[0].0 == name {
        Some(fields[0].1)
    } else {
        first_value(fields.skip(1), name)
    }
}

/// `HeaderMap::get` with a lower-case name: the value that the map holds first
/// under that name, as bytes. Longer names, and names with other characters, are
/// left out: nothing here asks for one.
#[verifier::external_body]
fn get_header(headers: &ureq::http::HeaderMap, name: &str) -> (value: Option<Vec<u8>>)
    requires
        0 < name@.len() <= 64,
        forall|i: int| 0 <= i < name@.len() ==> ('a' <= #[trigger] name@[i] <= 'z' || name@[i] == '-'),
    ensures
        match value {
            Some(bytes) => first_value(header_fields(*headers), name@) == Some(bytes@),
            None => first_value(header_fields(*headers), name@) is None,
        },
{
    match headers.get(name) {
        Some(value) => Some(value.as_bytes().to_vec()),
        None => None,
    }
}

/// `HeaderMap::iter`: every name with every value that the map holds under it, in
/// the map's order.
#[verifier::external_body]
fn header_lines(headers: &ureq::http::HeaderMap) -> (lines: Vec<(String, Vec<u8>)>)
    ensures
        raw_fields(lines@) == header_fields(*headers),
{
    headers.iter().map(|(name, value)| (name.as_str().to_owned(), value.as_bytes().to_vec())).collect()
}

/// Whether a byte is visible ASCII, a space or a tab.
pub open spec fn is_visible(byte: u8) -> bool {
    32 <= byte < 127 || byte == 9
}

/// A header value as text: only a value of visible ASCII has one.
pub open spec fn visible_text(value: Seq<u8>) -> Option<Seq<char>> {
    if forall|i: int| 0 <= i < value.len() ==> is_visible(#[trigger] value[i]) {
        Some(value.map_values(|byte: u8| byte as char))
    } else {
        None
    }
}

/// A header value as text, if it is visible ASCII throughout.
pub fn header_text(value: &[u8]) -> (text: Option<Vec<char>>)
    ensures
        match text {
            Some(chars) => visible_text(value@) == Some(chars@),
            None => visible_text(value@) is None,
        },
{
    let mut chars: Vec<char> = Vec::new();
    let mut i: usize = 0;
    while i < value.len()
        invariant
            i <= value@.len(),
            chars@.len() == i,
            forall|k: int| 0 <= k < i ==> is_visible(#[trigger] value@[k]),
            forall|k: int| 0 <= k < i ==> chars@[k] == value@[k] as char,
        decreases value@.len() - i,
    {
        let byte: u8 = value[i];
        if !((32 <= byte && byte < 127) || byte == 9) {
            assert(!is_visible(value@[i as int]));
            return None;
        }
        chars.push(byte as char);
        i = i + 1;
    }
    assert(chars@ =~= value@.map_values(|byte: u8| byte as char));
    Some(chars)
}

/// A header value has a text if each of its bytes is visible ASCII, a space or a tab. The
/// text is as long as the value, and each character has the code of the byte in its place.
pub proof fn law_text_is_the_value(value: Seq<u8>)
    ensures
        visible_text(value) is Some <==> forall|i: int|
            0 <= i < value.len() ==> (32 <= #[trigger] value[i] <= 126 || value[i] == 9),
        visible_text(value) matches Some(text) ==> {
            &&& text.len() == value.len()
            &&& forall|i: int| 0 <= i < value.len() ==> #[trigger] text[i] as int == value[i] as int
        },
{
    if visible_text(value) is Some {
        assert forall|i: int| 0 <= i < value.len() implies (32 <= #[trigger] value[i] <= 126
            || value[i] == 9) by {
            assert(is_visible(value[i]));
        }
    }
    if forall|i: int|
        0 <= i < value.len() ==> (32 <= #[trigger] value[i] <= 126 || value[i] == 9) {
        assert forall|i: int| 0 <= i < value.len() implies is_visible(#[trigger] value[i]) by {}
    }
}

/// What `header_text` gives says what was received: the UTF-8 bytes of the text are the value.
pub proof fn law_header_text_gives_the_value_back(value: &[u8], text: Option<Vec<char>>)
    requires
        call_ensures(header_text, (value,), text),
    ensures
        text is Some <==> forall|i: int|
            0 <= i < value@.len() ==> (32 <= #[trigger] value@[i] <= 126 || value@[i] == 9),
        text matches Some(chars) ==> {
            &&& chars@.len() == value@.len()
            &&& forall|i: int|
                0 <= i < value@.len() ==> #[trigger] chars@[i] as int == value@[i] as int
            &&& encode_utf8(chars@) == value@
        },
{
    law_text_is_the_value(value@);
    if let Some(chars) = text {
        assert forall|i: int| 0 <= i < chars@.len() implies 0 <= #[trigger] chars@[i] as u32 <= 127 by {
            assert(32 <= value@[i] <= 126 || value@[i] == 9);
        }
        is_ascii_chars_encode_utf8(chars@);
        assert(encode_utf8(chars@) =~= value@);
    }
}

/// Whether the first field of that name is the one at `i`.
pub open spec fn is_first_of(fields: Seq<RawField>, i: int, name: Seq<char>) -> bool {
    &&& 0 <= i < fields.len()
    &&& fields[i].0 == name
    &&& forall|j: int| 0 <= j < i ==> (#[trigger] fields[j]).0 != name
}

/// The value of a name is that of the first field that has it.
pub proof fn law_first_of_a_name_counts(fields: Seq<RawField>, i: int, name: Seq<char>)
    requires
        is_first_of(fields, i, name),
    ensures
        first_value(fields, name) == Some(fields[i].1),
    decreases i,
{
    if i > 0 {
        let rest = fields.skip(1);
        assert(fields[0].0 != name);
        assert forall|j: int| 0 <= j < i - 1 implies (#[trigger] rest[j]).0 != name by {
            assert(rest[j] == fields[j + 1]);
        }
        assert(is_first_of(rest, i - 1, name));
        law_first_of_a_name_counts(rest, i - 1, name);
    }
}

/// A name that no field has is without a value.
pub proof fn law_missing_name_has_no_value(fields: Seq<RawField>, name: Seq<char>)
    requires
        forall|i: int| 0 <= i < fields.len() ==> (#[trigger] fields[i]).0 != name,
    ensures
        first_value(fields, name) is None,
    decreases fields.len(),
{
    if fields.len() > 0 {
        let rest = fields.skip(1);
        assert(fields[0].0 != name);
        assert forall|j: int| 0 <= j < rest.len() implies (#[trigger] rest[j]).0 != name by {
            assert(rest[j] == fields[j + 1]);
        }
        law_missing_name_has_no_value(rest, name);
    }
}

/// The status of a response that holds part of what was asked for.
pub const PARTIAL_CONTENT: u16 = 206;

/// The text of the first header of that name, where there is one and it is text.
pub open spec fn field_text(fields: Seq<RawField>, name: Seq<char>) -> Option<Seq<char>> {
    match first_value(fields, name) {
        Some(value) => visible_text(value),
        None => None,
    }
}

/// The number of bytes that the whole file has, as the response announces it: of a
/// partial response, what stands behind the first slash of `content-range`; of any
/// other, `content-length`.
pub open spec fn announced_size(status: u16, fields: Seq<RawField>) -> Option<u64> {
    if status == PARTIAL_CONTENT {
        match field_text(fields, "content-range"@) {
            Some(range) => match second_field(range, '/') {
                Some(size) => u64_in(size),
                None => None,
            },
            None => None,
        }
    } else {
        match field_text(fields, "content-length"@) {
            Some(size) => u64_in(size),
            None => None,
        }
    }
}

/// The size that a text of the form `range/size` ends with.
pub fn size_in_range(range: &[char]) -> (size: Option<u64>)
    ensures
        size == (match second_field(range@, '/') {
            Some(text) => u64_in(text),
            None => None::<u64>,
        }),
{
    let slash: usize = find_from(range, '/', 0);
    if slash >= range.len() {
        return None;
    }
    let end: usize = find_from(range, '/', slash + 1);
    parse_u64(&range[slash + 1..end])
}

/// The size of the whole file, from the status and the headers of the response
/// that serves it.
pub fn total_size(status: u16, headers: &ureq::http::HeaderMap) -> (size: Option<u64>)
    ensures
        size == announced_size(status, header_fields(*headers)),
{
    proof {
        reveal_strlit("content-range");
        reveal_strlit("content-length");
    }
    if status == PARTIAL_CONTENT {
        match get_header(headers, "content-range") {
            Some(value) => match header_text(&value) {
                Some(range) => size_in_range(&range),
                None => None,
            },
            None => None,
        }
    } else {
        match get_header(headers, "content-length") {
            Some(value) => match header_text(&value) {
                Some(size) => parse_u64(&size),
                None => None,
            },
            None => None,
        }
    }
}

/// The header dictionary after one more field: a value that is text replaces what
/// stood under its name, another value changes nothing.
pub open spec fn with_field(dict: Seq<Entry>, field: RawField) -> Seq<Entry> {
    match visible_text(field.1) {
        Some(text) => with_item(dict, field.0, text),
        None => dict,
    }
}

/// The dictionary of the headers that are text.
pub open spec fn header_dict(fields: Seq<RawField>) -> Seq<Entry>
    decreases fields.len(),
{
    if fields.len() == 0 {
        Seq::empty()
    } else {
        with_field(header_dict(fields.drop_last()), fields.last())
    }
}

/// Whether the field at `i` is the last of its name that is text.
pub open spec fn is_last_text_of(fields: Seq<RawField>, i: int, name: Seq<char>, text: Seq<char>) -> bool {
    &&& 0 <= i < fields.len()
    &&& fields[i].0 == name
    &&& visible_text(fields[i].1) == Some(text)
    &&& forall|j: int|
        i < j < fields.len() && (#[trigger] fields[j]).0 == name ==> visible_text(fields[j].1) is None
}

/// In the header dictionary every name stands once, with the value of the last
/// header of that name that is text; a name without one does not occur.
pub proof fn law_last_text_wins(fields: Seq<RawField>)
    ensures
        keys_distinct(header_dict(fields)),
        forall|name: Seq<char>, text: Seq<char>|
            #![trigger maps(header_dict(fields), name, text)]
            maps(header_dict(fields), name, text) <==> exists|i: int|
                is_last_text_of(fields, i, name, text),
    decreases fields.len(),
{
    if fields.len() > 0 {
        let rest = fields.drop_last();
        let last = fields.last();
        let n = fields.len() - 1;
        law_last_text_wins(rest);
        if visible_text(last.1) is Some {
            law_with_item(header_dict(rest), last.0, visible_text(last.1)->0);
        }
        assert forall|name: Seq<char>, text: Seq<char>|
            #![trigger maps(header_dict(fields), name, text)]
            maps(header_dict(fields), name, text) <==> exists|i: int|
                is_last_text_of(fields, i, name, text) by {
            if maps(header_dict(fields), name, text) {
                if last.0 == name && visible_text(last.1) is Some {
                    assert(is_last_text_of(fields, n, name, text));
                } else {
                    assert(maps(header_dict(rest), name, text));
                    let i = choose|i: int| is_last_text_of(rest, i, name, text);
                    assert forall|j: int|
                        i < j < fields.len() && (#[trigger] fields[j]).0
                            == name implies visible_text(fields[j].1) is None by {
                        if j < n {
                            assert(fields[j] == rest[j]);
                        }
                    }
                    assert(is_last_text_of(fields, i, name, text));
                }
            }
            if exists|i: int| is_last_text_of(fields, i, name, text) {
                let i = choose|i: int| is_last_text_of(fields, i, name, text);
                if i < n {
                    assert(fields[n].0 == name ==> visible_text(fields[n].1) is None);
                    assert forall|j: int|
                        i < j < rest.len() && (#[trigger] rest[j]).0
                            == name implies visible_text(rest[j].1) is None by {
                        assert(fields[j] == rest[j]);
                    }
                    assert(is_last_text_of(rest, i, name, text));
                    assert(maps(header_dict(rest), name, text));
                }
            }
        }
    }
}

/// The headers that are text, as a dictionary.
pub fn text_headers(headers: &ureq::http::HeaderMap) -> (dict: Vec<(String, String)>)
    ensures
        entries(dict@) == header_dict(header_fields(*headers)),
{
    let lines: Vec<(String, Vec<u8>)> = header_lines(headers);
    let ghost fields = raw_fields(lines@);
    let mut dict: Vec<(String, String)> = Vec::new();
    let mut i: usize = 0;
    assert(entries(dict@) =~= header_dict(fields.take(0)));
    while i < lines.len()
        invariant
            i <= lines@.len(),
            fields == raw_fields(lines@),
            entries(dict@) == header_dict(fields.take(i as int)),
            keys_distinct(entries(dict@)),
        decreases lines@.len() - i,
    {
        proof {
            assert(fields.take(i + 1).drop_last() =~= fields.take(i as int));
            assert(fields.take(i + 1).last() == (lines@[i as int].0@, lines@[i as int].1@));
        }
        if let Some(chars) = header_text(&lines[i].1) {
            set_item(&mut dict, lines[i].0.clone(), string_of(&chars));
        }
        i = i + 1;
    }
    assert(fields.take(fields.len() as int) =~= fields);
    dict
}

/// A `content-range` of the form `range/size`, with no slash in the range, announces
/// the size.
pub proof fn law_content_range(fields: Seq<RawField>, range: Seq<char>, size: u64)
    requires
        field_text(fields, "content-range"@) == Some(range + seq!['/'] + decimal(size as nat)),
        forall|i: int| 0 <= i < range.len() ==> range[i] != '/',
    ensures
        announced_size(PARTIAL_CONTENT, fields) == Some(size),
{
    let text = range + seq!['/'] + decimal(size as nat);
    let slash = position_from(text, '/', 0);
    lemma_position_from(text, '/', 0);
    assert(text[range.len() as int] == '/');
    assert forall|i: int| 0 <= i < range.len() implies text[i] != '/' by {
        assert(text[i] == range[i]);
    }
    assert(slash == range.len());
    lemma_decimal(size as nat);
    lemma_position_from(text, '/', slash + 1);
    let end = position_from(text, '/', slash + 1);
    assert(end == text.len()) by {
        if end < text.len() {
            assert(is_digit(decimal(size as nat)[end - slash - 1]));
        }
    }
    assert(text.subrange(slash + 1, end) =~= decimal(size as nat));
    law_decimal_reads_back(size);
}

/// A `content-length` in decimal announces the size of any response that is not
/// partial.
pub proof fn law_content_length(fields: Seq<RawField>, status: u16, size: u64)
    requires
        status != PARTIAL_CONTENT,
        field_text(fields, "content-length"@) == Some(decimal(size as nat)),
    ensures
        announced_size(status, fields) == Some(size),
{
    law_decimal_reads_back(size);
}

/// Whether a text holds, character for byte, the codes of a value of visible ASCII, spaces
/// and tabs.
pub open spec fn is_text_of(text: Seq<char>, value: Seq<u8>) -> bool {
    &&& text.len() == value.len()
    &&& forall|i: int|
        0 <= i < value.len() ==> (32 <= #[trigger] value[i] <= 126 || value[i] == 9) && text[i] as int
            == value[i] as int
}

/// A value has the text that holds its codes, and no other.
pub proof fn lemma_text_of(text: Seq<char>, value: Seq<u8>)
    ensures
        visible_text(value) == Some(text) <==> is_text_of(text, value),
{
    law_text_is_the_value(value);
    if let Some(found) = visible_text(value) {
        if is_text_of(text, value) {
            assert forall|i: int| 0 <= i < value.len() implies text[i] == found[i] by {
                assert(32 <= value[i] <= 126 || value[i] == 9);
            }
            assert(text =~= found);
        }
        if found == text {
            assert forall|i: int| 0 <= i < value.len() implies (32 <= #[trigger] value[i] <= 126
                || value[i] == 9) && text[i] as int == value[i] as int by {
                assert(found[i] as int == value[i] as int);
            }
        }
    }
}

/// The size of a response that is not partial is the number in its first `content-length`.
pub proof fn law_size_of_a_whole_response(
    status: u16,
    headers: &ureq::http::HeaderMap,
    size: Option<u64>,
    i: int,
    text: Seq<char>,
)
    requires
        call_ensures(total_size, (status, headers), size),
        status != 206,
        is_first_of(header_fields(*headers), i, "content-length"@),
        is_text_of(text, header_fields(*headers)[i].1),
    ensures
        size == u64_in(text),
{
    law_first_of_a_name_counts(header_fields(*headers), i, "content-length"@);
    lemma_text_of(text, header_fields(*headers)[i].1);
}

/// The size of a partial response is the number behind the first slash of its first
/// `content-range`, up to the next slash or the end.
pub proof fn law_size_of_a_partial_response(
    headers: &ureq::http::HeaderMap,
    size: Option<u64>,
    i: int,
    range: Seq<char>,
    number: Seq<char>,
    rest: Seq<char>,
)
    requires
        call_ensures(total_size, (206, headers), size),
        is_first_of(header_fields(*headers), i, "content-range"@),
        is_text_of(range + seq!['/'] + number + rest, header_fields(*headers)[i].1),
        !range.contains('/'),
        !number.contains('/'),
        rest.len() > 0 ==> rest[0] == '/',
    ensures
        size == u64_in(number),
{
    law_first_of_a_name_counts(header_fields(*headers), i, "content-range"@);
    lemma_text_of(range + seq!['/'] + number + rest, header_fields(*headers)[i].1);
    law_second_field('/', range, number, rest);
}

/// A response announces no size if the header that would say it is missing: `content-range`
/// in a partial response, `content-length` in any other.
pub proof fn law_size_is_unknown_without_its_header(
    status: u16,
    headers: &ureq::http::HeaderMap,
    size: Option<u64>,
)
    requires
        call_ensures(total_size, (status, headers), size),
        forall|i: int|
            0 <= i < header_fields(*headers).len() ==> (#[trigger] header_fields(*headers)[i]).0 != (
            if status == 206 {
                "content-range"@
            } else {
                "content-length"@
            }),
    ensures
        size is None,
{
    if status == 206 {
        law_missing_name_has_no_value(header_fields(*headers), "content-range"@);
    } else {
        law_missing_name_has_no_value(header_fields(*headers), "content-length"@);
    }
}

/// A response announces no size if the header that would say it is no text, nor does a
/// partial response whose `content-range` has no slash.
pub proof fn law_size_is_unknown_where_it_is_not_said(
    status: u16,
    headers: &ureq::http::HeaderMap,
    size: Option<u64>,
    i: int,
)
    requires
        call_ensures(total_size, (status, headers), size),
        is_first_of(
            header_fields(*headers),
            i,
            if status == 206 {
                "content-range"@
            } else {
                "content-length"@
            },
        ),
        ({
            let value = header_fields(*headers)[i].1;
            ||| exists|k: int|
                0 <= k < value.len() && !(32 <= #[trigger] value[k] <= 126 || value[k] == 9)
            ||| status == 206 && forall|k: int| 0 <= k < value.len() ==> #[trigger] value[k] != 47
        }),
    ensures
        size is None,
{
    let fields = header_fields(*headers);
    let value = fields[i].1;
    law_text_is_the_value(value);
    if status == 206 {
        law_first_of_a_name_counts(fields, i, "content-range"@);
        if let Some(text) = visible_text(value) {
            assert forall|k: int| 0 <= k < text.len() implies text[k] != '/' by {
                assert(text[k] as int == value[k] as int);
            }
            law_second_field('/', text, Seq::empty(), Seq::empty());
        }
    } else {
        law_first_of_a_name_counts(fields, i, "content-length"@);
    }
}

/// Whether the field at `i` has that name and is text.
pub open spec fn has_text_at(fields: Seq<RawField>, i: int, name: Seq<char>) -> bool {
    &&& 0 <= i < fields.len()
    &&& fields[i].0 == name
    &&& forall|k: int|
        0 <= k < fields[i].1.len() ==> (32 <= #[trigger] fields[i].1[k] <= 126 || fields[i].1[k] == 9)
}

/// The names in the header dictionary are those of the fields that are text.
proof fn lemma_names(fields: Seq<RawField>)
    ensures
        forall|name: Seq<char>|
            #![trigger has_key(header_dict(fields), name)]
            has_key(header_dict(fields), name) <==> exists|i: int| has_text_at(fields, i, name),
    decreases fields.len(),
{
    if fields.len() > 0 {
        let rest = fields.drop_last();
        let last = fields.last();
        let n = fields.len() - 1;
        lemma_names(rest);
        law_text_is_the_value(last.1);
        let (before, after) = (header_dict(rest), header_dict(fields));
        if let Some(text) = visible_text(last.1) {
            law_items_keep_their_places(before, last.0, text);
        }
        assert forall|name: Seq<char>|
            #![trigger has_key(after, name)]
            has_key(after, name) <==> exists|i: int| has_text_at(fields, i, name) by {
            if has_key(after, name) {
                let k = choose|k: int| 0 <= k < after.len() && (#[trigger] after[k]).0 == name;
                if k < before.len() {
                    assert(before[k].0 == name);
                    assert(has_key(before, name));
                    let i = choose|i: int| has_text_at(rest, i, name);
                    assert(rest[i] == fields[i]);
                    assert(has_text_at(fields, i, name));
                } else {
                    assert(has_text_at(fields, n, name));
                }
            }
            if exists|i: int| has_text_at(fields, i, name) {
                let i = choose|i: int| has_text_at(fields, i, name);
                if i < n {
                    assert(rest[i] == fields[i]);
                    assert(has_text_at(rest, i, name));
                    assert(has_key(before, name));
                    let k = choose|k: int| 0 <= k < before.len() && (#[trigger] before[k]).0 == name;
                    assert(after[k].0 == name);
                } else {
                    assert(visible_text(last.1) is Some);
                    if has_key(before, name) {
                        let k = choose|k: int|
                            0 <= k < before.len() && (#[trigger] before[k]).0 == name;
                        assert(after[k].0 == name);
                    } else {
                        assert(after[after.len() - 1].0 == name);
                    }
                }
            }
        }
    }
}

/// The names in the header dictionary stand in the order in which a text came for them
/// first: wherever there is a text for the later of two names, there is one for the earlier
/// in front of it.
pub proof fn law_names_stand_in_order(fields: Seq<RawField>, i: int, j: int, p: int)
    requires
        0 <= i < j < header_dict(fields).len(),
        has_text_at(fields, p, header_dict(fields)[j].0),
    ensures
        exists|q: int| 0 <= q < p && has_text_at(fields, q, header_dict(fields)[i].0),
    decreases fields.len(),
{
    let rest = fields.drop_last();
    let last = fields.last();
    let n = fields.len() - 1;
    let (before, after) = (header_dict(rest), header_dict(fields));
    law_text_is_the_value(last.1);
    if let Some(text) = visible_text(last.1) {
        law_items_keep_their_places(before, last.0, text);
    }
    lemma_names(rest);
    assert(before[i].0 == after[i].0);
    if p < n && j < before.len() {
        assert(rest[p] == fields[p]);
        assert(before[j].0 == after[j].0);
        assert(has_text_at(rest, p, before[j].0));
        law_names_stand_in_order(rest, i, j, p);
        let q = choose|q: int| 0 <= q < p && has_text_at(rest, q, before[i].0);
        assert(rest[q] == fields[q]);
        assert(has_text_at(fields, q, after[i].0));
    } else {
        if p < n {
            assert(rest[p] == fields[p]);
            assert(has_text_at(rest, p, after[j].0));
            assert(has_key(before, after[j].0));
            assert(false);
        }
        assert(has_key(before, before[i].0));
        let q = choose|q: int| has_text_at(rest, q, before[i].0);
        assert(rest[q] == fields[q]);
        assert(has_text_at(fields, q, after[i].0));
    }
}

/// Whether the field at `k` is the last of its name that is text, and has that text.
pub open spec fn is_last_text_at(fields: Seq<RawField>, k: int, name: Seq<char>, text: Seq<char>) -> bool {
    &&& has_text_at(fields, k, name)
    &&& is_text_of(text, fields[k].1)
    &&& forall|l: int| k < l ==> !#[trigger] has_text_at(fields, l, name)
}

/// Whether that is the last text of that name.
pub open spec fn is_last_text(fields: Seq<RawField>, name: Seq<char>, text: Seq<char>) -> bool {
    exists|k: int| is_last_text_at(fields, k, name, text)
}

/// Whether a text comes for `name` before any comes for `other`.
pub open spec fn comes_before(fields: Seq<RawField>, name: Seq<char>, other: Seq<char>) -> bool {
    forall|p: int| #[trigger]
        has_text_at(fields, p, other) ==> exists|q: int| q < p && has_text_at(fields, q, name)
}

/// Whether pairs of names and values say what fields hold: every name that has a text, once,
/// with the last text that it has, character for byte as it came, in the order in which a
/// text came for the names first.
pub open spec fn tell_the_texts(pairs: Seq<(String, String)>, fields: Seq<RawField>) -> bool {
    &&& forall|i: int, j: int|
        0 <= i < j < pairs.len() ==> (#[trigger] pairs[i]).0@ != (#[trigger] pairs[j]).0@
            && comes_before(fields, pairs[i].0@, pairs[j].0@)
    &&& forall|i: int|
        0 <= i < pairs.len() ==> is_last_text(fields, (#[trigger] pairs[i]).0@, pairs[i].1@)
    &&& forall|k: int, name: Seq<char>| #[trigger]
        has_text_at(fields, k, name) ==> exists|i: int|
            0 <= i < pairs.len() && (#[trigger] pairs[i]).0@ == name
}

/// The header dictionary says what the fields hold.
pub proof fn lemma_header_dict(pairs: Seq<(String, String)>, fields: Seq<RawField>)
    requires
        entries(pairs) == header_dict(fields),
    ensures
        tell_the_texts(pairs, fields),
{
    let all = header_dict(fields);
    law_last_text_wins(fields);
    lemma_names(fields);
    law_entries_are_the_pairs(pairs);
    assert forall|i: int, j: int| 0 <= i < j < pairs.len() implies (#[trigger] pairs[i]).0@ != (
    #[trigger] pairs[j]).0@ && comes_before(fields, pairs[i].0@, pairs[j].0@) by {
        assert(all[i].0 == pairs[i].0@ && all[j].0 == pairs[j].0@);
        assert(all[i].0 != all[j].0);
        assert forall|p: int| #[trigger]
            has_text_at(fields, p, pairs[j].0@) implies exists|q: int|
            q < p && has_text_at(fields, q, pairs[i].0@) by {
            law_names_stand_in_order(fields, i, j, p);
        }
    }
    assert forall|i: int| 0 <= i < pairs.len() implies is_last_text(
        fields,
        (#[trigger] pairs[i]).0@,
        pairs[i].1@,
    ) by {
        let (name, text) = (pairs[i].0@, pairs[i].1@);
        assert(all[i] == (name, text));
        assert(maps(all, name, text));
        let k = choose|k: int| is_last_text_of(fields, k, name, text);
        lemma_text_of(text, fields[k].1);
        assert(has_text_at(fields, k, name));
        assert forall|l: int| k < l implies !#[trigger] has_text_at(fields, l, name) by {
            if has_text_at(fields, l, name) {
                law_text_is_the_value(fields[l].1);
                assert(fields[l].0 == name);
            }
        }
        assert(is_last_text_at(fields, k, name, text));
    }
    assert forall|k: int, name: Seq<char>| #[trigger]
        has_text_at(fields, k, name) implies exists|i: int|
        0 <= i < pairs.len() && (#[trigger] pairs[i]).0@ == name by {
        assert(has_key(all, name));
        let i = choose|i: int| 0 <= i < all.len() && (#[trigger] all[i]).0 == name;
        assert(pairs[i].0@ == name);
    }
}

/// What `text_headers` gives says what the header map holds.
pub proof fn law_text_headers_tell_the_texts(
    headers: &ureq::http::HeaderMap,
    dict: Vec<(String, String)>,
)
    requires
        call_ensures(text_headers, (headers,), dict),
    ensures
        tell_the_texts(dict@, header_fields(*headers)),
{
    lemma_header_dict(dict@, header_fields(*headers));
}

} // verus!
