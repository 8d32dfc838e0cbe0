//! The header collection of `trillium-http`, and what its methods do to its contents.
//!
//! The contents of a header collection are a map from the ASCII lower-case field name to the
//! field's lines, each line by its bytes. A line is readable as text where it is valid UTF-8.
use trillium_http::{HeaderValues, Headers};
use vstd::prelude::*;
use vstd::utf8::{decode_utf8, encode_utf8, valid_utf8};

use crate::text::{joined, lower};

verus! {

/// Field lines by lower-case field name.
pub type Fields = Map<Seq<char>, Seq<Seq<u8>>>;

/// `trillium_http::Headers`: a map from field names to field lines.
#[verifier::external_type_specification]
#[verifier::external_body]
pub struct ExHeaders(trillium_http::Headers);

/// `trillium_http::HeaderValues`: the lines of one field.
#[verifier::external_type_specification]
#[verifier::external_body]
pub struct ExHeaderValues(trillium_http::HeaderValues);

/// `trillium_http::HeaderValue`: one line.
#[verifier::external_type_specification]
#[verifier::external_body]
pub struct ExHeaderValue(trillium_http::HeaderValue);

/// What a header collection holds.
pub uninterp spec fn fields_of(headers: Headers) -> Fields;

/// The bytes of each line of a field.
pub uninterp spec fn lines_of(values: HeaderValues) -> Seq<Seq<u8>>;

/// The text of a line, where it is text.
pub open spec fn line_text(line: Seq<u8>) -> Option<Seq<char>> {
    if valid_utf8(line) {
        Some(decode_utf8(line))
    } else {
        None
    }
}

/// The lines of the field called `name`, in any letter case.
pub open spec fn field(fields: Fields, name: Seq<char>) -> Option<Seq<Seq<u8>>> {
    if fields.contains_key(lower(name)) {
        Some(fields[lower(name)])
    } else {
        None
    }
}

/// The contents of an empty header collection.
pub open spec fn no_fields() -> Fields {
    Map::empty()
}

/// Whether there is a field called `name`, in any letter case.
pub open spec fn has_field(fields: Fields, name: Seq<char>) -> bool {
    fields.contains_key(lower(name))
}

/// The text of the field called `name`, where it has exactly one line and that is text.
pub open spec fn field_text(fields: Fields, name: Seq<char>) -> Option<Seq<char>> {
    match field(fields, name) {
        Some(lines) => if lines.len() == 1 {
            line_text(lines[0])
        } else {
            None
        },
        None => None,
    }
}

/// The lines of a field as one comma-separated list.
pub open spec fn joined_lines(lines: Seq<Seq<u8>>) -> Seq<u8>
    decreases lines.len(),
{
    if lines.len() == 0 {
        Seq::empty()
    } else if lines.len() == 1 {
        lines[0]
    } else {
        joined_lines(lines.drop_last()) + seq![44u8, 32u8] + lines.last()
    }
}

/// The value of the field called `name`: all of its lines, as one comma-separated list. `None` is
/// a field that is not there.
pub open spec fn field_value(fields: Fields, name: Seq<char>) -> Option<Seq<u8>> {
    match field(fields, name) {
        Some(lines) => Some(joined_lines(lines)),
        None => None,
    }
}

/// The texts of those lines that are text, in order.
pub open spec fn texts_in(lines: Seq<Seq<u8>>) -> Seq<Seq<char>>
    decreases lines.len(),
{
    if lines.len() == 0 {
        Seq::empty()
    } else {
        match line_text(lines.last()) {
            Some(text) => texts_in(lines.drop_last()).push(text),
            None => texts_in(lines.drop_last()),
        }
    }
}

/// The text of the field called `name`, which is a list: those of its lines that are text, as one
/// list. `None` is a field that has no such line.
pub open spec fn list_text(fields: Fields, name: Seq<char>) -> Option<Seq<char>> {
    match field(fields, name) {
        Some(lines) if texts_in(lines).len() > 0 => Some(joined(texts_in(lines))),
        _ => None,
    }
}

/// The bytes of an optional value.
pub open spec fn bytes_view(value: Option<Vec<u8>>) -> Option<Seq<u8>> {
    match value {
        Some(bytes) => Some(bytes@),
        None => None,
    }
}

/// The lines of a field that holds one text.
pub open spec fn text_lines(text: Seq<char>) -> Seq<Seq<u8>> {
    seq![encode_utf8(text)]
}

/// The trailers of a body, by lower-case name. `None` is no trailer section at all.
pub open spec fn trailers_view(trailers: Option<Headers>) -> Option<Fields> {
    match trailers {
        Some(headers) => Some(fields_of(headers)),
        None => None,
    }
}

/// The text of an optional string slice.
pub open spec fn text_view(text: Option<&str>) -> Option<Seq<char>> {
    match text {
        Some(t) => Some(t@),
        None => None,
    }
}

/// The text of an optional string.
pub open spec fn string_view(text: Option<String>) -> Option<Seq<char>> {
    match text {
        Some(t) => Some(t@),
        None => None,
    }
}

/// `Headers::new` makes an empty collection.
pub assume_specification[ Headers::new ]() -> (r: Headers)
    ensures
        fields_of(r) == no_fields(),
;

/// Cloning a header collection keeps what it holds.
pub assume_specification[ <Headers as Clone>::clone ](headers: &Headers) -> (r: Headers)
    ensures
        fields_of(r) == fields_of(*headers),
;

/// Cloning the lines of a field keeps their bytes.
pub assume_specification[ <HeaderValues as Clone>::clone ](values: &HeaderValues) -> (r:
    HeaderValues)
    ensures
        lines_of(r) == lines_of(*values),
;

/// `Headers::get_str`: the text of the field, where it has exactly one line and that is UTF-8.
#[verifier::external_body]
pub(crate) fn get_str<'a>(headers: &'a Headers, name: &str) -> (r: Option<&'a str>)
    ensures
        text_view(r) == field_text(fields_of(*headers), name@),
{
    headers.get_str(name)
}

/// `Headers::get_values`: the lines of the field, where it is present.
#[verifier::external_body]
pub(crate) fn get_values<'a>(headers: &'a Headers, name: &str) -> (r: Option<&'a HeaderValues>)
    ensures
        match r {
            Some(values) => field(fields_of(*headers), name@) == Some(lines_of(*values)),
            None => field(fields_of(*headers), name@) is None,
        },
{
    headers.get_values(name)
}

/// `Headers::has_header`: whether the field is present.
#[verifier::external_body]
pub(crate) fn has_header(headers: &Headers, name: &str) -> (r: bool)
    ensures
        r == has_field(fields_of(*headers), name@),
{
    headers.has_header(name)
}

/// `Headers::insert`: the field now has these lines, in place of any it had.
#[verifier::external_body]
pub(crate) fn insert(headers: &mut Headers, name: &str, values: HeaderValues)
    ensures
        fields_of(*final(headers)) == fields_of(*old(headers)).insert(
            lower(name@),
            lines_of(values),
        ),
{
    headers.insert(name.to_string(), values);
}

/// `Headers::remove`: the field is gone.
#[verifier::external_body]
pub(crate) fn remove(headers: &mut Headers, name: &str)
    ensures
        fields_of(*final(headers)) == fields_of(*old(headers)).remove(lower(name@)),
{
    headers.remove(name);
}

/// `Headers::iter`: each field once, under a name of its own, in no stated order.
#[verifier::external_body]
pub(crate) fn all_fields<'a>(headers: &'a Headers) -> (r: Vec<(String, &'a HeaderValues)>)
    ensures
        forall|i: int|
            0 <= i < r@.len() ==> field(fields_of(*headers), (#[trigger] r@[i]).0@) == Some(
                lines_of(*r@[i].1),
            ),
        forall|i: int, j: int|
            0 <= i < j < r@.len() ==> lower((#[trigger] r@[i]).0@) != lower((#[trigger] r@[j]).0@),
        forall|name: Seq<char>| #[trigger]
            fields_of(*headers).contains_key(name) ==> exists|i: int|
                0 <= i < r@.len() && lower((#[trigger] r@[i]).0@) == name,
{
    headers.iter().map(|(name, values)| (name.as_ref().to_string(), values)).collect()
}

/// `HeaderValues::from` on a string: one line, the string's UTF-8 bytes.
#[verifier::external_body]
pub(crate) fn text_values(text: String) -> (r: HeaderValues)
    ensures
        lines_of(r) == text_lines(text@),
{
    HeaderValues::from(text)
}

/// `HeaderValue::as_str` on each line of a field: its text, where it is UTF-8.
#[verifier::external_body]
pub(crate) fn line_texts<'a>(values: &'a HeaderValues) -> (r: Vec<Option<&'a str>>)
    ensures
        r@.len() == lines_of(*values).len(),
        forall|i: int|
            0 <= i < r@.len() ==> text_view(#[trigger] r@[i]) == line_text(lines_of(*values)[i]),
{
    values.iter().map(|value| value.as_str()).collect()
}

/// `HeaderValue::as_ref` on each line of a field: its bytes.
#[verifier::external_body]
pub(crate) fn line_bytes<'a>(values: &'a HeaderValues) -> (r: Vec<&'a [u8]>)
    ensures
        r@.len() == lines_of(*values).len(),
        forall|i: int| 0 <= i < r@.len() ==> (#[trigger] r@[i])@ == lines_of(*values)[i],
{
    values.iter().map(|value| value.as_ref()).collect()
}

/// Adds the bytes of `more` to `out`.
pub(crate) fn push_bytes(out: &mut Vec<u8>, more: &[u8])
    ensures
        final(out)@ == old(out)@ + more@,
{
    let mut i: usize = 0;
    assert(out@ =~= old(out)@ + more@.take(0));
    while i < more.len()
        invariant
            i <= more.len(),
            out@ == old(out)@ + more@.take(i as int),
        decreases more.len() - i,
    {
        out.push(more[i]);
        assert(more@.take(i as int + 1) =~= more@.take(i as int).push(more@[i as int]));
        assert(out@ =~= old(out)@ + more@.take(i as int + 1));
        i += 1;
    }
    assert(more@.take(more@.len() as int) =~= more@);
}

/// The value of the field called `name`: all of its lines, as one comma-separated list.
pub fn whole_value(headers: &Headers, name: &str) -> (r: Option<Vec<u8>>)
    ensures
        bytes_view(r) == field_value(fields_of(*headers), name@),
{
    let values = match get_values(headers, name) {
        Some(values) => values,
        None => return None,
    };
    let lines = line_bytes(values);
    let ghost all = lines_of(*values);
    let mut out: Vec<u8> = Vec::new();
    let mut i: usize = 0;
    while i < lines.len()
        invariant
            i <= lines.len(),
            lines.len() == all.len(),
            forall|k: int| 0 <= k < lines.len() ==> (#[trigger] lines@[k])@ == all[k],
            out@ == joined_lines(all.take(i as int)),
        decreases lines.len() - i,
    {
        let ghost before = out@;
        if i > 0 {
            out.push(44);
            out.push(32);
        }
        push_bytes(&mut out, lines[i]);
        proof {
            assert(all.take(i as int + 1).drop_last() =~= all.take(i as int));
            assert(all.take(i as int + 1).last() == all[i as int]);
            if i > 0 {
                assert(out@ =~= before + seq![44u8, 32u8] + all[i as int]);
            } else {
                assert(out@ =~= all[0]);
            }
        }
        i += 1;
    }
    assert(all.take(all.len() as int) =~= all);
    Some(out)
}

/// The text of the field called `name`, which is a list, on all of its lines.
pub fn list_value(headers: &Headers, name: &str) -> (r: Option<String>)
    ensures
        string_view(r) == list_text(fields_of(*headers), name@),
{
    let values = match get_values(headers, name) {
        Some(values) => values,
        None => return None,
    };
    let texts = line_texts(values);
    let ghost all = lines_of(*values);
    let mut out: Option<String> = None;
    let mut i: usize = 0;
    while i < texts.len()
        invariant
            i <= texts.len(),
            texts.len() == all.len(),
            forall|k: int| 0 <= k < texts.len() ==> text_view(#[trigger] texts@[k]) == line_text(all[k]),
            out is Some <==> texts_in(all.take(i as int)).len() > 0,
            out matches Some(list) ==> list@ == joined(texts_in(all.take(i as int))),
        decreases texts.len() - i,
    {
        let ghost before = texts_in(all.take(i as int));
        proof {
            assert(all.take(i as int + 1).drop_last() =~= all.take(i as int));
            assert(all.take(i as int + 1).last() == all[i as int]);
            assert(text_view(texts@[i as int]) == line_text(all[i as int]));
        }
        if let Some(text) = texts[i] {
            assert(before.push(text@).drop_last() =~= before);
            out = Some(
                match out {
                    Some(list) => {
                        let mut list = list;
                        list.append(", ");
                        list.append(text);
                        list
                    },
                    None => text.to_owned(),
                },
            );
        }
        i += 1;
    }
    assert(all.take(all.len() as int) =~= all);
    out
}

/// A list that holds one text reads back as that text.
pub proof fn lemma_one_text(fields: Fields, name: Seq<char>, text: Seq<char>)
    requires
        field(fields, name) == Some(text_lines(text)),
    ensures
        list_text(fields, name) == Some(text),
{
    lemma_text_lines(text);
    let lines = text_lines(text);
    assert(lines.drop_last() =~= Seq::empty());
    assert(texts_in(lines.drop_last()) =~= Seq::empty());
    assert(texts_in(lines) =~= seq![text]);
}

/// A field that holds one text reads back as that text.
pub proof fn lemma_text_lines(text: Seq<char>)
    ensures
        line_text(encode_utf8(text)) == Some(text),
{
    vstd::utf8::encode_utf8_valid_utf8(text);
    vstd::utf8::encode_utf8_decode_utf8(text);
}

/// A copy of the trailers of a body.
pub(crate) fn clone_trailers(trailers: &Option<Headers>) -> (r: Option<Headers>)
    ensures
        trailers_view(r) == trailers_view(*trailers),
{
    match trailers {
        Some(headers) => Some(headers.clone()),
        None => None,
    }
}

} // verus!
