//! Laws on how header fields are looked up and read.
use trillium_http::Headers;
use vstd::prelude::*;
use vstd::utf8::encode_utf8;

use crate::headers::{
    bytes_view, field, field_text, field_value, fields_of, has_field, line_text, list_text,
    list_value, string_view, texts_in, whole_value, Fields,
};
use crate::policy::{field_names, listed_names};
use crate::text::{list_tokens, lower, lower_char, views};

verus! {

/// Lower case changes the letters `A` to `Z` and nothing else.
pub proof fn lower_case_is_that_of_ascii(s: Seq<char>)
    ensures
        lower(s).len() == s.len(),
        forall|i: int|
            0 <= i < s.len() ==> #[trigger] lower(s)[i] == if 'A' <= s[i] <= 'Z' {
                (s[i] as u32 + 32) as char
            } else {
                s[i]
            },
        lower(lower(s)) == lower(s),
{
    assert forall|i: int| 0 <= i < s.len() implies lower(lower(s))[i] == lower(s)[i] by {
        assert(lower_char(lower_char(s[i])) == lower_char(s[i]));
    }
    assert(lower(lower(s)) =~= lower(s));
}

/// A text without capital letters is its own lower case.
pub proof fn lower_case_texts_stay(s: Seq<char>)
    requires
        forall|i: int| 0 <= i < s.len() ==> !('A' <= #[trigger] s[i] <= 'Z'),
    ensures
        lower(s) == s,
{
    assert(lower(s) =~= s);
}

/// A field is found under its name in any letter case, and it is what stands under the lower-case
/// name.
pub proof fn fields_are_found_in_any_case(fields: Fields, name: Seq<char>)
    ensures
        has_field(fields, name) == fields.contains_key(lower(name)),
        field(fields, name) is Some == fields.contains_key(lower(name)),
        fields.contains_key(lower(name)) ==> field(fields, name) == Some(fields[lower(name)]),
        field(fields, lower(name)) == field(fields, name),
        field_value(fields, lower(name)) == field_value(fields, name),
        field_text(fields, lower(name)) == field_text(fields, name),
        list_text(fields, lower(name)) == list_text(fields, name),
{
    lower_case_is_that_of_ascii(name);
}

/// A field reads as a text exactly where it has one line, and that is the text in UTF-8.
pub proof fn a_text_is_one_line(fields: Fields, name: Seq<char>, text: Seq<char>)
    ensures
        field_text(fields, name) == Some(text) <==> fields.contains_key(lower(name))
            && fields[lower(name)] == seq![encode_utf8(text)],
{
    crate::headers::lemma_text_lines(text);
    if field_text(fields, name) == Some(text) {
        vstd::utf8::decode_utf8_encode_utf8(fields[lower(name)][0]);
        assert(fields[lower(name)] =~= seq![encode_utf8(text)]);
    }
}

/// A field has a value exactly where it is there, and the value of a field with one line is that
/// line, whatever the field is called.
pub proof fn the_value_of_one_line_is_the_line(headers: &Headers, name: &str, r: Option<Vec<u8>>)
    requires
        call_ensures(whole_value, (headers, name), r),
    ensures
        r is Some <==> fields_of(*headers).contains_key(lower(name@)),
        r is Some && fields_of(*headers)[lower(name@)].len() == 0 ==> r->0@.len() == 0,
        r is Some && fields_of(*headers)[lower(name@)].len() == 1 ==> r->0@ == fields_of(
            *headers,
        )[lower(name@)][0],
{
}

/// A further line adds itself to the value of a field, behind a comma and a space.
pub proof fn lines_add_to_the_value(
    fields: Fields,
    name: Seq<char>,
    lines: Seq<Seq<u8>>,
    line: Seq<u8>,
)
    requires
        lines.len() > 0,
    ensures
        field_value(fields.insert(lower(name), lines.push(line)), name) == Some(
            field_value(fields.insert(lower(name), lines), name)->0 + seq![44u8, 32u8] + line,
        ),
{
    assert(lines.push(line).drop_last() =~= lines);
}

/// The names that a field lists are those that its lines list, each line by itself and in order;
/// a line that is no text lists none.
pub proof fn lines_list_their_names(
    fields: Fields,
    name: Seq<char>,
    lines: Seq<Seq<u8>>,
    line: Seq<u8>,
)
    ensures
        !fields.contains_key(lower(name)) ==> listed_names(fields, name).len() == 0,
        listed_names(fields.insert(lower(name), Seq::empty()), name) == Seq::<Seq<char>>::empty(),
        listed_names(fields.insert(lower(name), lines.push(line)), name) == listed_names(
            fields.insert(lower(name), lines),
            name,
        ) + match line_text(line) {
            Some(text) => list_tokens(text),
            None => Seq::empty(),
        },
{
    assert(lines.push(line).drop_last() =~= lines);
}

/// The text of a list is that of its lines, each behind a comma and a space but the first; lines
/// that are no text are passed over.
pub proof fn lines_add_to_the_list(
    fields: Fields,
    name: Seq<char>,
    lines: Seq<Seq<u8>>,
    text: Seq<char>,
    line: Seq<u8>,
)
    ensures
        !fields.contains_key(lower(name)) ==> list_text(fields, name) is None,
        list_text(fields.insert(lower(name), Seq::empty()), name) is None,
        list_text(fields.insert(lower(name), lines.push(encode_utf8(text))), name) == Some(
            match list_text(fields.insert(lower(name), lines), name) {
                Some(before) => before + seq![',', ' '] + text,
                None => text,
            },
        ),
        line_text(line) is None ==> list_text(fields.insert(lower(name), lines.push(line)), name)
            == list_text(fields.insert(lower(name), lines), name),
{
    reveal_strlit(", ");
    assert(", "@ =~= seq![',', ' ']);
    crate::headers::lemma_text_lines(text);
    let more = lines.push(encode_utf8(text));
    assert(more.drop_last() =~= lines);
    assert(lines.push(line).drop_last() =~= lines);
    let texts = texts_in(lines);
    assert(texts_in(more) == texts.push(text));
    assert(texts.push(text).drop_last() =~= texts);
    if texts.len() == 0 {
        assert(texts.push(text) =~= seq![text]);
    }
}

/// The names and the list that are read of a header are those of its field.
pub proof fn headers_are_read_by_their_fields(
    headers: &Headers,
    name: &str,
    names: Vec<&str>,
    list: Option<String>,
    value: Option<Vec<u8>>,
)
    requires
        call_ensures(field_names, (headers, name), names),
        call_ensures(list_value, (headers, name), list),
        call_ensures(whole_value, (headers, name), value),
    ensures
        views(names@) == listed_names(fields_of(*headers), name@),
        string_view(list) == list_text(fields_of(*headers), name@),
        bytes_view(value) == field_value(fields_of(*headers), name@),
{
}

/// The names of the fields that the cache heeds are in lower case: each is looked up as it is
/// written.
pub proof fn heeded_names_are_in_lower_case()
    ensures
        lower("accept-ranges"@) == "accept-ranges"@,
        lower("age"@) == "age"@,
        lower("authorization"@) == "authorization"@,
        lower("cache-control"@) == "cache-control"@,
        lower("cdn-cache-control"@) == "cdn-cache-control"@,
        lower("connection"@) == "connection"@,
        lower("content-encoding"@) == "content-encoding"@,
        lower("content-length"@) == "content-length"@,
        lower("content-location"@) == "content-location"@,
        lower("content-range"@) == "content-range"@,
        lower("content-type"@) == "content-type"@,
        lower("cookie"@) == "cookie"@,
        lower("date"@) == "date"@,
        lower("etag"@) == "etag"@,
        lower("expires"@) == "expires"@,
        lower("if-match"@) == "if-match"@,
        lower("if-modified-since"@) == "if-modified-since"@,
        lower("if-none-match"@) == "if-none-match"@,
        lower("if-range"@) == "if-range"@,
        lower("if-unmodified-since"@) == "if-unmodified-since"@,
        lower("keep-alive"@) == "keep-alive"@,
        lower("last-modified"@) == "last-modified"@,
        lower("location"@) == "location"@,
        lower("pragma"@) == "pragma"@,
        lower("proxy-authenticate"@) == "proxy-authenticate"@,
        lower("proxy-authorization"@) == "proxy-authorization"@,
        lower("set-cookie"@) == "set-cookie"@,
        lower("te"@) == "te"@,
        lower("trailer"@) == "trailer"@,
        lower("transfer-encoding"@) == "transfer-encoding"@,
        lower("upgrade"@) == "upgrade"@,
        lower("vary"@) == "vary"@,
{
    reveal_strlit("accept-ranges");
    lower_case_texts_stay("accept-ranges"@);
    reveal_strlit("age");
    lower_case_texts_stay("age"@);
    reveal_strlit("authorization");
    lower_case_texts_stay("authorization"@);
    reveal_strlit("cache-control");
    lower_case_texts_stay("cache-control"@);
    reveal_strlit("cdn-cache-control");
    lower_case_texts_stay("cdn-cache-control"@);
    reveal_strlit("connection");
    lower_case_texts_stay("connection"@);
    reveal_strlit("content-encoding");
    lower_case_texts_stay("content-encoding"@);
    reveal_strlit("content-length");
    lower_case_texts_stay("content-length"@);
    reveal_strlit("content-location");
    lower_case_texts_stay("content-location"@);
    reveal_strlit("content-range");
    lower_case_texts_stay("content-range"@);
    reveal_strlit("content-type");
    lower_case_texts_stay("content-type"@);
    reveal_strlit("cookie");
    lower_case_texts_stay("cookie"@);
    reveal_strlit("date");
    lower_case_texts_stay("date"@);
    reveal_strlit("etag");
    lower_case_texts_stay("etag"@);
    reveal_strlit("expires");
    lower_case_texts_stay("expires"@);
    reveal_strlit("if-match");
    lower_case_texts_stay("if-match"@);
    reveal_strlit("if-modified-since");
    lower_case_texts_stay("if-modified-since"@);
    reveal_strlit("if-none-match");
    lower_case_texts_stay("if-none-match"@);
    reveal_strlit("if-range");
    lower_case_texts_stay("if-range"@);
    reveal_strlit("if-unmodified-since");
    lower_case_texts_stay("if-unmodified-since"@);
    reveal_strlit("keep-alive");
    lower_case_texts_stay("keep-alive"@);
    reveal_strlit("last-modified");
    lower_case_texts_stay("last-modified"@);
    reveal_strlit("location");
    lower_case_texts_stay("location"@);
    reveal_strlit("pragma");
    lower_case_texts_stay("pragma"@);
    reveal_strlit("proxy-authenticate");
    lower_case_texts_stay("proxy-authenticate"@);
    reveal_strlit("proxy-authorization");
    lower_case_texts_stay("proxy-authorization"@);
    reveal_strlit("set-cookie");
    lower_case_texts_stay("set-cookie"@);
    reveal_strlit("te");
    lower_case_texts_stay("te"@);
    reveal_strlit("trailer");
    lower_case_texts_stay("trailer"@);
    reveal_strlit("transfer-encoding");
    lower_case_texts_stay("transfer-encoding"@);
    reveal_strlit("upgrade");
    lower_case_texts_stay("upgrade"@);
    reveal_strlit("vary");
    lower_case_texts_stay("vary"@);
}

} // verus!
