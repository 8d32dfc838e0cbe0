//! Laws on the names under which responses are stored.
use vstd::prelude::*;
use vstd::utf8::{
    encode_scalar, encode_utf8, has_width_1_encoding, last_continuation_byte, leading_byte_width_1,
    leading_byte_width_2, leading_byte_width_3, leading_byte_width_4, second_last_continuation_byte,
    third_last_continuation_byte,
};

use crate::hashing::{
    entry_bytes, hash_hex, hex, hex_digit, key_hash, sha256, signature, to_hex, variant_hash,
    variant_signature,
};
use crate::http::Method;
use crate::policy::{CachePolicy, PolicyView, Selection};
use crate::storage::{CacheKey, KeyView};

verus! {

/// Policies of the same variant are stored under the same name.
pub proof fn a_variant_has_one_name(a: PolicyView, b: PolicyView)
    requires
        a.vary == b.vary,
    ensures
        hex(sha256(signature(a.vary))) == hex(sha256(signature(b.vary))),
{
}

/// Different digests are spelled differently.
pub proof fn spelling_tells_digests_apart(a: Seq<u8>, b: Seq<u8>)
    requires
        hex(a) == hex(b),
    ensures
        a == b,
{
    assert(hex(a).len() == 2 * a.len());
    assert(hex(b).len() == 2 * b.len());
    assert forall|i: int| 0 <= i < a.len() implies a[i] == b[i] by {
        assert(hex(a)[2 * i] == hex_digit((a[i] / 16) as int));
        assert(hex(a)[2 * i + 1] == hex_digit((a[i] % 16) as int));
        assert(hex(b)[2 * i] == hex_digit((b[i] / 16) as int));
        assert(hex(b)[2 * i + 1] == hex_digit((b[i] % 16) as int));
        lemma_hex_digit((a[i] / 16) as int, (b[i] / 16) as int);
        lemma_hex_digit((a[i] % 16) as int, (b[i] % 16) as int);
        assert(a[i] == 16 * (a[i] / 16) + a[i] % 16);
        assert(b[i] == 16 * (b[i] / 16) + b[i] % 16);
    }
    assert(a =~= b);
}

proof fn lemma_hex_digit(m: int, n: int)
    requires
        0 <= m < 16,
        0 <= n < 16,
        hex_digit(m) == hex_digit(n),
    ensures
        m == n,
{
}

/// Whether a text has no NUL character. No header that came over the wire has one.
pub open spec fn nul_free(s: Seq<char>) -> bool {
    forall|i: int| 0 <= i < s.len() ==> #[trigger] s[i] != '\0'
}

/// Whether no name or value of a selection has a NUL character.
pub open spec fn nul_free_selection(vary: Selection) -> bool {
    forall|i: int|
        0 <= i < vary.len() ==> nul_free((#[trigger] vary[i]).0) && (vary[i].1 matches Some(value)
            ==> zero_free(value))
}

/// Whether bytes are free of zero bytes.
pub open spec fn zero_free(bytes: Seq<u8>) -> bool {
    forall|i: int| 0 <= i < bytes.len() ==> #[trigger] bytes[i] != 0
}

proof fn lemma_bytes_not_zero(v: u32)
    by (bit_vector)
    requires
        v != 0,
    ensures
        v <= 0x7f ==> (v & 0x7f) as u8 != 0u8,
        (0xC0u8 | ((v >> 6) & 0x1F) as u8) != 0u8,
        (0xE0u8 | ((v >> 12) & 0x0F) as u8) != 0u8,
        (0xF0u8 | ((v >> 18) & 0x7) as u8) != 0u8,
        (0x80u8 | (v & 0x3F) as u8) != 0u8,
        (0x80u8 | ((v >> 6) & 0x3F) as u8) != 0u8,
        (0x80u8 | ((v >> 12) & 0x3F) as u8) != 0u8,
{
}

proof fn lemma_scalar_zero_free(v: u32)
    requires
        v != 0,
    ensures
        zero_free(encode_scalar(v)),
{
    lemma_bytes_not_zero(v);
    assert(has_width_1_encoding(v) ==> leading_byte_width_1(v) != 0);
    assert(leading_byte_width_2(v) != 0);
    assert(leading_byte_width_3(v) != 0);
    assert(leading_byte_width_4(v) != 0);
    assert(last_continuation_byte(v) != 0);
    assert(second_last_continuation_byte(v) != 0);
    assert(third_last_continuation_byte(v) != 0);
}

proof fn lemma_char_not_zero(c: char)
    requires
        c != '\0',
    ensures
        c as u32 != 0,
{
}

proof fn lemma_encoded_zero_free(s: Seq<char>)
    requires
        nul_free(s),
    ensures
        zero_free(encode_utf8(s)),
    decreases s.len(),
{
    if s.len() > 0 {
        lemma_char_not_zero(s[0]);
        lemma_scalar_zero_free(s[0] as u32);
        assert forall|i: int| 0 <= i < s.drop_first().len() implies #[trigger] s.drop_first()[i]
            != '\0' by {
            assert(s.drop_first()[i] == s[i + 1]);
        }
        lemma_encoded_zero_free(s.drop_first());
    }
}

proof fn lemma_same_encoding(a: Seq<char>, b: Seq<char>)
    requires
        encode_utf8(a) == encode_utf8(b),
    ensures
        a == b,
{
    vstd::utf8::encode_utf8_decode_utf8(a);
    vstd::utf8::encode_utf8_decode_utf8(b);
}

/// Where two texts of bytes are each zero-free up to a zero byte, and the whole agrees, the texts
/// and what follows agree.
proof fn lemma_cut_at_zero(a: Seq<u8>, rest_a: Seq<u8>, b: Seq<u8>, rest_b: Seq<u8>)
    requires
        zero_free(a),
        zero_free(b),
        a + seq![0u8] + rest_a == b + seq![0u8] + rest_b,
    ensures
        a == b,
        rest_a == rest_b,
{
    let x = a + seq![0u8] + rest_a;
    let y = b + seq![0u8] + rest_b;
    if a.len() < b.len() {
        assert(x[a.len() as int] == 0);
        assert(y[a.len() as int] == b[a.len() as int]);
        assert(false);
    }
    if b.len() < a.len() {
        assert(y[b.len() as int] == 0);
        assert(x[b.len() as int] == a[b.len() as int]);
        assert(false);
    }
    assert forall|i: int| 0 <= i < a.len() implies a[i] == b[i] by {
        assert(x[i] == a[i]);
        assert(y[i] == b[i]);
    }
    assert(a =~= b);
    assert(x.skip(a.len() as int + 1) =~= rest_a);
    assert(y.skip(b.len() as int + 1) =~= rest_b);
}

proof fn lemma_signature_front(vary: Selection)
    requires
        vary.len() > 0,
    ensures
        signature(vary) == entry_bytes(vary[0].0, vary[0].1) + signature(vary.skip(1)),
    decreases vary.len(),
{
    if vary.len() == 1 {
        assert(signature(vary.drop_last()) =~= Seq::<u8>::empty());
        assert(signature(vary.skip(1)) =~= Seq::<u8>::empty());
        assert(signature(vary) =~= entry_bytes(vary[0].0, vary[0].1));
        assert(entry_bytes(vary[0].0, vary[0].1) + signature(vary.skip(1)) =~= entry_bytes(
            vary[0].0,
            vary[0].1,
        ));
    } else {
        lemma_signature_front(vary.drop_last());
        assert(vary.drop_last().skip(1) =~= vary.skip(1).drop_last());
        assert(vary.skip(1).last() == vary.last());
        assert(vary.drop_last()[0] == vary[0]);
        let last = entry_bytes(vary.last().0, vary.last().1);
        assert(signature(vary) =~= entry_bytes(vary[0].0, vary[0].1) + (signature(
            vary.drop_last().skip(1),
        ) + last));
    }
}

proof fn lemma_signature_nonempty(vary: Selection)
    requires
        vary.len() > 0,
    ensures
        signature(vary).len() > 0,
{
    lemma_signature_front(vary);
}

proof fn lemma_entries_apart(
    a: (Seq<char>, Option<Seq<u8>>),
    tail_a: Seq<u8>,
    b: (Seq<char>, Option<Seq<u8>>),
    tail_b: Seq<u8>,
)
    requires
        nul_free(a.0),
        a.1 matches Some(value) ==> zero_free(value),
        nul_free(b.0),
        b.1 matches Some(value) ==> zero_free(value),
        entry_bytes(a.0, a.1) + tail_a == entry_bytes(b.0, b.1) + tail_b,
    ensures
        a == b,
        tail_a == tail_b,
{
    let mark_a = value_bytes(a.1);
    let mark_b = value_bytes(b.1);
    let rest_a = mark_a + seq![0u8] + tail_a;
    let rest_b = mark_b + seq![0u8] + tail_b;
    assert(entry_bytes(a.0, a.1) + tail_a =~= encode_utf8(a.0) + seq![0u8] + rest_a);
    assert(entry_bytes(b.0, b.1) + tail_b =~= encode_utf8(b.0) + seq![0u8] + rest_b);
    lemma_encoded_zero_free(a.0);
    lemma_encoded_zero_free(b.0);
    lemma_cut_at_zero(encode_utf8(a.0), rest_a, encode_utf8(b.0), rest_b);
    lemma_same_encoding(a.0, b.0);
    assert(rest_a[0] == mark_a[0]);
    assert(rest_b[0] == mark_b[0]);
    match (a.1, b.1) {
        (Some(x), Some(y)) => {
            assert(rest_a.skip(1) =~= x + seq![0u8] + tail_a);
            assert(rest_b.skip(1) =~= y + seq![0u8] + tail_b);
            lemma_cut_at_zero(x, tail_a, y, tail_b);
        },
        (None, None) => {
            assert(rest_a.skip(2) =~= tail_a);
            assert(rest_b.skip(2) =~= tail_b);
        },
        _ => {
            assert(false);
        },
    }
}

/// The bytes that stand for a variant stand for no other: two selections without NUL characters
/// that have the same bytes are the same. Variants are told apart as well as SHA-256 tells their
/// bytes apart.
pub proof fn signatures_tell_variants_apart(a: Selection, b: Selection)
    requires
        nul_free_selection(a),
        nul_free_selection(b),
        signature(a) == signature(b),
    ensures
        a == b,
    decreases a.len(),
{
    if a.len() == 0 || b.len() == 0 {
        if a.len() > 0 {
            lemma_signature_nonempty(a);
        }
        if b.len() > 0 {
            lemma_signature_nonempty(b);
        }
        assert(a =~= b);
    } else {
        lemma_signature_front(a);
        lemma_signature_front(b);
        assert(nul_free(a[0].0) && nul_free(b[0].0));
        lemma_entries_apart(a[0], signature(a.skip(1)), b[0], signature(b.skip(1)));
        assert forall|i: int| 0 <= i < a.skip(1).len() implies nul_free(
            (#[trigger] a.skip(1)[i]).0,
        ) && (a.skip(1)[i].1 matches Some(value) ==> zero_free(value)) by {
            assert(a.skip(1)[i] == a[i + 1]);
        }
        assert forall|i: int| 0 <= i < b.skip(1).len() implies nul_free(
            (#[trigger] b.skip(1)[i]).0,
        ) && (b.skip(1)[i].1 matches Some(value) ==> zero_free(value)) by {
            assert(b.skip(1)[i] == b[i + 1]);
        }
        signatures_tell_variants_apart(a.skip(1), b.skip(1));
        assert(a =~= seq![a[0]] + a.skip(1));
        assert(b =~= seq![b[0]] + b.skip(1));
    }
}

/// Variants are stored under the same name exactly where they are the same, as far as SHA-256 tells
/// the bytes that stand for them apart. An absent header and an empty one make two variants.
pub proof fn names_tell_variants_apart(a: PolicyView, b: PolicyView)
    requires
        nul_free_selection(a.vary),
        nul_free_selection(b.vary),
        sha256(signature(a.vary)) == sha256(signature(b.vary)) ==> signature(a.vary) == signature(
            b.vary,
        ),
    ensures
        hex(sha256(signature(a.vary))) == hex(sha256(signature(b.vary))) <==> a.vary == b.vary,
{
    if hex(sha256(signature(a.vary))) == hex(sha256(signature(b.vary))) {
        spelling_tells_digests_apart(sha256(signature(a.vary)), sha256(signature(b.vary)));
        signatures_tell_variants_apart(a.vary, b.vary);
    }
}

spec fn value_bytes(value: Option<Seq<u8>>) -> Seq<u8> {
    match value {
        Some(bytes) => seq![1u8] + bytes,
        None => seq![0u8],
    }
}

/// Three characters by which the spelling of a method is told from all others.
spec fn marks(method: Method) -> (char, char, char) {
    match method {
        Method::Acl => ('A', 'L', 'C'),
        Method::BaselineControl => ('B', 'S', 'O'),
        Method::Bind => ('B', 'N', 'N'),
        Method::Checkin => ('C', 'E', 'I'),
        Method::Checkout => ('C', 'E', 'U'),
        Method::Connect => ('C', 'N', 'C'),
        Method::Copy => ('C', 'P', 'P'),
        Method::Delete => ('D', 'L', 'T'),
        Method::Get => ('G', 'T', 'E'),
        Method::Head => ('H', 'A', 'A'),
        Method::Label => ('L', 'B', 'E'),
        Method::Link => ('L', 'N', 'N'),
        Method::Lock => ('L', 'C', 'C'),
        Method::Merge => ('M', 'R', 'G'),
        Method::MkActivity => ('M', 'A', 'T'),
        Method::MkCalendar => ('M', 'C', 'A'),
        Method::MkCol => ('M', 'C', 'O'),
        Method::MkRedirectRef => ('M', 'R', 'E'),
        Method::MkWorkspace => ('M', 'W', 'C'),
        Method::Move => ('M', 'V', 'V'),
        Method::Options => ('O', 'T', 'N'),
        Method::OrderPatch => ('O', 'D', 'C'),
        Method::Patch => ('P', 'T', 'C'),
        Method::Post => ('P', 'S', 'S'),
        Method::Pri => ('P', 'I', 'R'),
        Method::PropFind => ('P', 'O', 'N'),
        Method::PropPatch => ('P', 'O', 'C'),
        Method::Put => ('P', 'T', 'U'),
        Method::Query => ('Q', 'E', 'R'),
        Method::Rebind => ('R', 'B', 'N'),
        Method::Report => ('R', 'P', 'R'),
        Method::Search => ('S', 'A', 'C'),
        Method::Trace => ('T', 'A', 'C'),
        Method::Unbind => ('U', 'B', 'N'),
        Method::Uncheckout => ('U', 'C', 'U'),
        Method::Unlink => ('U', 'L', 'N'),
        Method::Unlock => ('U', 'L', 'C'),
        Method::Update => ('U', 'D', 'T'),
        Method::UpdateRedirectRef => ('U', 'D', 'E'),
        Method::VersionControl => ('V', 'R', 'O'),
    }
}

spec fn space_free(s: Seq<char>) -> bool {
    forall|i: int| 0 <= i < s.len() ==> #[trigger] s[i] != ' '
}

proof fn lemma_token(method: Method)
    ensures
        method.token().len() >= 3,
        space_free(method.token()),
        marks(method) == (
            method.token()[0],
            method.token()[2],
            method.token()[method.token().len() - 2],
        ),
{
    match method {
        Method::Acl => {
            reveal_strlit("ACL");
        },
        Method::BaselineControl => {
            reveal_strlit("BASELINE-CONTROL");
        },
        Method::Bind => {
            reveal_strlit("BIND");
        },
        Method::Checkin => {
            reveal_strlit("CHECKIN");
        },
        Method::Checkout => {
            reveal_strlit("CHECKOUT");
        },
        Method::Connect => {
            reveal_strlit("CONNECT");
        },
        Method::Copy => {
            reveal_strlit("COPY");
        },
        Method::Delete => {
            reveal_strlit("DELETE");
        },
        Method::Get => {
            reveal_strlit("GET");
        },
        Method::Head => {
            reveal_strlit("HEAD");
        },
        Method::Label => {
            reveal_strlit("LABEL");
        },
        Method::Link => {
            reveal_strlit("LINK");
        },
        Method::Lock => {
            reveal_strlit("LOCK");
        },
        Method::Merge => {
            reveal_strlit("MERGE");
        },
        Method::MkActivity => {
            reveal_strlit("MKACTIVITY");
        },
        Method::MkCalendar => {
            reveal_strlit("MKCALENDAR");
        },
        Method::MkCol => {
            reveal_strlit("MKCOL");
        },
        Method::MkRedirectRef => {
            reveal_strlit("MKREDIRECTREF");
        },
        Method::MkWorkspace => {
            reveal_strlit("MKWORKSPACE");
        },
        Method::Move => {
            reveal_strlit("MOVE");
        },
        Method::Options => {
            reveal_strlit("OPTIONS");
        },
        Method::OrderPatch => {
            reveal_strlit("ORDERPATCH");
        },
        Method::Patch => {
            reveal_strlit("PATCH");
        },
        Method::Post => {
            reveal_strlit("POST");
        },
        Method::Pri => {
            reveal_strlit("PRI");
        },
        Method::PropFind => {
            reveal_strlit("PROPFIND");
        },
        Method::PropPatch => {
            reveal_strlit("PROPPATCH");
        },
        Method::Put => {
            reveal_strlit("PUT");
        },
        Method::Query => {
            reveal_strlit("QUERY");
        },
        Method::Rebind => {
            reveal_strlit("REBIND");
        },
        Method::Report => {
            reveal_strlit("REPORT");
        },
        Method::Search => {
            reveal_strlit("SEARCH");
        },
        Method::Trace => {
            reveal_strlit("TRACE");
        },
        Method::Unbind => {
            reveal_strlit("UNBIND");
        },
        Method::Uncheckout => {
            reveal_strlit("UNCHECKOUT");
        },
        Method::Unlink => {
            reveal_strlit("UNLINK");
        },
        Method::Unlock => {
            reveal_strlit("UNLOCK");
        },
        Method::Update => {
            reveal_strlit("UPDATE");
        },
        Method::UpdateRedirectRef => {
            reveal_strlit("UPDATEREDIRECTREF");
        },
        Method::VersionControl => {
            reveal_strlit("VERSION-CONTROL");
        },
    }
}

proof fn lemma_marks(a: Method, b: Method)
    requires
        marks(a) == marks(b),
    ensures
        a == b,
{
}

/// Different keys are written as different lines: two keys with the same text are the same.
pub proof fn texts_tell_keys_apart(a: KeyView, b: KeyView)
    requires
        a.text() == b.text(),
    ensures
        a == b,
{
    reveal_strlit(" ");
    lemma_token(a.method);
    lemma_token(b.method);
    let x = a.method.token();
    let y = b.method.token();
    assert(a.text()[x.len() as int] == ' ');
    assert(b.text()[y.len() as int] == ' ');
    if x.len() < y.len() {
        assert(b.text()[x.len() as int] == y[x.len() as int]);
        assert(false);
    }
    if y.len() < x.len() {
        assert(a.text()[y.len() as int] == x[y.len() as int]);
        assert(false);
    }
    assert forall|i: int| 0 <= i < x.len() implies x[i] == y[i] by {
        assert(a.text()[i] == x[i]);
        assert(b.text()[i] == y[i]);
    }
    assert(x =~= y);
    lemma_marks(a.method, b.method);
    assert(a.text().skip(x.len() as int + 1) =~= a.url);
    assert(b.text().skip(y.len() as int + 1) =~= b.url);
}

/// The number that a lower-case hexadecimal digit stands for; sixteen for any other character.
pub open spec fn digit_value(c: char) -> int {
    if 48 <= c as int <= 57 {
        c as int - 48
    } else if 97 <= c as int <= 102 {
        c as int - 87
    } else {
        16
    }
}

/// Whether a text spells bytes, with two lower-case hexadecimal digits for each.
pub open spec fn spells(text: Seq<char>, bytes: Seq<u8>) -> bool {
    &&& text.len() == 2 * bytes.len()
    &&& forall|i: int|
        0 <= i < bytes.len() ==> digit_value(text[2 * i]) < 16 && digit_value(text[2 * i + 1]) < 16
            && 16 * digit_value(text[2 * i]) + digit_value(text[2 * i + 1]) == #[trigger] bytes[i]
}

proof fn lemma_spells(bytes: Seq<u8>)
    ensures
        spells(hex(bytes), bytes),
{
    let text = hex(bytes);
    assert forall|i: int| 0 <= i < bytes.len() implies digit_value(text[2 * i]) < 16 && digit_value(
        text[2 * i + 1],
    ) < 16 && 16 * digit_value(text[2 * i]) + digit_value(text[2 * i + 1])
        == #[trigger] bytes[i] by {
        assert(text[2 * i] == hex_digit((bytes[i] / 16) as int));
        assert(text[2 * i + 1] == hex_digit((bytes[i] % 16) as int));
        lemma_digit_value((bytes[i] / 16) as int);
        lemma_digit_value((bytes[i] % 16) as int);
    }
}

proof fn lemma_digit_value(n: int)
    requires
        0 <= n < 16,
    ensures
        digit_value(hex_digit(n)) == n,
{
}

/// A key is named by the digest of its line: method, space, URL.
pub proof fn keys_are_named_by_their_digest(key: &CacheKey, r: String)
    requires
        call_ensures(key_hash, (key,), r),
    ensures
        spells(r@, sha256(encode_utf8(key@.method.token() + seq![' '] + key@.url))),
{
    reveal_strlit(" ");
    assert(" "@ =~= seq![' ']);
    lemma_spells(sha256(encode_utf8(key@.text())));
}

/// The bytes that stand for a variant, from its first selecting header on: the name, a zero byte, a
/// zero byte where the header was not there and a one byte and its value where it was, and a zero
/// byte.
pub open spec fn bytes_of_variant(vary: Selection) -> Seq<u8>
    decreases vary.len(),
{
    if vary.len() == 0 {
        Seq::empty()
    } else {
        let rest = bytes_of_variant(vary.skip(1));
        match vary[0].1 {
            None => encode_utf8(vary[0].0) + seq![0u8, 0u8, 0u8] + rest,
            Some(value) => encode_utf8(vary[0].0) + seq![0u8, 1u8] + value + seq![0u8] + rest,
        }
    }
}

proof fn lemma_bytes_of_variant(vary: Selection)
    ensures
        bytes_of_variant(vary) == signature(vary),
    decreases vary.len(),
{
    if vary.len() > 0 {
        lemma_signature_front(vary);
        lemma_bytes_of_variant(vary.skip(1));
        assert(bytes_of_variant(vary) =~= signature(vary));
    }
}

/// A variant is named by the digest of the bytes that stand for it.
pub proof fn variants_are_named_by_their_digest(policy: &CachePolicy, bytes: Vec<u8>, r: String)
    requires
        call_ensures(variant_signature, (policy,), bytes),
        call_ensures(variant_hash, (policy,), r),
    ensures
        bytes@ == bytes_of_variant(policy@.vary),
        spells(r@, sha256(bytes@)),
{
    lemma_bytes_of_variant(policy@.vary);
    lemma_spells(sha256(bytes@));
}

/// Bytes are spelled in hexadecimal, and so are digests.
pub proof fn bytes_are_spelled_in_hexadecimal(bytes: &Vec<u8>, message: &[u8], a: String, b: String)
    requires
        call_ensures(to_hex, (bytes,), a),
        call_ensures(hash_hex, (message,), b),
    ensures
        spells(a@, bytes@),
        spells(b@, sha256(message@)),
{
    lemma_spells(bytes@);
    lemma_spells(sha256(message@));
}

} // verus!
