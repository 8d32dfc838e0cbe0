//! Hashes that name stored responses: of a cache key, and of a `Vary` variant.
use sha2::{Digest, Sha256};
use vstd::prelude::*;
use vstd::string::*;
use vstd::utf8::encode_utf8;

use crate::headers::{bytes_view, push_bytes};
use crate::policy::{selection_view, CachePolicy, Selection};
use crate::storage::CacheKey;

verus! {

/// The SHA-256 digest of a message.
pub uninterp spec fn sha256(message: Seq<u8>) -> Seq<u8>;

/// `Sha256::digest`. A digest has 32 bytes.
#[verifier::external_body]
pub(crate) fn sha256_digest(message: &[u8]) -> (r: Vec<u8>)
    ensures
        r@ == sha256(message@),
        r@.len() == 32,
{
    Sha256::digest(message).to_vec()
}

/// The hexadecimal digit for a number below sixteen, in lower case.
pub open spec fn hex_digit(n: int) -> char {
    (if n < 10 {
        '0' as u32 + n
    } else {
        'a' as u32 + n - 10
    }) as char
}

/// The lower-case hexadecimal spelling of `bytes`: two digits for each.
pub open spec fn hex(bytes: Seq<u8>) -> Seq<char> {
    Seq::new(
        2 * bytes.len(),
        |i: int|
            hex_digit(
                if i % 2 == 0 {
                    bytes[i / 2] / 16
                } else {
                    bytes[i / 2] % 16
                } as int,
            ),
    )
}

/// Whether a character is a lower-case hexadecimal digit.
pub open spec fn is_hex_digit(c: char) -> bool {
    '0' <= c <= '9' || 'a' <= c <= 'f'
}

/// Whether a text spells a digest: 64 lower-case hexadecimal digits.
pub open spec fn spells_digest(s: Seq<char>) -> bool {
    s.len() == 64 && (forall|i: int| 0 <= i < s.len() ==> is_hex_digit(#[trigger] s[i]))
}

/// The bytes that stand for one selecting header: its name, a zero byte, its value behind a one
/// byte or, where it has none, a zero byte, and a last zero byte.
pub open spec fn entry_bytes(name: Seq<char>, value: Option<Seq<u8>>) -> Seq<u8> {
    encode_utf8(name) + seq![0u8] + (match value {
        Some(bytes) => seq![1u8] + bytes,
        None => seq![0u8],
    }) + seq![0u8]
}

/// The bytes that stand for a variant.
pub open spec fn signature(vary: Selection) -> Seq<u8>
    decreases vary.len(),
{
    if vary.len() == 0 {
        Seq::empty()
    } else {
        signature(vary.drop_last()) + entry_bytes(vary.last().0, vary.last().1)
    }
}

fn hex_char(n: u8) -> (r: char)
    requires
        n < 16,
    ensures
        r == hex_digit(n as int),
{
    if n < 10 {
        (48u8 + n) as char
    } else {
        (87u8 + n) as char
    }
}

/// The lower-case hexadecimal spelling of `bytes`.
pub fn to_hex(bytes: &Vec<u8>) -> (r: String)
    ensures
        r@ == hex(bytes@),
{
    let mut out = String::new();
    let mut i: usize = 0;
    while i < bytes.len()
        invariant
            i <= bytes.len(),
            out@ == hex(bytes@).take(2 * i),
        decreases bytes.len() - i,
    {
        let byte: u8 = bytes[i];
        out.push(hex_char(byte / 16));
        out.push(hex_char(byte % 16));
        proof {
            let all = hex(bytes@);
            assert(all[2 * i] == hex_digit((byte / 16) as int));
            assert(all[2 * i + 1] == hex_digit((byte % 16) as int));
            assert(all.take(2 * i + 2) =~= all.take(2 * i).push(all[2 * i]).push(all[2 * i + 1]));
        }
        i += 1;
    }
    assert(hex(bytes@).take(2 * bytes@.len() as int) =~= hex(bytes@));
    out
}

proof fn lemma_hex_spells(bytes: Seq<u8>)
    requires
        bytes.len() == 32,
    ensures
        spells_digest(hex(bytes)),
{
    assert forall|i: int| 0 <= i < hex(bytes).len() implies is_hex_digit(
        #[trigger] hex(bytes)[i],
    ) by {
        let byte = bytes[i / 2];
        assert(hex(bytes)[i] == hex_digit(
            if i % 2 == 0 {
                byte / 16
            } else {
                byte % 16
            } as int,
        ));
    }
}

/// The lower-case hexadecimal SHA-256 digest of `bytes`.
pub fn hash_hex(bytes: &[u8]) -> (r: String)
    ensures
        r@ == hex(sha256(bytes@)),
        spells_digest(r@),
{
    let digest = sha256_digest(bytes);
    proof {
        lemma_hex_spells(digest@);
    }
    to_hex(&digest)
}

/// The name under which responses for a key are stored.
pub fn key_hash(key: &CacheKey) -> (r: String)
    ensures
        r@ == hex(sha256(encode_utf8(key@.text()))),
        spells_digest(r@),
{
    let text = key.to_text();
    hash_hex(text.as_str().as_bytes())
}

/// The bytes that stand for a policy's variant.
pub fn variant_signature(policy: &CachePolicy) -> (r: Vec<u8>)
    ensures
        r@ == signature(policy@.vary),
{
    let snapshot = policy.vary_snapshot();
    let ghost vary = policy@.vary;
    let mut out: Vec<u8> = Vec::new();
    let mut i: usize = 0;
    while i < snapshot.len()
        invariant
            i <= snapshot.len(),
            selection_view(snapshot@) == vary,
            out@ == signature(vary.take(i as int)),
        decreases snapshot.len() - i,
    {
        let ghost before = out@;
        let name = &snapshot[i].0;
        push_bytes(&mut out, name.as_str().as_bytes());
        out.push(0);
        match &snapshot[i].1 {
            Some(value) => {
                out.push(1);
                push_bytes(&mut out, value.as_slice());
            },
            None => {
                out.push(0);
            },
        }
        out.push(0);
        proof {
            let entry = (name@, bytes_view(snapshot@[i as int].1));
            assert(vary[i as int] == entry);
            assert(vary.take(i as int + 1).drop_last() =~= vary.take(i as int));
            assert(out@ =~= before + entry_bytes(entry.0, entry.1));
        }
        i += 1;
    }
    assert(vary.take(vary.len() as int) =~= vary);
    out
}

/// The name under which a variant of a response is stored.
pub fn variant_hash(policy: &CachePolicy) -> (r: String)
    ensures
        r@ == hex(sha256(signature(policy@.vary))),
        spells_digest(r@),
{
    let bytes = variant_signature(policy);
    hash_hex(bytes.as_slice())
}

} // verus!
