//! A light validity test for Dictionary Structured Fields.
use vstd::prelude::*;
use vstd::string::*;

use crate::text::{chars_of, find_char, split_str, trimmed, trimmed_end};
use crate::text::{first_index, split, trim, trim_end, views};

verus! {

pub open spec fn is_alphabetic(c: char) -> bool {
    'a' <= c <= 'z' || 'A' <= c <= 'Z'
}

/// The characters that may follow the first one of a dictionary key.
pub open spec fn is_key_char(c: char) -> bool {
    is_alphabetic(c) || '0' <= c <= '9' || c == '_' || c == '-' || c == '.' || c == '*'
}

/// A dictionary key: a letter or `*`, then key characters. Letter case is not significant.
pub open spec fn is_key(s: Seq<char>) -> bool {
    &&& s.len() > 0
    &&& is_alphabetic(s[0]) || s[0] == '*'
    &&& forall|i: int| 1 <= i < s.len() ==> is_key_char(#[trigger] s[i])
}

/// A dictionary member: not blank, and what stands before its first `=` is a key.
pub open spec fn is_member(s: Seq<char>) -> bool {
    let member = trim(s);
    member.len() > 0 && is_key(trim_end(member.take(first_index(member, '=') as int)))
}

/// A dictionary: not blank, and each comma-separated part is a member.
pub open spec fn is_dictionary(s: Seq<char>) -> bool {
    let members = split(trim(s), ',');
    trim(s).len() > 0 && (forall|i: int| 0 <= i < members.len() ==> is_member(#[trigger] members[i]))
}

fn alphabetic(c: char) -> (r: bool)
    ensures
        r == is_alphabetic(c),
{
    ('a' <= c && c <= 'z') || ('A' <= c && c <= 'Z')
}

/// Whether `s` is a dictionary key.
pub fn is_valid_sf_key(s: &str) -> (r: bool)
    ensures
        r == is_key(s@),
{
    let chars = chars_of(s);
    if chars.len() == 0 || !(alphabetic(chars[0]) || chars[0] == '*') {
        return false;
    }
    let mut i: usize = 1;
    while i < chars.len()
        invariant
            chars@ == s@,
            1 <= i <= chars.len(),
            forall|k: int| 1 <= k < i ==> is_key_char(#[trigger] s@[k]),
        decreases chars.len() - i,
    {
        let c: char = chars[i];
        if !(alphabetic(c) || ('0' <= c && c <= '9') || c == '_' || c == '-' || c == '.' || c
            == '*') {
            assert(!is_key_char(s@[i as int]));
            return false;
        }
        i += 1;
    }
    true
}

/// Whether `s` looks like a Dictionary Structured Field: every comma-separated member begins with
/// a key.
pub fn looks_like_valid_sf_dictionary(s: &str) -> (r: bool)
    ensures
        r == is_dictionary(s@),
{
    let text = trimmed(s);
    if text.is_empty() {
        return false;
    }
    let members = split_str(text, ',');
    let ghost all = split(text@, ',');
    let mut i: usize = 0;
    while i < members.len()
        invariant
            i <= members.len(),
            all == views(members@),
            all == split(trim(s@), ','),
            forall|k: int| 0 <= k < i ==> is_member(#[trigger] all[k]),
        decreases members.len() - i,
    {
        assert(all[i as int] == members@[i as int]@);
        if !valid_member(members[i]) {
            return false;
        }
        i += 1;
    }
    true
}

fn valid_member(s: &str) -> (r: bool)
    ensures
        r == is_member(s@),
{
    let member = trimmed(s);
    if member.is_empty() {
        return false;
    }
    let chars = chars_of(member);
    let end: usize = find_char(&chars, '=');
    let key = member.substring_char(0, end);
    assert(key@ =~= member@.take(end as int));
    is_valid_sf_key(trimmed_end(key))
}

} // verus!
