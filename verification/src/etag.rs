//! Entity tags: their opaque part and the lists that `If-None-Match` carries.
use vstd::prelude::*;
use vstd::string::*;

use crate::text::{chars_of, find_char, same_text, trimmed, views, white_space};
use crate::text::{first_index, is_white_space, trim};

verus! {

/// `s` without a leading `W/`.
pub open spec fn without_weak_prefix(s: Seq<char>) -> Seq<char> {
    if s.len() >= 2 && s[0] == 'W' && s[1] == '/' {
        s.skip(2)
    } else {
        s
    }
}

/// The opaque part of an entity tag: what stands between its double quotes, which is free of them.
/// `None` where the text is no entity tag.
pub open spec fn opaque_part(etag: Seq<char>) -> Option<Seq<char>> {
    let t = without_weak_prefix(trim(etag));
    if t.len() >= 2 && t[0] == '"' && first_index(t.skip(1), '"') == t.len() - 2 {
        Some(t.subrange(1, t.len() - 1))
    } else {
        None
    }
}

/// `s` without the white space, commas and weak prefixes that may stand before an opaque tag.
pub open spec fn skip_separators(s: Seq<char>) -> Seq<char>
    decreases s.len(),
{
    if s.len() > 0 && (is_white_space(s[0]) || s[0] == ',') {
        skip_separators(s.skip(1))
    } else if s.len() >= 2 && s[0] == 'W' && s[1] == '/' {
        skip_separators(s.skip(2))
    } else {
        s
    }
}

/// The opaque parts of a list of entity tags, up to the first member that is none.
pub open spec fn opaque_parts(s: Seq<char>) -> Seq<Seq<char>>
    decreases s.len(),
{
    let t = skip_separators(s);
    if t.len() > 0 && t[0] == '"' {
        let inner = t.skip(1);
        let close = first_index(inner, '"') as int;
        if close < inner.len() {
            proof {
                lemma_skip_shortens(s);
            }
            seq![inner.take(close)] + opaque_parts(inner.skip(close + 1))
        } else {
            Seq::empty()
        }
    } else {
        Seq::empty()
    }
}

/// Skipping separators never lengthens the text.
pub proof fn lemma_skip_shortens(s: Seq<char>)
    ensures
        skip_separators(s).len() <= s.len(),
    decreases s.len(),
{
    if s.len() > 0 && (is_white_space(s[0]) || s[0] == ',') {
        lemma_skip_shortens(s.skip(1));
    } else if s.len() >= 2 && s[0] == 'W' && s[1] == '/' {
        lemma_skip_shortens(s.skip(2));
    }
}

/// Whether an `If-None-Match` value names the stored representation: it is `*`, or one of its
/// tags has the stored tag's opaque part.
pub open spec fn none_match_names(if_none_match: Seq<char>, stored: Option<Seq<char>>) -> bool {
    let list = trim(if_none_match);
    ||| list == seq!['*']
    ||| stored matches Some(etag) && opaque_part(etag) matches Some(opaque) && opaque_parts(
        list,
    ).contains(opaque)
}

/// The opaque part of an entity tag, for weak comparison.
pub fn etag_opaque<'a>(etag: &'a str) -> (r: Option<&'a str>)
    ensures
        match r {
            Some(opaque) => opaque_part(etag@) == Some(opaque@),
            None => opaque_part(etag@) is None,
        },
{
    let tag = trimmed(etag);
    let chars = chars_of(tag);
    let n: usize = chars.len();
    let start: usize = if n >= 2 && chars[0] == 'W' && chars[1] == '/' {
        2
    } else {
        0
    };
    let ghost t = without_weak_prefix(trim(etag@));
    proof {
        assert(t =~= tag@.skip(start as int));
    }
    if n - start < 2 || chars[start] != '"' {
        return None;
    }
    let inner = chars_of(tag.substring_char(start + 1, n));
    assert(inner@ =~= t.skip(1));
    if find_char(&inner, '"') == n - start - 2 {
        let opaque = tag.substring_char(start + 1, n - 1);
        assert(opaque@ =~= t.subrange(1, t.len() - 1));
        Some(opaque)
    } else {
        None
    }
}

/// The opaque parts of each entity tag in a comma-separated list.
pub fn iter_etag_opaques<'a>(s: &'a str) -> (r: Vec<&'a str>)
    ensures
        views(r@) == opaque_parts(s@),
{
    let mut out: Vec<&'a str> = Vec::new();
    let mut rest: &'a str = s;
    proof {
        assert(views(out@) + opaque_parts(s@) =~= opaque_parts(s@));
    }
    loop
        invariant
            views(out@) + opaque_parts(rest@) == opaque_parts(s@),
        decreases rest@.len(),
    {
        let tag = skipped_separators(rest);
        proof {
            lemma_skip_shortens(rest@);
        }
        let chars = chars_of(tag);
        if chars.len() == 0 || chars[0] != '"' {
            assert(views(out@) + opaque_parts(rest@) =~= views(out@));
            return out;
        }
        let inner = tag.substring_char(1, chars.len());
        let inner_chars = chars_of(inner);
        let close: usize = find_char(&inner_chars, '"');
        assert(inner@ =~= tag@.skip(1));
        if close >= inner_chars.len() {
            assert(views(out@) + opaque_parts(rest@) =~= views(out@));
            return out;
        }
        let opaque = inner.substring_char(0, close);
        let ghost before = out@;
        out.push(opaque);
        let tail = inner.substring_char(close + 1, inner_chars.len());
        proof {
            assert(opaque@ =~= inner@.take(close as int));
            assert(tail@ =~= inner@.skip(close as int + 1));
            assert(views(out@) =~= views(before).push(opaque@));
            assert(views(out@) + opaque_parts(tail@) =~= views(before) + (seq![opaque@]
                + opaque_parts(tail@)));
        }
        rest = tail;
    }
}

fn skipped_separators<'a>(s: &'a str) -> (r: &'a str)
    ensures
        r@ == skip_separators(s@),
{
    let chars = chars_of(s);
    let n: usize = chars.len();
    let mut i: usize = 0;
    assert(s@.skip(0) =~= s@);
    loop
        invariant
            chars@ == s@,
            n == chars.len(),
            i <= n,
            skip_separators(s@) == skip_separators(s@.skip(i as int)),
        decreases n - i,
    {
        let ghost t = s@.skip(i as int);
        if i < n && (white_space(chars[i]) || chars[i] == ',') {
            assert(t.skip(1) =~= s@.skip(i as int + 1));
            i += 1;
        } else if n - i >= 2 && chars[i] == 'W' && chars[i + 1] == '/' {
            assert(t.skip(2) =~= s@.skip(i as int + 2));
            i += 2;
        } else {
            assert(t =~= s@.subrange(i as int, n as int));
            return s.substring_char(i, n);
        }
    }
}

/// Whether an `If-None-Match` value names the stored representation, by weak comparison.
pub fn inm_matches(if_none_match: &str, cached_etag: Option<&str>) -> (r: bool)
    ensures
        r == none_match_names(
            if_none_match@,
            match cached_etag {
                Some(etag) => Some(etag@),
                None => None,
            },
        ),
{
    let list = trimmed(if_none_match);
    let chars = chars_of(list);
    if chars.len() == 1 && chars[0] == '*' {
        assert(list@ =~= seq!['*']);
        return true;
    }
    assert(list@ != seq!['*']);
    let opaque: &str = match cached_etag {
        None => return false,
        Some(etag) => match etag_opaque(etag) {
            None => return false,
            Some(opaque) => opaque,
        },
    };
    let tags = iter_etag_opaques(list);
    let ghost all = views(tags@);
    let mut i: usize = 0;
    while i < tags.len()
        invariant
            i <= tags.len(),
            all == views(tags@),
            all == opaque_parts(trim(if_none_match@)),
            cached_etag matches Some(etag) && opaque_part(etag@) == Some(opaque@),
            trim(if_none_match@) != seq!['*'],
            forall|k: int| 0 <= k < i ==> all[k] != opaque@,
        decreases tags.len() - i,
    {
        if same_text(tags[i], opaque) {
            assert(all[i as int] == opaque@);
            return true;
        }
        i += 1;
    }
    false
}

} // verus!
