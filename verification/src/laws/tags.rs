//! Laws on entity tags and their lists.
use vstd::prelude::*;

use crate::etag::{none_match_names, opaque_part, without_weak_prefix};
use crate::text::{first_index, is_white_space, joined, split, trim, trim_end, trim_start};
use crate::validation::{is_weak, strong_only, strong_tags};

verus! {

proof fn lemma_trim_end_keeps_front(front: Seq<char>, rest: Seq<char>)
    requires
        rest.len() > 0,
        !is_white_space(rest[0]),
    ensures
        trim_end(front + rest) == front + trim_end(rest),
    decreases rest.len(),
{
    let whole = front + rest;
    assert(whole.last() == rest.last());
    if is_white_space(rest.last()) {
        assert(rest.len() > 1);
        lemma_trim_end_keeps_front(front, rest.drop_last());
        assert(whole.drop_last() =~= front + rest.drop_last());
    } else {
        assert(trim_end(whole) =~= whole);
    }
}

/// A weak tag and a strong one with the same opaque part are one tag to `If-None-Match`: the weak
/// prefix does not count.
pub proof fn the_weak_prefix_does_not_count(tag: Seq<char>)
    requires
        tag.len() > 0,
        tag[0] == '"',
    ensures
        opaque_part(seq!['W', '/'] + tag) == opaque_part(tag),
{
    let weak = seq!['W', '/'] + tag;
    assert(trim_start(weak) == weak);
    assert(trim_start(tag) == tag);
    lemma_trim_end_keeps_front(seq!['W', '/'], tag);
    lemma_trim_end_keeps_front(Seq::empty(), tag);
    lemma_trim_end_nonempty(tag);
    assert(without_weak_prefix(trim(weak)) =~= trim(tag));
    assert(without_weak_prefix(trim(tag)) == trim(tag));
}

proof fn lemma_trim_end_nonempty(s: Seq<char>)
    requires
        s.len() > 0,
        !is_white_space(s[0]),
    ensures
        trim_end(s).len() > 0,
        trim_end(s)[0] == s[0],
    decreases s.len(),
{
    if is_white_space(s.last()) {
        assert(s.len() > 1);
        lemma_trim_end_nonempty(s.drop_last());
    }
}

/// A list of `*` names every stored response, one without a tag too.
pub proof fn star_names_everything(stored: Option<Seq<char>>)
    ensures
        none_match_names(seq!['*'], stored),
{
    let star = seq!['*'];
    assert(trim_start(star) == star);
    assert(trim_end(star) == star);
}

/// Without a usable stored tag, only `*` names the stored response.
pub proof fn untagged_responses_are_named_by_star_alone(list: Seq<char>, stored: Option<Seq<char>>)
    requires
        stored matches Some(tag) ==> opaque_part(tag) is None,
    ensures
        none_match_names(list, stored) <==> trim(list) == seq!['*'],
{
}

/// Whether a text has no comma.
pub open spec fn comma_free(s: Seq<char>) -> bool {
    forall|i: int| 0 <= i < s.len() ==> #[trigger] s[i] != ','
}

proof fn lemma_first_index(s: Seq<char>, sep: char)
    ensures
        first_index(s, sep) <= s.len(),
        first_index(s, sep) < s.len() ==> s[first_index(s, sep) as int] == sep,
        forall|i: int| 0 <= i < first_index(s, sep) ==> s[i] != sep,
    decreases s.len(),
{
    if s.len() > 0 && s[0] != sep {
        lemma_first_index(s.skip(1), sep);
        assert forall|i: int| 0 <= i < first_index(s, sep) implies s[i] != sep by {
            if i > 0 {
                assert(s.skip(1)[i - 1] == s[i]);
            }
        }
    }
}

proof fn lemma_first_index_is(s: Seq<char>, sep: char, at: int)
    requires
        0 <= at <= s.len(),
        at < s.len() ==> s[at] == sep,
        forall|i: int| 0 <= i < at ==> s[i] != sep,
    ensures
        first_index(s, sep) == at,
{
    lemma_first_index(s, sep);
}

proof fn lemma_split_pieces_comma_free(s: Seq<char>)
    ensures
        forall|i: int| 0 <= i < split(s, ',').len() ==> comma_free(#[trigger] split(s, ',')[i]),
    decreases s.len(),
{
    lemma_first_index(s, ',');
    let at = first_index(s, ',') as int;
    if at < s.len() {
        let rest = split(s.skip(at + 1), ',');
        lemma_split_pieces_comma_free(s.skip(at + 1));
        assert forall|i: int| 0 <= i < split(s, ',').len() implies comma_free(
            #[trigger] split(s, ',')[i],
        ) by {
            if i > 0 {
                assert(split(s, ',')[i] == rest[i - 1]);
            }
        }
    }
}

proof fn lemma_split_appended(a: Seq<char>, b: Seq<char>)
    requires
        comma_free(b),
    ensures
        split(a + seq![','] + b, ',') == split(a, ',').push(b),
    decreases a.len(),
{
    let whole = a + seq![','] + b;
    lemma_first_index(a, ',');
    let at = first_index(a, ',') as int;
    lemma_first_index_is(whole, ',', at);
    assert(whole.take(at) =~= a.take(at));
    if at < a.len() {
        lemma_split_appended(a.skip(at + 1), b);
        assert(whole.skip(at + 1) =~= a.skip(at + 1) + seq![','] + b);
        assert(split(whole, ',') =~= split(a, ',').push(b));
    } else {
        assert(whole.skip(at + 1) =~= b);
        assert(a.take(at) =~= a);
        lemma_first_index_is(b, ',', b.len() as int);
        assert(split(b, ',') =~= seq![b]);
        assert(split(whole, ',') =~= seq![a] + seq![b]);
        assert(split(a, ',') =~= seq![a]);
        assert(split(whole, ',') =~= split(a, ',').push(b));
    }
}

proof fn lemma_trim_within(s: Seq<char>)
    requires
        comma_free(s),
    ensures
        comma_free(trim(s)),
{
    lemma_trim_start_within(s);
    lemma_trim_end_within(trim_start(s));
}

proof fn lemma_trim_start_within(s: Seq<char>)
    requires
        comma_free(s),
    ensures
        comma_free(trim_start(s)),
    decreases s.len(),
{
    if s.len() > 0 && is_white_space(s[0]) {
        assert(comma_free(s.skip(1)));
        lemma_trim_start_within(s.skip(1));
    }
}

proof fn lemma_trim_end_within(s: Seq<char>)
    requires
        comma_free(s),
    ensures
        comma_free(trim_end(s)),
    decreases s.len(),
{
    if s.len() > 0 && is_white_space(s.last()) {
        assert(comma_free(s.drop_last()));
        lemma_trim_end_within(s.drop_last());
    }
}

proof fn lemma_trim_start_done(s: Seq<char>)
    ensures
        trim_start(s).len() > 0 ==> !is_white_space(trim_start(s)[0]),
    decreases s.len(),
{
    if s.len() > 0 && is_white_space(s[0]) {
        lemma_trim_start_done(s.skip(1));
    }
}

proof fn lemma_trim_end_done(s: Seq<char>)
    ensures
        trim_end(trim_end(s)) == trim_end(s),
    decreases s.len(),
{
    if s.len() > 0 && is_white_space(s.last()) {
        lemma_trim_end_done(s.drop_last());
    }
}

/// Trimming a trimmed text changes nothing, nor does a space before it matter.
pub proof fn trimming_is_idempotent(s: Seq<char>)
    ensures
        trim(trim(s)) == trim(s),
        trim(seq![' '] + trim(s)) == trim(s),
{
    let t = trim_start(s);
    lemma_trim_start_done(s);
    lemma_trim_end_done(t);
    if t.len() > 0 {
        lemma_trim_end_nonempty(t);
    }
    assert(trim_start(trim(s)) == trim(s));
    let spaced = seq![' '] + trim(s);
    assert(spaced.skip(1) =~= trim(s));
    assert(is_white_space(spaced[0]));
}

proof fn lemma_strong_only(pieces: Seq<Seq<char>>)
    requires
        forall|i: int| 0 <= i < pieces.len() ==> comma_free(#[trigger] pieces[i]),
    ensures
        forall|i: int|
            0 <= i < strong_only(pieces).len() ==> comma_free(#[trigger] strong_only(pieces)[i])
                && !is_weak(strong_only(pieces)[i]) && trim(strong_only(pieces)[i]) == strong_only(
                pieces,
            )[i] && trim(seq![' '] + strong_only(pieces)[i]) == strong_only(pieces)[i],
    decreases pieces.len(),
{
    if pieces.len() > 0 {
        lemma_strong_only(pieces.drop_last());
        assert(comma_free(pieces.last()));
        lemma_trim_within(pieces.last());
        trimming_is_idempotent(pieces.last());
        let rest = strong_only(pieces.drop_last());
        let all = strong_only(pieces);
        assert forall|i: int| 0 <= i < all.len() implies comma_free(#[trigger] all[i]) && !is_weak(
            all[i],
        ) && trim(all[i]) == all[i] && trim(seq![' '] + all[i]) == all[i] by {
            if i < rest.len() {
                assert(all[i] == rest[i]);
            }
        }
    }
}

proof fn lemma_joined_splits(parts: Seq<Seq<char>>)
    requires
        parts.len() > 0,
        forall|i: int|
            0 <= i < parts.len() ==> comma_free(#[trigger] parts[i]) && trim(parts[i]) == parts[i]
                && trim(seq![' '] + parts[i]) == parts[i],
    ensures
        split(joined(parts), ',').len() == parts.len(),
        forall|i: int|
            0 <= i < parts.len() ==> trim(#[trigger] split(joined(parts), ',')[i]) == parts[i],
    decreases parts.len(),
{
    reveal_strlit(", ");
    if parts.len() == 1 {
        lemma_first_index_is(parts[0], ',', parts[0].len() as int);
        assert(split(parts[0], ',') =~= seq![parts[0]]);
    } else {
        let front = parts.drop_last();
        assert forall|i: int| 0 <= i < front.len() implies comma_free(#[trigger] front[i]) && trim(
            front[i],
        ) == front[i] && trim(seq![' '] + front[i]) == front[i] by {
            assert(front[i] == parts[i]);
        }
        lemma_joined_splits(front);
        let spaced = seq![' '] + parts.last();
        assert(comma_free(parts.last()));
        assert(comma_free(spaced));
        assert(joined(parts) =~= joined(front) + seq![','] + spaced);
        lemma_split_appended(joined(front), spaced);
        assert forall|i: int| 0 <= i < parts.len() implies trim(
            #[trigger] split(joined(parts), ',')[i],
        ) == parts[i] by {
            if i < front.len() {
                assert(split(joined(parts), ',')[i] == split(joined(front), ',')[i]);
            }
        }
    }
}

/// Where only strong validators will do, the members of the list that is sent are the strong
/// members of the list that there was, in order, and none of them is weak.
pub proof fn strong_lists_hold_no_weak_tag(list: Seq<char>)
    requires
        strong_only(split(list, ',')).len() > 0,
    ensures
        split(strong_tags(list), ',').len() == strong_only(split(list, ',')).len(),
        forall|i: int|
            0 <= i < split(strong_tags(list), ',').len() ==> trim(
                #[trigger] split(strong_tags(list), ',')[i],
            ) == strong_only(split(list, ','))[i] && !is_weak(
                trim(split(strong_tags(list), ',')[i]),
            ),
{
    lemma_split_pieces_comma_free(list);
    lemma_strong_only(split(list, ','));
    lemma_joined_splits(strong_only(split(list, ',')));
}

} // verus!
