//! Laws on what counts as a Dictionary Structured Field.
use vstd::prelude::*;

use crate::laws::tags::comma_free;
use crate::laws::wording::{
    lemma_first_index_of, lemma_split_comma, lemma_split_joint, lemma_trim_end_cut,
    lemma_trim_start_cut,
};
use crate::structured::{
    is_dictionary, is_key, is_member, is_valid_sf_key, looks_like_valid_sf_dictionary,
};
use crate::text::{first_index, is_white_space, split, trim, trim_end, trim_start};

verus! {

/// Whether a text holds nothing but white space.
pub open spec fn blank(s: Seq<char>) -> bool {
    forall|i: int| 0 <= i < s.len() ==> is_white_space(#[trigger] s[i])
}

/// Whether a character is a letter, by its number.
pub open spec fn is_letter(c: char) -> bool {
    65 <= c as int <= 90 || 97 <= c as int <= 122
}

/// Whether a text is the key of a dictionary member.
pub open spec fn names_member(s: Seq<char>) -> bool {
    &&& s.len() > 0
    &&& is_letter(s[0]) || s[0] == '*'
    &&& forall|i: int|
        0 <= i < s.len() ==> is_letter(#[trigger] s[i]) || 48 <= s[i] as int <= 57 || s[i] == '_'
            || s[i] == '-' || s[i] == '.' || s[i] == '*'
}

/// Whether a text is a member: white space, a key, white space, and then its value or nothing.
pub open spec fn spells_member(
    s: Seq<char>,
    lead: Seq<char>,
    key: Seq<char>,
    gap: Seq<char>,
    value: Seq<char>,
) -> bool {
    &&& s == lead + key + gap + value
    &&& blank(lead) && blank(gap)
    &&& names_member(key)
    &&& value.len() == 0 || value[0] == '='
}

/// Keys are letters, digits, `_`, `-`, `.` and `*`, and begin with a letter or `*`.
pub proof fn keys_begin_with_a_letter_or_a_star(s: &str, r: bool)
    requires
        call_ensures(is_valid_sf_key, (s,), r),
    ensures
        r <==> names_member(s@),
{
    lemma_key(s@);
}

proof fn lemma_key(s: Seq<char>)
    ensures
        is_key(s) <==> names_member(s),
{
    if is_key(s) {
        assert forall|i: int| 0 <= i < s.len() implies is_letter(#[trigger] s[i]) || 48
            <= s[i] as int <= 57 || s[i] == '_' || s[i] == '-' || s[i] == '.' || s[i] == '*' by {
            if i > 0 {
                assert(crate::structured::is_key_char(s[i]));
            }
        }
    }
    if names_member(s) {
        assert(is_letter(s[0]) || s[0] == '*');
        assert forall|i: int| 1 <= i < s.len() implies crate::structured::is_key_char(
            #[trigger] s[i],
        ) by {
            assert(is_letter(s[i]) || 48 <= s[i] as int <= 57 || s[i] == '_' || s[i] == '-' || s[i]
                == '.' || s[i] == '*');
        }
    }
}

proof fn lemma_trim_start_of(lead: Seq<char>, s: Seq<char>)
    requires
        blank(lead),
        s.len() > 0 ==> !is_white_space(s[0]),
    ensures
        trim_start(lead + s) == s,
{
    let t = lead + s;
    let i = lemma_trim_start_cut(t);
    if i < lead.len() {
        assert(t[i] == lead[i]);
    }
    if i > lead.len() {
        assert(t[lead.len() as int] == s[0]);
    }
    assert(t.skip(i) =~= s);
}

proof fn lemma_trim_end_of(s: Seq<char>, tail: Seq<char>)
    requires
        blank(tail),
        s.len() > 0 ==> !is_white_space(s.last()),
    ensures
        trim_end(s + tail) == s,
{
    let t = s + tail;
    let j = lemma_trim_end_cut(t);
    if j > s.len() {
        assert(t[j - 1] == tail[j - 1 - s.len()]);
    }
    if j < s.len() {
        assert(t[s.len() - 1] == s.last());
    }
    assert(t.take(j) =~= s);
}

proof fn lemma_trim_cut(s: Seq<char>) -> (cut: (Seq<char>, Seq<char>))
    ensures
        s == cut.0 + trim(s) + cut.1,
        blank(cut.0),
        blank(cut.1),
        trim(s).len() > 0 ==> !is_white_space(trim(s)[0]) && !is_white_space(trim(s).last()),
{
    let i = lemma_trim_start_cut(s);
    let t = s.skip(i);
    let j = lemma_trim_end_cut(t);
    assert(blank(s.take(i)));
    assert(blank(t.skip(j)));
    if j > 0 {
        assert(t[0] == s[i]);
    }
    assert(s =~= s.take(i) + t.take(j) + t.skip(j));
    (s.take(i), t.skip(j))
}

/// White space at the ends of a text does not matter to its members.
proof fn lemma_trim_padded(lead: Seq<char>, s: Seq<char>, tail: Seq<char>)
    requires
        blank(lead),
        blank(tail),
    ensures
        trim(lead + s + tail) == trim(s),
{
    let cut = lemma_trim_cut(s);
    let whole = lead + s + tail;
    let start = lead + cut.0;
    let end = cut.1 + tail;
    assert(whole =~= start + (trim(s) + end));
    if trim(s).len() > 0 {
        lemma_trim_start_of(start, trim(s) + end);
        lemma_trim_end_of(trim(s), end);
    } else {
        assert(whole =~= (start + end) + Seq::empty());
        lemma_trim_start_of(start + end, Seq::empty());
        assert(trim_end(Seq::<char>::empty()) =~= Seq::empty());
        assert(trim(s) =~= Seq::empty());
    }
}

proof fn lemma_member(
    s: Seq<char>,
    lead: Seq<char>,
    key: Seq<char>,
    gap: Seq<char>,
    value: Seq<char>,
)
    requires
        spells_member(s, lead, key, gap, value),
    ensures
        is_member(s),
{
    lemma_key(key);
    assert(!is_white_space(key[0]));
    assert(is_letter(key.last()) || 48 <= key.last() as int <= 57 || key.last() == '_' || key.last()
        == '-' || key.last() == '.' || key.last() == '*') by {
        assert(key.last() == key[key.len() - 1]);
    }
    assert(!is_white_space(key.last()));
    let j = lemma_trim_end_cut(value);
    let kept = value.take(j);
    let (member, tail) = if value.len() == 0 {
        (key, gap)
    } else {
        (key + gap + kept, value.skip(j))
    };
    if value.len() > 0 {
        assert(!is_white_space(value[0]));
        assert(j > 0);
        assert(member.last() == value[j - 1]);
        assert(member[0] == key[0]);
    }
    assert(blank(tail));
    assert(s =~= lead + (member + tail));
    assert((member + tail)[0] == key[0]);
    lemma_trim_start_of(lead, member + tail);
    lemma_trim_end_of(member, tail);
    let at = if value.len() == 0 {
        key.len() as int
    } else {
        (key + gap).len() as int
    };
    assert forall|i: int| 0 <= i < at implies member[i] != '=' by {
        if i < key.len() {
            assert(member[i] == key[i]);
        } else {
            assert(member[i] == gap[i - key.len()]);
        }
    }
    lemma_first_index_of(member, '=', at);
    if value.len() == 0 {
        assert(member.take(at) =~= key + Seq::empty());
        lemma_trim_end_of(key, Seq::empty());
    } else {
        assert(member.take(at) =~= key + gap);
        lemma_trim_end_of(key, gap);
    }
}

proof fn lemma_spelled(s: Seq<char>) -> (parts: (Seq<char>, Seq<char>, Seq<char>, Seq<char>))
    requires
        is_member(s),
    ensures
        spells_member(s, parts.0, parts.1, parts.2, parts.3),
{
    let cut = lemma_trim_cut(s);
    let member = trim(s);
    lemma_first(member);
    let at = first_index(member, '=') as int;
    let head = member.take(at);
    let j = lemma_trim_end_cut(head);
    let key = head.take(j);
    let gap = head.skip(j);
    lemma_key(key);
    assert(blank(gap));
    if at < member.len() {
        let value = member.skip(at) + cut.1;
        assert(value[0] == '=');
        assert(s =~= cut.0 + key + gap + value);
        (cut.0, key, gap, value)
    } else {
        assert(blank(gap + cut.1));
        assert(s =~= cut.0 + key + (gap + cut.1) + Seq::empty());
        (cut.0, key, gap + cut.1, Seq::empty())
    }
}

proof fn lemma_first(s: Seq<char>)
    ensures
        first_index(s, '=') <= s.len(),
        first_index(s, '=') < s.len() ==> s[first_index(s, '=') as int] == '=',
    decreases s.len(),
{
    if s.len() > 0 && s[0] != '=' {
        lemma_first(s.skip(1));
    }
}

proof fn lemma_comma_free_trim(s: Seq<char>)
    requires
        comma_free(s),
    ensures
        split(trim(s), ',') == seq![trim(s)],
        is_dictionary(s) <==> is_member(s),
{
    let cut = lemma_trim_cut(s);
    let t = trim(s);
    assert forall|i: int| 0 <= i < t.len() implies #[trigger] t[i] != ',' by {
        assert(t[i] == s[cut.0.len() + i]);
    }
    lemma_split_comma(t, Seq::empty());
    lemma_trim_padded(Seq::empty(), t, Seq::empty());
    assert(Seq::<char>::empty() + t + Seq::empty() =~= t);
    let members = split(t, ',');
    assert(members[0] == t);
    assert(is_member(t) == is_member(s));
    if is_dictionary(s) {
        assert(is_member(members[0]));
    }
}

/// A text without a comma is a dictionary where it is a member.
pub proof fn members_begin_with_their_key(
    s: &str,
    r: bool,
    lead: Seq<char>,
    key: Seq<char>,
    gap: Seq<char>,
    value: Seq<char>,
)
    requires
        call_ensures(looks_like_valid_sf_dictionary, (s,), r),
        comma_free(s@),
        spells_member(s@, lead, key, gap, value),
    ensures
        r,
{
    lemma_comma_free_trim(s@);
    lemma_member(s@, lead, key, gap, value);
}

/// A text without a comma is a dictionary only where it is a member.
pub proof fn nothing_else_is_a_member(s: &str, r: bool) -> (parts: (
    Seq<char>,
    Seq<char>,
    Seq<char>,
    Seq<char>,
))
    requires
        call_ensures(looks_like_valid_sf_dictionary, (s,), r),
        comma_free(s@),
    ensures
        r ==> spells_member(s@, parts.0, parts.1, parts.2, parts.3),
{
    lemma_comma_free_trim(s@);
    if r {
        lemma_spelled(s@)
    } else {
        (s@, s@, s@, s@)
    }
}

spec fn all_members(pieces: Seq<Seq<char>>) -> bool {
    forall|i: int| 0 <= i < pieces.len() ==> is_member(#[trigger] pieces[i])
}

proof fn lemma_all_joint(a: Seq<Seq<char>>, b: Seq<Seq<char>>)
    ensures
        all_members(a + b) <==> all_members(a) && all_members(b),
{
    if all_members(a + b) {
        assert forall|i: int| 0 <= i < a.len() implies is_member(#[trigger] a[i]) by {
            assert((a + b)[i] == a[i]);
        }
        assert forall|i: int| 0 <= i < b.len() implies is_member(#[trigger] b[i]) by {
            assert((a + b)[a.len() + i] == b[i]);
        }
    }
    if all_members(a) && all_members(b) {
        assert forall|i: int| 0 <= i < (a + b).len() implies is_member(#[trigger] (a + b)[i]) by {
            if i < a.len() {
                assert((a + b)[i] == a[i]);
            } else {
                assert((a + b)[i] == b[i - a.len()]);
            }
        }
    }
}

proof fn lemma_split_padded_start(lead: Seq<char>, s: Seq<char>)
    requires
        blank(lead),
    ensures
        all_members(split(lead + s, ',')) <==> all_members(split(s, ',')),
    decreases s.len(),
{
    if comma_free(s) {
        assert forall|i: int| 0 <= i < (lead + s).len() implies #[trigger] (lead + s)[i] != ',' by {
            if i < lead.len() {
                assert((lead + s)[i] == lead[i]);
            } else {
                assert((lead + s)[i] == s[i - lead.len()]);
            }
        }
        lemma_split_comma(lead + s, s);
        lemma_split_comma(s, s);
        lemma_one(lead + s);
        lemma_one(s);
        assert(lead + s + Seq::empty() =~= lead + s);
        lemma_trim_padded(lead, s, Seq::empty());
    } else {
        let k = choose|k: int| 0 <= k < s.len() && s[k] == ',';
        let front = s.take(k);
        let rest = s.skip(k + 1);
        assert(s =~= front + seq![','] + rest);
        assert(lead + s =~= (lead + front) + seq![','] + rest);
        lemma_split_joint(front, rest);
        lemma_split_joint(lead + front, rest);
        lemma_all_joint(split(front, ','), split(rest, ','));
        lemma_all_joint(split(lead + front, ','), split(rest, ','));
        lemma_split_padded_start(lead, front);
    }
}

proof fn lemma_one(s: Seq<char>)
    requires
        split(s, ',') == seq![s],
    ensures
        all_members(split(s, ',')) <==> is_member(s),
{
    assert(split(s, ',')[0] == s);
}

proof fn lemma_split_padded_end(s: Seq<char>, tail: Seq<char>)
    requires
        blank(tail),
    ensures
        all_members(split(s + tail, ',')) <==> all_members(split(s, ',')),
    decreases s.len(),
{
    if comma_free(s) {
        assert forall|i: int| 0 <= i < (s + tail).len() implies #[trigger] (s + tail)[i] != ',' by {
            if i < s.len() {
                assert((s + tail)[i] == s[i]);
            } else {
                assert((s + tail)[i] == tail[i - s.len()]);
            }
        }
        lemma_split_comma(s + tail, s);
        lemma_split_comma(s, s);
        lemma_one(s + tail);
        lemma_one(s);
        assert(Seq::<char>::empty() + s + tail =~= s + tail);
        lemma_trim_padded(Seq::empty(), s, tail);
    } else {
        let k = choose|k: int| 0 <= k < s.len() && s[k] == ',';
        let front = s.take(k);
        let rest = s.skip(k + 1);
        assert(s =~= front + seq![','] + rest);
        assert(s + tail =~= front + seq![','] + (rest + tail));
        lemma_split_joint(front, rest);
        lemma_split_joint(front, rest + tail);
        lemma_all_joint(split(front, ','), split(rest, ','));
        lemma_all_joint(split(front, ','), split(rest + tail, ','));
        lemma_split_padded_end(rest, tail);
    }
}

proof fn lemma_dictionary(s: Seq<char>)
    ensures
        is_dictionary(s) <==> all_members(split(s, ',')),
{
    let cut = lemma_trim_cut(s);
    let t = trim(s);
    lemma_split_padded_start(cut.0, t);
    lemma_split_padded_end(cut.0 + t, cut.1);
    if t.len() == 0 {
        assert forall|i: int| 0 <= i < s.len() implies #[trigger] s[i] != ',' by {
            if i < cut.0.len() {
                assert(s[i] == cut.0[i]);
            } else {
                assert(s[i] == cut.1[i - cut.0.len()]);
            }
        }
        lemma_split_comma(s, s);
        lemma_one(s);
    }
}

/// A comma parts a dictionary: the whole is one exactly where either side is.
pub proof fn commas_part_dictionaries(
    whole: &str,
    left: &str,
    right: &str,
    r: bool,
    first: bool,
    second: bool,
)
    requires
        call_ensures(looks_like_valid_sf_dictionary, (whole,), r),
        call_ensures(looks_like_valid_sf_dictionary, (left,), first),
        call_ensures(looks_like_valid_sf_dictionary, (right,), second),
        whole@ == left@ + seq![','] + right@,
    ensures
        r == (first && second),
{
    lemma_dictionary(whole@);
    lemma_dictionary(left@);
    lemma_dictionary(right@);
    lemma_split_joint(left@, right@);
    lemma_all_joint(split(left@, ','), split(right@, ','));
}

} // verus!
