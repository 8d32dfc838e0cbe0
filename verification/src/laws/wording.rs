//! Laws on text: white space, lists and numbers.
use vstd::prelude::*;

use crate::laws::tags::comma_free;
use crate::text::{
    all_digits, chars_of, contains, contains_str, decimal, digits_value, find_char, first_index,
    is_digit, is_white_space, list_members, list_tokens, lowered, number, parse_number, same_text,
    split, split_str, to_decimal, tokens_of, trim, trim_end, trim_start, trimmed, trimmed_end,
    trimmed_start, views, white_space,
};

verus! {

/// White space is what Unicode calls so.
pub proof fn white_space_is_that_of_unicode(c: char, r: bool)
    requires
        call_ensures(white_space, (c,), r),
    ensures
        r == is_white_space(c),
        r <==> {
            let u = c as u32;
            (9 <= u <= 13) || u == 32 || u == 133 || u == 160 || u == 5760 || (8192 <= u <= 8202)
                || u == 8232 || u == 8233 || u == 8239 || u == 8287 || u == 12288
        },
{
}

pub(crate) proof fn lemma_trim_start_cut(s: Seq<char>) -> (i: int)
    ensures
        0 <= i <= s.len(),
        trim_start(s) == s.skip(i),
        forall|k: int| 0 <= k < i ==> is_white_space(#[trigger] s[k]),
        i < s.len() ==> !is_white_space(s[i]),
    decreases s.len(),
{
    if s.len() > 0 && is_white_space(s[0]) {
        let i = lemma_trim_start_cut(s.skip(1));
        assert(s.skip(1).skip(i) =~= s.skip(i + 1));
        assert forall|k: int| 0 <= k < i + 1 implies is_white_space(#[trigger] s[k]) by {
            if k > 0 {
                assert(s.skip(1)[k - 1] == s[k]);
            }
        }
        i + 1
    } else {
        assert(s.skip(0) =~= s);
        0
    }
}

pub(crate) proof fn lemma_trim_end_cut(s: Seq<char>) -> (j: int)
    ensures
        0 <= j <= s.len(),
        trim_end(s) == s.take(j),
        forall|k: int| j <= k < s.len() ==> is_white_space(#[trigger] s[k]),
        0 < j ==> !is_white_space(s[j - 1]),
    decreases s.len(),
{
    if s.len() > 0 && is_white_space(s.last()) {
        let j = lemma_trim_end_cut(s.drop_last());
        assert(s.drop_last().take(j) =~= s.take(j));
        assert forall|k: int| j <= k < s.len() implies is_white_space(#[trigger] s[k]) by {
            if k < s.len() - 1 {
                assert(s.drop_last()[k] == s[k]);
            }
        }
        j
    } else {
        assert(s.take(s.len() as int) =~= s);
        s.len() as int
    }
}

/// Trimming cuts off the white space at both ends, all of it, and nothing else.
pub proof fn trimming_cuts_white_space_alone(s: &str, r: &str)
    requires
        call_ensures(trimmed, (s,), r),
    ensures
        r@ == trim(s@),
        exists|i: int, j: int|
            0 <= i <= j <= s@.len() && r@ == #[trigger] s@.subrange(i, j) && (forall|k: int|
                0 <= k < i || j <= k < s@.len() ==> is_white_space(#[trigger] s@[k])) && (i < j
                ==> !is_white_space(s@[i]) && !is_white_space(s@[j - 1])),
{
    let i = lemma_trim_start_cut(s@);
    let t = s@.skip(i);
    let n = lemma_trim_end_cut(t);
    let j = i + n;
    assert(t.take(n) =~= s@.subrange(i, j));
    assert forall|k: int| 0 <= k < i || j <= k < s@.len() implies is_white_space(
        #[trigger] s@[k],
    ) by {
        if k >= j {
            assert(t[k - i] == s@[k]);
        }
    }
    if i < j {
        assert(t[0] == s@[i]);
        assert(t[n - 1] == s@[j - 1]);
    }
}

pub(crate) proof fn lemma_first_index_of(s: Seq<char>, sep: char, at: int)
    requires
        0 <= at <= s.len(),
        at < s.len() ==> s[at] == sep,
        forall|i: int| 0 <= i < at ==> s[i] != sep,
    ensures
        first_index(s, sep) == at,
    decreases s.len(),
{
    if at > 0 {
        assert forall|i: int| 0 <= i < at - 1 implies s.skip(1)[i] != sep by {
            assert(s.skip(1)[i] == s[i + 1]);
        }
        lemma_first_index_of(s.skip(1), sep, at - 1);
    }
}

pub(crate) proof fn lemma_split_comma(a: Seq<char>, b: Seq<char>)
    requires
        comma_free(a),
    ensures
        split(a + seq![','] + b, ',') == seq![a] + split(b, ','),
        split(a, ',') == seq![a],
{
    let s = a + seq![','] + b;
    lemma_first_index_of(s, ',', a.len() as int);
    lemma_first_index_of(a, ',', a.len() as int);
    assert(s.take(a.len() as int) =~= a);
    assert(s.skip(a.len() as int + 1) =~= b);
}

pub(crate) proof fn lemma_split_joint(a: Seq<char>, b: Seq<char>)
    ensures
        split(a + seq![','] + b, ',') == split(a, ',') + split(b, ','),
    decreases a.len(),
{
    if comma_free(a) {
        lemma_split_comma(a, b);
    } else {
        let at = choose|i: int| 0 <= i < a.len() && a[i] == ',' && comma_free(a.take(i));
        assert(exists|i: int| 0 <= i < a.len() && a[i] == ',' && comma_free(a.take(i))) by {
            lemma_first_comma(a);
        }
        let front = a.take(at);
        let rest = a.skip(at + 1);
        assert(a =~= front + seq![','] + rest);
        lemma_split_comma(front, rest);
        lemma_split_joint(rest, b);
        assert(a + seq![','] + b =~= front + seq![','] + (rest + seq![','] + b));
        lemma_split_comma(front, rest + seq![','] + b);
        assert(split(a + seq![','] + b, ',') =~= split(a, ',') + split(b, ','));
    }
}

proof fn lemma_first_comma(a: Seq<char>)
    requires
        !comma_free(a),
    ensures
        exists|i: int| 0 <= i < a.len() && a[i] == ',' && comma_free(a.take(i)),
    decreases a.len(),
{
    let k = choose|k: int| 0 <= k < a.len() && a[k] == ',';
    if !comma_free(a.take(k)) {
        lemma_first_comma(a.take(k));
        let i = choose|i: int|
            0 <= i < a.take(k).len() && a.take(k)[i] == ',' && comma_free(a.take(k).take(i));
        assert(a.take(k).take(i) =~= a.take(i));
        assert(a[i] == ',');
        assert(comma_free(a.take(i)));
    }
}

proof fn lemma_tokens_joint(a: Seq<Seq<char>>, b: Seq<Seq<char>>)
    ensures
        tokens_of(a + b) == tokens_of(a) + tokens_of(b),
    decreases b.len(),
{
    if b.len() == 0 {
        assert(a + b =~= a);
        assert(tokens_of(a) + tokens_of(b) =~= tokens_of(a));
    } else {
        lemma_tokens_joint(a, b.drop_last());
        assert((a + b).drop_last() =~= a + b.drop_last());
        assert(tokens_of(a + b) =~= tokens_of(a) + tokens_of(b));
    }
}

/// A comma parts a list: the members are those of either side, and without a comma there is one
/// member, trimmed, or none where nothing is left of it.
pub proof fn commas_part_lists(a: Seq<char>, b: Seq<char>)
    ensures
        list_tokens(a + seq![','] + b) == list_tokens(a) + list_tokens(b),
        comma_free(a) ==> list_tokens(a) == if trim(a).len() == 0 {
            Seq::<Seq<char>>::empty()
        } else {
            seq![trim(a)]
        },
{
    lemma_split_joint(a, b);
    lemma_tokens_joint(split(a, ','), split(b, ','));
    if comma_free(a) {
        lemma_split_comma(a, b);
        assert(seq![a].drop_last() =~= Seq::<Seq<char>>::empty());
        reveal_with_fuel(tokens_of, 2);
        assert(tokens_of(seq![a]) =~= if trim(a).len() == 0 {
            Seq::<Seq<char>>::empty()
        } else {
            seq![trim(a)]
        });
    }
}

/// The members of a list are found where they stand: between the commas around them, without the
/// white space about them.
pub proof fn members_are_found(
    list: &str,
    before: Seq<char>,
    member: Seq<char>,
    after: Seq<char>,
    r: Vec<&str>,
)
    requires
        call_ensures(list_members, (list,), r),
        comma_free(member),
        trim(member).len() > 0,
        list@ == member || list@ == before + seq![','] + member || list@ == member + seq![',']
            + after || list@ == before + seq![','] + member + seq![','] + after,
    ensures
        views(r@) == list_tokens(list@),
        views(r@).contains(trim(member)),
{
    let token = trim(member);
    commas_part_lists(member, after);
    assert(list_tokens(member) == seq![token]);
    if list@ == member {
        assert(views(r@)[0] == token);
    } else if list@ == before + seq![','] + member {
        commas_part_lists(before, member);
        assert((list_tokens(before) + seq![token])[list_tokens(before).len() as int] == token);
    } else if list@ == member + seq![','] + after {
        assert((seq![token] + list_tokens(after))[0] == token);
    } else {
        commas_part_lists(before, member + seq![','] + after);
        assert(list@ =~= before + seq![','] + (member + seq![','] + after));
        assert((list_tokens(before) + (seq![token] + list_tokens(after)))[list_tokens(
            before,
        ).len() as int] == token);
    }
}

/// A text contains a pattern exactly where the pattern stands somewhere in it.
pub proof fn patterns_are_found(before: Seq<char>, pattern: Seq<char>, after: Seq<char>)
    ensures
        contains(before + pattern + after, pattern),
{
    let s = before + pattern + after;
    assert(s.subrange(before.len() as int, before.len() as int + pattern.len()) =~= pattern);
}

/// What contains a pattern can be cut around it.
pub proof fn only_patterns_are_found(s: Seq<char>, pattern: Seq<char>) -> (cut: (
    Seq<char>,
    Seq<char>,
))
    requires
        contains(s, pattern),
    ensures
        s == cut.0 + pattern + cut.1,
{
    let i = choose|i: int|
        0 <= i && i + pattern.len() <= s.len() && #[trigger] s.subrange(i, i + pattern.len())
            == pattern;
    assert(s =~= s.take(i) + pattern + s.skip(i + pattern.len()));
    (s.take(i), s.skip(i + pattern.len()))
}

pub(crate) proof fn lemma_decimal(n: nat)
    ensures
        decimal(n).len() > 0,
        all_digits(decimal(n)),
        digits_value(decimal(n)) == n,
        n > 0 ==> decimal(n)[0] != '0',
    decreases n,
{
    if n < 10 {
        assert(seq![decimal(n)[0]] =~= decimal(n));
        assert(decimal(n).drop_last() =~= Seq::<char>::empty());
        assert(digits_value(Seq::<char>::empty()) == 0);
    } else {
        lemma_decimal(n / 10);
        let front = decimal(n / 10);
        assert(decimal(n).drop_last() =~= front);
        assert forall|i: int| 0 <= i < decimal(n).len() implies is_digit(
            #[trigger] decimal(n)[i],
        ) by {
            if i < front.len() {
                assert(decimal(n)[i] == front[i]);
            }
        }
    }
}

/// A number is written in decimal digits, the most significant one first and without leading
/// zeros, and reads back as the number.
pub proof fn numbers_read_back(n: u128, text: String)
    requires
        call_ensures(to_decimal, (n,), text),
    ensures
        text@.len() > 0,
        forall|i: int| 0 <= i < text@.len() ==> '0' <= #[trigger] text@[i] <= '9',
        digits_value(text@) == n,
        n > 0 ==> text@[0] != '0',
        n <= u64::MAX ==> number(text@) == Some(n as u64),
{
    lemma_decimal(n as nat);
    assert forall|i: int| 0 <= i < text@.len() implies '0' <= #[trigger] text@[i] <= '9' by {
        assert(is_digit(decimal(n as nat)[i]));
    }
    assert(text@[0] != '+') by {
        assert(is_digit(text@[0]));
    }
}

/// Different numbers are written differently.
pub proof fn writing_tells_numbers_apart(a: nat, b: nat)
    requires
        decimal(a) == decimal(b),
    ensures
        a == b,
{
    lemma_decimal(a);
    lemma_decimal(b);
}

/// What stands behind a plus sign at the beginning of a text, or all of it.
pub open spec fn behind_sign(s: Seq<char>) -> Seq<char> {
    if s.len() > 0 && s[0] == '+' {
        s.skip(1)
    } else {
        s
    }
}

/// What stands for a number is decimal digits, behind a plus sign at most, and stands for what the
/// digits come to, digit by digit; a number over 64 bits, or any other text, stands for none.
pub proof fn numbers_are_decimal(text: &str, r: Option<u64>)
    requires
        call_ensures(parse_number, (text,), r),
    ensures
        r is Some <==> behind_sign(text@).len() > 0 && digits_value(behind_sign(text@)) <= u64::MAX
            && (forall|i: int|
            0 <= i < behind_sign(text@).len() ==> '0' <= #[trigger] behind_sign(text@)[i] <= '9'),
        r matches Some(n) ==> n == digits_value(behind_sign(text@)),
        digits_value(Seq::empty()) == 0,
        forall|s: Seq<char>, c: char|
            '0' <= c <= '9' ==> #[trigger] digits_value(s.push(c)) == 10 * digits_value(s) + (
            c as u32 - '0' as u32),
{
    let digits = behind_sign(text@);
    assert(crate::text::unsigned_part(text@) == digits);
    if forall|i: int| 0 <= i < digits.len() ==> '0' <= #[trigger] digits[i] <= '9' {
        assert(all_digits(digits));
    }
    if all_digits(digits) {
        assert forall|i: int| 0 <= i < digits.len() implies '0' <= #[trigger] digits[i] <= '9' by {
            assert(is_digit(digits[i]));
        }
    }
    assert forall|s: Seq<char>, c: char| '0' <= c <= '9' implies #[trigger] digits_value(s.push(c))
        == 10 * digits_value(s) + (c as u32 - '0' as u32) by {
        assert(s.push(c).drop_last() =~= s);
    }
}

/// Texts are compared character by character, and taken apart into their characters.
pub proof fn texts_are_their_characters(a: &str, b: &str, same: bool, chars: Vec<char>)
    requires
        call_ensures(same_text, (a, b), same),
        call_ensures(chars_of, (a,), chars),
    ensures
        same <==> a@ == b@,
        chars@ == a@,
{
}

/// A character is found where it stands first; where it stands nowhere, behind the end.
pub proof fn characters_are_found_where_they_stand_first(chars: &Vec<char>, sep: char, r: usize)
    requires
        call_ensures(find_char, (chars, sep), r),
    ensures
        r <= chars@.len(),
        r < chars@.len() ==> chars@[r as int] == sep,
        forall|i: int| 0 <= i < r ==> #[trigger] chars@[i] != sep,
{
    lemma_first_index_bounds(chars@, sep);
}

proof fn lemma_first_index_bounds(s: Seq<char>, sep: char)
    ensures
        first_index(s, sep) <= s.len(),
        first_index(s, sep) < s.len() ==> s[first_index(s, sep) as int] == sep,
        forall|i: int| 0 <= i < first_index(s, sep) ==> #[trigger] s[i] != sep,
    decreases s.len(),
{
    if s.len() > 0 && s[0] != sep {
        lemma_first_index_bounds(s.skip(1), sep);
        assert forall|i: int| 0 <= i < first_index(s, sep) implies #[trigger] s[i] != sep by {
            if i > 0 {
                assert(s.skip(1)[i - 1] == s[i]);
            }
        }
    }
}

/// Put together again with the separator between them, the pieces of a text are the text.
pub open spec fn put_together(pieces: Seq<Seq<char>>, sep: char) -> Seq<char>
    decreases pieces.len(),
{
    if pieces.len() == 0 {
        Seq::empty()
    } else if pieces.len() == 1 {
        pieces[0]
    } else {
        pieces[0] + seq![sep] + put_together(pieces.skip(1), sep)
    }
}

proof fn lemma_put_together(s: Seq<char>, sep: char)
    ensures
        split(s, sep).len() > 0,
        put_together(split(s, sep), sep) == s,
        forall|i: int, k: int|
            0 <= i < split(s, sep).len() && 0 <= k < split(s, sep)[i].len() ==> #[trigger] split(
                s,
                sep,
            )[i][k] != sep,
    decreases s.len(),
{
    lemma_first_index_bounds(s, sep);
    let at = first_index(s, sep) as int;
    let pieces = split(s, sep);
    if at < s.len() {
        let rest = s.skip(at + 1);
        lemma_put_together(rest, sep);
        let behind = split(rest, sep);
        assert(pieces =~= seq![s.take(at)] + behind);
        assert(pieces.skip(1) =~= behind);
        assert(s =~= s.take(at) + seq![sep] + rest);
        assert forall|i: int, k: int|
            0 <= i < pieces.len() && 0 <= k < pieces[i].len() implies #[trigger] pieces[i][k]
            != sep by {
            if i == 0 {
                assert(pieces[0][k] == s[k]);
            } else {
                assert(pieces[i] == behind[i - 1]);
            }
        }
    } else {
        assert(pieces[0] == s);
    }
}

/// A text is split at every separator: its pieces have none, and with one between each they are
/// the text again.
pub proof fn texts_are_split_at_every_separator<'a>(s: &'a str, sep: char, r: Vec<&'a str>)
    requires
        call_ensures(split_str, (s, sep), r),
    ensures
        r@.len() > 0,
        put_together(views(r@), sep) == s@,
        forall|i: int, k: int|
            0 <= i < r@.len() && 0 <= k < r@[i]@.len() ==> #[trigger] r@[i]@[k] != sep,
{
    lemma_put_together(s@, sep);
    assert(views(r@).len() == r@.len());
    assert forall|i: int, k: int| 0 <= i < r@.len() && 0 <= k < r@[i]@.len() implies #[trigger] r@[
        i
    ]@[k] != sep by {
        assert(views(r@)[i] == r@[i]@);
        assert(split(s@, sep)[i][k] != sep);
    }
}

/// A pattern is found in a text exactly where the text can be cut around it.
pub proof fn patterns_are_cut_around(s: &str, pattern: &str, r: bool)
    requires
        call_ensures(contains_str, (s, pattern), r),
    ensures
        r <==> exists|before: Seq<char>, after: Seq<char>|
            s@ == #[trigger] (before + pattern@ + after),
{
    if r {
        let cut = only_patterns_are_found(s@, pattern@);
        assert(s@ == cut.0 + pattern@ + cut.1);
    }
    if exists|before: Seq<char>, after: Seq<char>| s@ == #[trigger] (before + pattern@ + after) {
        let (before, after) = choose|before: Seq<char>, after: Seq<char>|
            s@ == #[trigger] (before + pattern@ + after);
        patterns_are_found(before, pattern@, after);
    }
}

/// Either end of a text is trimmed of all of its white space, and of nothing else.
pub proof fn ends_are_trimmed(s: &str, front: &str, back: &str)
    requires
        call_ensures(trimmed_start, (s,), front),
        call_ensures(trimmed_end, (s,), back),
    ensures
        front@.len() <= s@.len() && front@ == s@.skip(s@.len() - front@.len()),
        forall|k: int| 0 <= k < s@.len() - front@.len() ==> is_white_space(#[trigger] s@[k]),
        front@.len() > 0 ==> !is_white_space(front@[0]),
        back@.len() <= s@.len() && back@ == s@.take(back@.len() as int),
        forall|k: int| back@.len() <= k < s@.len() ==> is_white_space(#[trigger] s@[k]),
        back@.len() > 0 ==> !is_white_space(back@.last()),
{
    let i = lemma_trim_start_cut(s@);
    let j = lemma_trim_end_cut(s@);
    assert(s@.skip(i).len() == s@.len() - i);
    assert(s@.take(j).len() == j);
}

/// A text in lower case has a small letter for each capital one, and else what it had.
pub proof fn capitals_become_small(s: &str, r: String)
    requires
        call_ensures(lowered, (s,), r),
    ensures
        r@.len() == s@.len(),
        forall|i: int|
            0 <= i < s@.len() ==> #[trigger] r@[i] as int == s@[i] as int + if 65 <= s@[i] as int
                <= 90 {
                32int
            } else {
                0
            },
{
    assert forall|i: int|
        0 <= i < s@.len() implies #[trigger] r@[i] as int == s@[i] as int + if 65 <= s@[i] as int
        <= 90 {
        32int
    } else {
        0
    } by {
        assert(r@[i] == crate::text::lower_char(s@[i]));
    }
}

} // verus!
