//! Laws on directives as they are written.
use vstd::prelude::*;

use crate::directives::{
    allowed_staleness, effective_directives, first_value, parsed_directives, value_of, CacheControl,
};
use crate::headers::Fields;
use crate::laws::tags::comma_free;
use crate::laws::wording::commas_part_lists;
use crate::policy::{only_no_cache, pragma_no_cache, stored_directives};
use crate::structured::{is_dictionary, is_key, is_key_char, is_member};
use crate::text::{
    first_index, is_white_space, list_tokens, lower, lower_char, number, split, tokens_of, trim,
    trim_end, trim_start,
};

verus! {

proof fn lemma_lower_char(c: char)
    ensures
        lower_char(lower_char(c)) == lower_char(c),
        is_white_space(lower_char(c)) == is_white_space(c),
        is_key_char(lower_char(c)) == is_key_char(c),
        lower_char(c) == '*' <==> c == '*',
        lower_char(c) == ',' <==> c == ',',
        lower_char(c) == '=' <==> c == '=',
{
}

proof fn lemma_lower_trim_start(s: Seq<char>)
    ensures
        trim_start(lower(s)) == lower(trim_start(s)),
    decreases s.len(),
{
    if s.len() > 0 {
        lemma_lower_char(s[0]);
        if is_white_space(s[0]) {
            lemma_lower_trim_start(s.skip(1));
            assert(lower(s).skip(1) =~= lower(s.skip(1)));
        }
    }
}

proof fn lemma_lower_trim_end(s: Seq<char>)
    ensures
        trim_end(lower(s)) == lower(trim_end(s)),
    decreases s.len(),
{
    if s.len() > 0 {
        lemma_lower_char(s.last());
        if is_white_space(s.last()) {
            lemma_lower_trim_end(s.drop_last());
            assert(lower(s).drop_last() =~= lower(s.drop_last()));
        }
    }
}

proof fn lemma_lower_trim(s: Seq<char>)
    ensures
        trim(lower(s)) == lower(trim(s)),
{
    lemma_lower_trim_start(s);
    lemma_lower_trim_end(trim_start(s));
}

proof fn lemma_lower_first_index(s: Seq<char>, sep: char)
    requires
        sep == ',' || sep == '=',
    ensures
        first_index(lower(s), sep) == first_index(s, sep),
    decreases s.len(),
{
    if s.len() > 0 {
        lemma_lower_char(s[0]);
        lemma_lower_first_index(s.skip(1), sep);
        assert(lower(s).skip(1) =~= lower(s.skip(1)));
    }
}

proof fn lemma_lower_split(s: Seq<char>)
    ensures
        split(lower(s), ',').len() == split(s, ',').len(),
        forall|i: int|
            0 <= i < split(s, ',').len() ==> #[trigger] split(lower(s), ',')[i] == lower(
                split(s, ',')[i],
            ),
    decreases s.len(),
{
    lemma_lower_first_index(s, ',');
    let n = first_index(s, ',') as int;
    if n < s.len() {
        lemma_lower_split(s.skip(n + 1));
        assert(lower(s).take(n) =~= lower(s.take(n)));
        assert(lower(s).skip(n + 1) =~= lower(s.skip(n + 1)));
        assert forall|i: int| 0 <= i < split(s, ',').len() implies #[trigger] split(
            lower(s),
            ',',
        )[i] == lower(split(s, ',')[i]) by {
            if i > 0 {
                assert(split(lower(s), ',')[i] == split(lower(s).skip(n + 1), ',')[i - 1]);
            }
        }
    }
}

proof fn lemma_lower_key(s: Seq<char>)
    ensures
        is_key(lower(s)) <==> is_key(s),
{
    assert forall|i: int| 0 <= i < s.len() implies is_key_char(#[trigger] lower(s)[i])
        == is_key_char(s[i]) by {
        lemma_lower_char(s[i]);
    }
    if s.len() > 0 {
        lemma_lower_char(s[0]);
    }
    if is_key(lower(s)) {
        assert forall|i: int| 1 <= i < s.len() implies is_key_char(#[trigger] s[i]) by {
            assert(is_key_char(lower(s)[i]));
        }
    }
}

proof fn lemma_lower_member(s: Seq<char>)
    ensures
        is_member(lower(s)) <==> is_member(s),
{
    lemma_lower_trim(s);
    let member = trim(s);
    lemma_lower_first_index(member, '=');
    let n = first_index(member, '=') as int;
    lemma_first_index_bound(member, '=');
    assert(lower(member).take(n) =~= lower(member.take(n)));
    lemma_lower_trim_end(member.take(n));
    lemma_lower_key(trim_end(member.take(n)));
}

proof fn lemma_first_index_bound(s: Seq<char>, sep: char)
    ensures
        first_index(s, sep) <= s.len(),
    decreases s.len(),
{
    if s.len() > 0 {
        lemma_first_index_bound(s.skip(1), sep);
    }
}

/// The letter case of directives does not matter: not to what they say, nor to whether a targeted
/// field is taken for a dictionary.
pub proof fn letter_case_does_not_matter(value: Seq<char>)
    ensures
        parsed_directives(lower(value)) == parsed_directives(value),
        is_dictionary(lower(value)) <==> is_dictionary(value),
{
    assert(lower(lower(value)) =~= lower(value)) by {
        assert forall|i: int| 0 <= i < value.len() implies lower(lower(value))[i]
            == #[trigger] lower(value)[i] by {
            lemma_lower_char(value[i]);
        }
    }
    lemma_lower_trim(value);
    let text = trim(value);
    lemma_lower_split(text);
    assert forall|i: int| 0 <= i < split(text, ',').len() implies is_member(
        #[trigger] split(lower(text), ',')[i],
    ) == is_member(split(text, ',')[i]) by {
        lemma_lower_member(split(text, ',')[i]);
    }
    if is_dictionary(lower(value)) {
        assert forall|i: int| 0 <= i < split(text, ',').len() implies is_member(
            #[trigger] split(text, ',')[i],
        ) by {
            assert(is_member(split(lower(text), ',')[i]));
        }
    }
}

proof fn lemma_no_separator(s: Seq<char>, sep: char)
    requires
        forall|i: int| 0 <= i < s.len() ==> s[i] != sep,
    ensures
        first_index(s, sep) == s.len(),
    decreases s.len(),
{
    if s.len() > 0 {
        assert(s.skip(1).len() == s.len() - 1);
        assert forall|i: int| 0 <= i < s.skip(1).len() implies s.skip(1)[i] != sep by {
            assert(s.skip(1)[i] == s[i + 1]);
        }
        lemma_no_separator(s.skip(1), sep);
    }
}

proof fn lemma_word(word: Seq<char>)
    requires
        word.len() > 0,
        forall|i: int|
            0 <= i < word.len() ==> !is_white_space(#[trigger] word[i]) && word[i] != ','
                && lower_char(word[i]) == word[i],
    ensures
        list_tokens(lower(word)) == seq![word],
{
    assert(lower(word) =~= word);
    lemma_no_separator(word, ',');
    assert(split(word, ',') =~= seq![word]);
    assert(trim(word) == word);
    assert(seq![word].drop_last() =~= Seq::<Seq<char>>::empty());
    reveal_with_fuel(tokens_of, 2);
    assert(tokens_of(seq![word]) =~= seq![word]);
}

pub(crate) proof fn lemma_no_cache()
    ensures
        parsed_directives("no-cache"@) == only_no_cache(),
{
    reveal_strlit("no-cache");
    reveal_strlit("no-store");
    reveal_strlit("private");
    reveal_strlit("public");
    reveal_strlit("immutable");
    reveal_strlit("must-revalidate");
    reveal_strlit("proxy-revalidate");
    reveal_strlit("max-age");
    reveal_strlit("s-maxage");
    reveal_strlit("min-fresh");
    reveal_strlit("max-stale");
    reveal_strlit("stale-while-revalidate");
    reveal_strlit("stale-if-error");
    let word = "no-cache"@;
    lemma_word(word);
    let listed = seq![word];
    assert(listed.skip(1) =~= Seq::<Seq<char>>::empty());
    assert(listed.contains(word)) by {
        assert(listed[0] == word);
    }
    assert("no-store"@[3] != word[3]);
    assert(word.take(7)[0] == 'n');
    assert(word.take(8)[0] == 'n');
    reveal_with_fuel(first_value, 2);
    reveal_with_fuel(allowed_staleness, 2);
    assert(value_of(word, "max-age"@) is None);
}

/// Where no `Cache-Control` speaks for a response, `Pragma: no-cache` stands for
/// `Cache-Control: no-cache`.
pub proof fn pragma_stands_for_no_cache(fields: Fields, shared: bool)
    requires
        effective_directives(fields, shared) is None,
        pragma_no_cache(fields),
    ensures
        stored_directives(fields, shared) == Some(parsed_directives("no-cache"@)),
{
    lemma_no_cache();
}

proof fn lemma_first_value_joint(a: Seq<Seq<char>>, b: Seq<Seq<char>>, name: Seq<char>)
    ensures
        first_value(a + b, name) == match first_value(a, name) {
            Some(secs) => Some(secs),
            None => first_value(b, name),
        },
    decreases a.len(),
{
    if a.len() == 0 {
        assert(a + b =~= b);
    } else {
        assert((a + b)[0] == a[0]);
        assert((a + b).skip(1) =~= a.skip(1) + b);
        lemma_first_value_joint(a.skip(1), b, name);
    }
}

proof fn lemma_staleness_joint(a: Seq<Seq<char>>, b: Seq<Seq<char>>)
    ensures
        allowed_staleness(a + b) == match allowed_staleness(a) {
            Some(limit) => Some(limit),
            None => allowed_staleness(b),
        },
    decreases a.len(),
{
    if a.len() == 0 {
        assert(a + b =~= b);
    } else {
        assert((a + b)[0] == a[0]);
        assert((a + b).skip(1) =~= a.skip(1) + b);
        lemma_staleness_joint(a.skip(1), b);
    }
}

proof fn lemma_contains_joint(a: Seq<Seq<char>>, b: Seq<Seq<char>>, name: Seq<char>)
    ensures
        (a + b).contains(name) <==> a.contains(name) || b.contains(name),
{
    if a.contains(name) {
        let i = choose|i: int| 0 <= i < a.len() && a[i] == name;
        assert((a + b)[i] == name);
    }
    if b.contains(name) {
        let i = choose|i: int| 0 <= i < b.len() && b[i] == name;
        assert((a + b)[a.len() + i] == name);
    }
    if (a + b).contains(name) {
        let i = choose|i: int| 0 <= i < (a + b).len() && (a + b)[i] == name;
        if i < a.len() {
            assert(a[i] == name);
        } else {
            assert(b[i - a.len()] == name);
        }
    }
}

/// What the first of two says, or the second where the first says nothing.
pub open spec fn either<T>(first: Option<T>, second: Option<T>) -> Option<T> {
    if first is Some {
        first
    } else {
        second
    }
}

/// A comma parts directives: a list says what either part says, and of two numbers for the same
/// directive the first counts.
pub proof fn commas_part_directives(a: Seq<char>, b: Seq<char>)
    ensures
        ({
            let first = parsed_directives(a);
            let second = parsed_directives(b);
            parsed_directives(a + seq![','] + b) == CacheControl {
                no_cache: first.no_cache || second.no_cache,
                no_store: first.no_store || second.no_store,
                private: first.private || second.private,
                public: first.public || second.public,
                immutable: first.immutable || second.immutable,
                must_revalidate: first.must_revalidate || second.must_revalidate,
                proxy_revalidate: first.proxy_revalidate || second.proxy_revalidate,
                max_age: either(first.max_age, second.max_age),
                s_maxage: either(first.s_maxage, second.s_maxage),
                min_fresh: either(first.min_fresh, second.min_fresh),
                max_stale: either(first.max_stale, second.max_stale),
                stale_while_revalidate: either(
                    first.stale_while_revalidate,
                    second.stale_while_revalidate,
                ),
                stale_if_error: either(first.stale_if_error, second.stale_if_error),
                empty: first.empty && second.empty,
            }
        }),
{
    lemma_lower_char(',');
    assert(lower(a + seq![','] + b) =~= lower(a) + seq![','] + lower(b));
    commas_part_lists(lower(a), lower(b));
    let x = list_tokens(lower(a));
    let y = list_tokens(lower(b));
    lemma_contains_joint(x, y, "no-cache"@);
    lemma_contains_joint(x, y, "no-store"@);
    lemma_contains_joint(x, y, "private"@);
    lemma_contains_joint(x, y, "public"@);
    lemma_contains_joint(x, y, "immutable"@);
    lemma_contains_joint(x, y, "must-revalidate"@);
    lemma_contains_joint(x, y, "proxy-revalidate"@);
    lemma_first_value_joint(x, y, "max-age"@);
    lemma_first_value_joint(x, y, "s-maxage"@);
    lemma_first_value_joint(x, y, "min-fresh"@);
    lemma_first_value_joint(x, y, "stale-while-revalidate"@);
    lemma_first_value_joint(x, y, "stale-if-error"@);
    lemma_staleness_joint(x, y);
}

/// Whether a directive is written as a name, `=` and a text.
pub open spec fn is_written(directive: Seq<char>, name: Seq<char>, text: Seq<char>) -> bool {
    directive == name + seq!['='] + text
}

/// Whether a value is the number of a directive: where the directive is written with a text, what
/// that is as a number; and else none.
pub open spec fn is_number_of(value: Option<u64>, directive: Seq<char>, name: Seq<char>) -> bool {
    &&& forall|text: Seq<char>| #[trigger]
        is_written(directive, name, text) ==> value == number(text)
    &&& value is Some ==> exists|text: Seq<char>| #[trigger] is_written(directive, name, text)
}

proof fn lemma_value_of(directive: Seq<char>, name: Seq<char>)
    ensures
        is_number_of(value_of(directive, name), directive, name),
        first_value(seq![directive], name) == value_of(directive, name),
{
    let n = name.len() as int;
    assert(seq![directive].skip(1) =~= Seq::<Seq<char>>::empty());
    reveal_with_fuel(first_value, 2);
    assert forall|text: Seq<char>| #[trigger]
        is_written(directive, name, text) implies value_of(directive, name) == number(text) by {
        assert(directive.take(n) =~= name);
        assert(directive.skip(n + 1) =~= text);
    }
    if value_of(directive, name) is Some {
        assert(directive =~= name + seq!['='] + directive.skip(n + 1));
        assert(is_written(directive, name, directive.skip(n + 1)));
    }
}

/// One directive says what it is called; those with a number have it behind an `=`. White space
/// about it does not count, nor does letter case, and what is none that a cache heeds says nothing.
pub proof fn directives_say_what_they_are_called(value: Seq<char>)
    requires
        comma_free(value),
    ensures
        ({
            let directive = trim(lower(value));
            let parsed = parsed_directives(value);
            &&& parsed.no_cache <==> directive == "no-cache"@
            &&& parsed.no_store <==> directive == "no-store"@
            &&& parsed.private <==> directive == "private"@
            &&& parsed.public <==> directive == "public"@
            &&& parsed.immutable <==> directive == "immutable"@
            &&& parsed.must_revalidate <==> directive == "must-revalidate"@
            &&& parsed.proxy_revalidate <==> directive == "proxy-revalidate"@
            &&& is_number_of(parsed.max_age, directive, "max-age"@)
            &&& is_number_of(parsed.s_maxage, directive, "s-maxage"@)
            &&& is_number_of(parsed.min_fresh, directive, "min-fresh"@)
            &&& is_number_of(
                parsed.stale_while_revalidate,
                directive,
                "stale-while-revalidate"@,
            )
            &&& is_number_of(parsed.stale_if_error, directive, "stale-if-error"@)
            &&& parsed.max_stale == Some(None::<u64>) <==> directive == "max-stale"@
            &&& directive != "max-stale"@ ==> is_number_of(
                match parsed.max_stale {
                    Some(limit) => limit,
                    None => None,
                },
                directive,
                "max-stale"@,
            )
            &&& parsed.empty <==> directive.len() == 0
        }),
{
    let text = lower(value);
    let directive = trim(text);
    assert forall|i: int| 0 <= i < text.len() implies #[trigger] text[i] != ',' by {
        lemma_lower_char(value[i]);
    }
    commas_part_lists(text, text);
    reveal_strlit("no-cache");
    reveal_strlit("no-store");
    reveal_strlit("private");
    reveal_strlit("public");
    reveal_strlit("immutable");
    reveal_strlit("must-revalidate");
    reveal_strlit("proxy-revalidate");
    reveal_strlit("max-stale");
    lemma_value_of(directive, "max-age"@);
    lemma_value_of(directive, "s-maxage"@);
    lemma_value_of(directive, "min-fresh"@);
    lemma_value_of(directive, "max-stale"@);
    lemma_value_of(directive, "stale-while-revalidate"@);
    lemma_value_of(directive, "stale-if-error"@);
    if directive.len() > 0 {
        assert(list_tokens(text) == seq![directive]);
        assert(seq![directive][0] == directive);
        assert(seq![directive].skip(1) =~= Seq::<Seq<char>>::empty());
        reveal_with_fuel(allowed_staleness, 2);
    } else {
        assert(list_tokens(text).len() == 0);
        lemma_nothing_written(directive);
    }
}

proof fn lemma_nothing_written(directive: Seq<char>)
    requires
        directive.len() == 0,
    ensures
        forall|name: Seq<char>, text: Seq<char>| !(#[trigger] is_written(directive, name, text)),
{
    assert forall|name: Seq<char>, text: Seq<char>| !(#[trigger] is_written(
        directive,
        name,
        text,
    )) by {
        assert((name + seq!['='] + text).len() > 0);
    }
}

} // verus!
