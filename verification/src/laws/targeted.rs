//! Laws on the targeted field `CDN-Cache-Control`.
use vstd::prelude::*;

use crate::directives::{directives_in, targeted};
use crate::headers::{field, field_text, has_field, Fields};
use crate::http::{Method, Status};
use crate::options::CacheOptions;
use crate::policy::{captured, stored_directives, Selection};
use crate::storability::storable;
use crate::text::lower;

verus! {

/// Whether two header collections differ in the fields called `names` at most.
pub open spec fn agree_except(a: Fields, b: Fields, names: Seq<Seq<char>>) -> bool {
    &&& forall|name: Seq<char>|
        !names.contains(name) ==> (#[trigger] a.contains_key(name) <==> b.contains_key(name))
    &&& forall|name: Seq<char>|
        !names.contains(name) && a.contains_key(name) ==> #[trigger] a[name] == b[name]
}

/// The fields that a targeted field displaces.
pub open spec fn displaced_names() -> Seq<Seq<char>> {
    seq![lower("cache-control"@), lower("expires"@), lower("pragma"@)]
}

/// The targeted field.
pub open spec fn targeted_names() -> Seq<Seq<char>> {
    seq![lower("cdn-cache-control"@)]
}

proof fn lemma_agree(a: Fields, b: Fields, names: Seq<Seq<char>>, name: Seq<char>)
    requires
        agree_except(a, b, names),
        !names.contains(lower(name)),
    ensures
        has_field(a, name) == has_field(b, name),
        field(a, name) == field(b, name),
        field_text(a, name) == field_text(b, name),
        directives_in(a, name) == directives_in(b, name),
{
    assert(a.contains_key(lower(name)) <==> b.contains_key(lower(name)));
    if a.contains_key(lower(name)) {
        assert(a[lower(name)] == b[lower(name)]);
    }
}

proof fn lemma_unlike_displaced(name: Seq<char>)
    requires
        name == "cdn-cache-control"@ || name == "vary"@ || name == "date"@ || name == "set-cookie"@
            || name == "last-modified"@,
    ensures
        !displaced_names().contains(lower(name)),
{
    reveal_strlit("cdn-cache-control");
    reveal_strlit("vary");
    reveal_strlit("date");
    reveal_strlit("set-cookie");
    reveal_strlit("last-modified");
    reveal_strlit("cache-control");
    reveal_strlit("expires");
    reveal_strlit("pragma");
    let names = displaced_names();
    assert(lower(name).len() == name.len());
    assert(names[0].len() == 13);
    assert(names[1].len() == 7);
    assert(names[2].len() == 6);
    assert(names[0][0] == 'c');
    assert(name == "last-modified"@ ==> lower(name)[0] == 'l');
}

proof fn lemma_unlike_targeted(name: Seq<char>)
    requires
        name == "cache-control"@ || name == "vary"@ || name == "date"@ || name == "set-cookie"@
            || name == "last-modified"@ || name == "expires"@ || name == "pragma"@,
    ensures
        !targeted_names().contains(lower(name)),
{
    reveal_strlit("cdn-cache-control");
    reveal_strlit("vary");
    reveal_strlit("date");
    reveal_strlit("set-cookie");
    reveal_strlit("last-modified");
    reveal_strlit("cache-control");
    reveal_strlit("expires");
    reveal_strlit("pragma");
    assert(lower(name).len() == name.len());
    assert(targeted_names()[0].len() == 17);
}

/// Where a targeted field speaks for a response, `Cache-Control`, `Expires` and `Pragma` do not
/// matter: not to whether the response is stored, nor to what governs it, nor to how long it is
/// fresh.
pub proof fn targeted_field_displaces_the_others(
    a: Fields,
    b: Fields,
    method: Method,
    request: Fields,
    status: Status,
    vary: Selection,
    time: int,
    options: CacheOptions,
)
    requires
        targeted(a, options.shared),
        agree_except(a, b, displaced_names()),
    ensures
        targeted(b, options.shared),
        stored_directives(a, options.shared) == stored_directives(b, options.shared),
        storable(method, request, status, a, options.shared) == storable(
            method,
            request,
            status,
            b,
            options.shared,
        ),
        captured(method, vary, status, a, time, options).lifetime() == captured(
            method,
            vary,
            status,
            b,
            time,
            options,
        ).lifetime(),
{
    let names = displaced_names();
    lemma_unlike_displaced("cdn-cache-control"@);
    lemma_agree(a, b, names, "cdn-cache-control"@);
    lemma_unlike_displaced("vary"@);
    lemma_agree(a, b, names, "vary"@);
    lemma_unlike_displaced("date"@);
    lemma_agree(a, b, names, "date"@);
    lemma_unlike_displaced("set-cookie"@);
    lemma_agree(a, b, names, "set-cookie"@);
    lemma_unlike_displaced("last-modified"@);
    lemma_agree(a, b, names, "last-modified"@);
}

/// A cache that is not shared ignores the targeted field: with it or without, the response is
/// stored or not, governed by the same directives, and fresh for as long.
pub proof fn private_cache_ignores_the_targeted_field(
    a: Fields,
    b: Fields,
    method: Method,
    request: Fields,
    status: Status,
    vary: Selection,
    time: int,
    options: CacheOptions,
)
    requires
        !options.shared,
        agree_except(a, b, targeted_names()),
    ensures
        stored_directives(a, options.shared) == stored_directives(b, options.shared),
        storable(method, request, status, a, options.shared) == storable(
            method,
            request,
            status,
            b,
            options.shared,
        ),
        captured(method, vary, status, a, time, options).lifetime() == captured(
            method,
            vary,
            status,
            b,
            time,
            options,
        ).lifetime(),
{
    let names = targeted_names();
    lemma_unlike_targeted("cache-control"@);
    lemma_agree(a, b, names, "cache-control"@);
    lemma_unlike_targeted("expires"@);
    lemma_agree(a, b, names, "expires"@);
    lemma_unlike_targeted("pragma"@);
    lemma_agree(a, b, names, "pragma"@);
    lemma_unlike_targeted("vary"@);
    lemma_agree(a, b, names, "vary"@);
    lemma_unlike_targeted("date"@);
    lemma_agree(a, b, names, "date"@);
    lemma_unlike_targeted("set-cookie"@);
    lemma_agree(a, b, names, "set-cookie"@);
    lemma_unlike_targeted("last-modified"@);
    lemma_agree(a, b, names, "last-modified"@);
}

} // verus!
