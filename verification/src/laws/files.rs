//! Laws on the files of a filesystem-backed storage.
use vstd::prelude::*;

use crate::fs::{
    after_steps, body_name, commit_steps, commits, committed_variants, file_stem_string, meta_name,
    named_parts, put_names, refresh_steps, replaces_meta, scan_key_dir, temp_name, temp_sibling,
    variant_in, variant_of_file, variants_in, weigh_body, FileStep, Files, PutNames, VariantId,
};
use crate::hashing::{key_hash, variant_hash};
use crate::headers::string_view;
use crate::policy::CachePolicy;
use crate::storage::CacheKey;
use crate::text::{decimal, first_index, is_digit, split, to_decimal, views};

verus! {

/// A variant is found by its metadata file.
pub proof fn metadata_files_name_their_variant(variant: Seq<char>)
    ensures
        variant_in(meta_name(variant)) == Some(variant),
{
    reveal_strlit(".meta");
    let name = meta_name(variant);
    assert(name.skip(name.len() - 5) =~= ".meta"@);
    assert(name.take(name.len() - 5) =~= variant);
}

/// Body files are not taken for metadata.
pub proof fn body_files_name_no_variant(variant: Seq<char>)
    ensures
        variant_in(body_name(variant)) is None,
{
    reveal_strlit(".meta");
    reveal_strlit(".body");
    let name = body_name(variant);
    assert(name.last() == 'y');
    assert(name.skip(name.len() - 5).last() == 'y');
}

proof fn lemma_decimal_ends_in_digit(n: nat)
    ensures
        decimal(n).len() > 0,
        is_digit(decimal(n).last()),
{
}

/// Temporary files are not taken for metadata: what a crash leaves of a write is never read.
pub proof fn temporary_files_name_no_variant(name: Seq<char>, n: nat)
    ensures
        variant_in(temp_name(name, n)) is None,
{
    reveal_strlit(".meta");
    reveal_strlit(".tmp.");
    lemma_decimal_ends_in_digit(n);
    let temp = temp_name(name, n);
    assert(temp.last() == decimal(n).last());
    assert(temp.skip(temp.len() - 5).last() == temp.last());
}

proof fn lemma_names_differ(variant: Seq<char>, n: nat)
    ensures
        body_name(variant) != meta_name(variant),
        temp_name(body_name(variant), n) != body_name(variant),
        temp_name(body_name(variant), n) != meta_name(variant),
        temp_name(meta_name(variant), n) != body_name(variant),
        temp_name(meta_name(variant), n) != meta_name(variant),
        temp_name(body_name(variant), n) != temp_name(meta_name(variant), n),
{
    reveal_strlit(".meta");
    reveal_strlit(".body");
    reveal_strlit(".tmp.");
    assert(body_name(variant).last() == 'y');
    assert(meta_name(variant).last() == 'a');
    assert(temp_name(body_name(variant), n).len() > body_name(variant).len());
    assert(temp_name(body_name(variant), n)[variant.len() as int + 1] == 'b');
    assert(temp_name(meta_name(variant), n)[variant.len() as int + 1] == 'm');
    assert(body_name(variant).len() == meta_name(variant).len());
    assert(temp_name(meta_name(variant), n).len() > meta_name(variant).len());
}

/// The metadata and the body that stand in the files of a variant, where its mark is there.
pub open spec fn visible_entry(files: Files, variant: Seq<char>) -> Option<
    (Seq<u8>, Option<Seq<u8>>),
> {
    if files.contains_key(meta_name(variant)) {
        Some(
            (
                files[meta_name(variant)],
                if files.contains_key(body_name(variant)) {
                    Some(files[body_name(variant)])
                } else {
                    None
                },
            ),
        )
    } else {
        None
    }
}

/// The metadata file is the mark that an entry is complete: wherever a commit is cut short, the
/// metadata and the body that it makes visible are of one write. Before the commit they are what
/// they were, and when it is done they are what was written; in between the variant is not
/// visible. The files of other variants stay as they are.
pub proof fn metadata_marks_complete_entries(
    files: Files,
    names: PutNames,
    variant: Seq<char>,
    n: nat,
    steps: Seq<FileStep>,
    done: int,
    meta: Seq<u8>,
)
    requires
        names.for_variant(variant, n),
        commits(steps, names),
        0 <= done <= 4,
    ensures
        ({
            let after = after_steps(files, steps.take(done), meta);
            &&& visible_entry(after, variant) == if done == 0 {
                visible_entry(files, variant)
            } else if done < 4 {
                None
            } else {
                Some((meta, Some(files[temp_name(body_name(variant), n)])))
            }
            &&& forall|name: Seq<char>|
                name != meta_name(variant) && name != body_name(variant) && name != temp_name(
                    body_name(variant),
                    n,
                ) && name != temp_name(meta_name(variant), n) ==> (#[trigger] after.contains_key(
                    name,
                ) <==> files.contains_key(name)) && (files.contains_key(name) ==> after[name]
                    == files[name])
        }),
{
    lemma_names_differ(variant, n);
    reveal_with_fuel(after_steps, 5);
    if done >= 1 {
        assert(steps.take(done).last() == steps[done - 1]);
        assert(steps.take(done).drop_last() =~= steps.take(done - 1));
    }
    if done >= 2 {
        assert(steps.take(done - 1).last() == steps[done - 2]);
        assert(steps.take(done - 1).drop_last() =~= steps.take(done - 2));
    }
    if done >= 3 {
        assert(steps.take(done - 2).last() == steps[done - 3]);
        assert(steps.take(done - 2).drop_last() =~= steps.take(done - 3));
    }
    if done >= 4 {
        assert(steps.take(done - 3).last() == steps[done - 4]);
        assert(steps.take(done - 3).drop_last() =~= steps.take(done - 4));
    }
    assert(steps.take(0).len() == 0);
}

/// Replacing metadata touches nothing else, wherever it is cut short; where it is done, the
/// metadata is the new one.
pub proof fn refreshing_touches_metadata_alone(
    files: Files,
    variant: Seq<char>,
    n: nat,
    steps: Seq<FileStep>,
    done: int,
    meta: Seq<u8>,
)
    requires
        replaces_meta(steps, meta_name(variant), n),
        0 <= done <= 2,
    ensures
        ({
            let after = after_steps(files, steps.take(done), meta);
            let mark = meta_name(variant);
            &&& done < 2 ==> (after.contains_key(mark) <==> files.contains_key(mark)) && (
            files.contains_key(mark) ==> after[mark] == files[mark])
            &&& done == 2 ==> after.contains_key(mark) && after[mark] == meta
            &&& forall|name: Seq<char>|
                name != mark && name != temp_name(mark, n) ==> (#[trigger] after.contains_key(name)
                    <==> files.contains_key(name)) && (files.contains_key(name) ==> after[name]
                    == files[name])
        }),
{
    lemma_names_differ(variant, n);
    reveal_with_fuel(after_steps, 3);
    if done >= 1 {
        assert(steps.take(done).last() == steps[done - 1]);
        assert(steps.take(done).drop_last() =~= steps.take(done - 1));
    }
    if done >= 2 {
        assert(steps.take(done - 1).last() == steps[done - 2]);
        assert(steps.take(done - 1).drop_last() =~= steps.take(done - 2));
    }
    assert(steps.take(0).len() == 0);
}

/// The files of a variant are called by it, with `.meta` and `.body` behind.
pub proof fn files_are_called_by_their_variant(id: &VariantId, meta: String, body: String)
    requires
        call_ensures(VariantId::meta_file, (id,), meta),
        call_ensures(VariantId::body_file, (id,), body),
    ensures
        meta@ == id.variant_hash@ + seq!['.', 'm', 'e', 't', 'a'],
        body@ == id.variant_hash@ + seq!['.', 'b', 'o', 'd', 'y'],
{
    reveal_strlit(".meta");
    reveal_strlit(".body");
    assert(".meta"@ =~= seq!['.', 'm', 'e', 't', 'a']);
    assert(".body"@ =~= seq!['.', 'b', 'o', 'd', 'y']);
}

/// A file is the metadata of a variant exactly where it is called so.
pub proof fn metadata_is_told_by_its_name(name: &str, variant: Seq<char>, r: Option<&str>)
    requires
        call_ensures(variant_of_file, (name,), r),
    ensures
        (r is Some && r->0@ == variant) <==> name@ == variant + seq!['.', 'm', 'e', 't', 'a'],
{
    reveal_strlit(".meta");
    assert(".meta"@ =~= seq!['.', 'm', 'e', 't', 'a']);
    if r is Some {
        assert(name@ =~= name@.take(name@.len() - 5) + name@.skip(name@.len() - 5));
    }
    metadata_files_name_their_variant(variant);
}

proof fn lemma_variants_in(names: Seq<Seq<char>>, variant: Seq<char>)
    ensures
        variants_in(names).contains(variant) <==> names.contains(meta_name(variant)),
    decreases names.len(),
{
    if names.len() > 0 {
        let front = names.drop_last();
        lemma_variants_in(front, variant);
        metadata_files_name_their_variant(variant);
        let rest = variants_in(front);
        let all = variants_in(names);
        if names.contains(meta_name(variant)) {
            let i = choose|i: int| 0 <= i < names.len() && names[i] == meta_name(variant);
            if i == names.len() - 1 {
                assert(all.last() == variant);
                assert(all[all.len() - 1] == variant);
            } else {
                assert(front[i] == meta_name(variant));
                let j = choose|j: int| 0 <= j < rest.len() && rest[j] == variant;
                assert(all[j] == variant);
            }
        }
        if all.contains(variant) {
            let j = choose|j: int| 0 <= j < all.len() && all[j] == variant;
            if j < rest.len() {
                assert(rest[j] == variant);
                let i = choose|i: int| 0 <= i < front.len() && front[i] == meta_name(variant);
                assert(names[i] == meta_name(variant));
            } else {
                lemma_meta_name(names.last());
                assert(names[names.len() - 1] == meta_name(variant));
            }
        }
    }
}

proof fn lemma_meta_name(name: Seq<char>)
    ensures
        variant_in(name) matches Some(variant) ==> name == meta_name(variant),
{
    reveal_strlit(".meta");
    if variant_in(name) is Some {
        assert(name =~= name.take(name.len() - 5) + name.skip(name.len() - 5));
    }
}

/// A scan of the directory of a key finds a variant exactly where its metadata is there, and under
/// that key.
pub proof fn scans_find_what_is_committed(
    key_hash: &str,
    names: &Vec<&str>,
    r: Vec<VariantId>,
    variant: Seq<char>,
)
    requires
        call_ensures(scan_key_dir, (key_hash, names), r),
    ensures
        (exists|i: int| 0 <= i < r@.len() && (#[trigger] r@[i]).variant_hash@ == variant)
            <==> views(names@).contains(variant + seq!['.', 'm', 'e', 't', 'a']),
        forall|i: int| 0 <= i < r@.len() ==> (#[trigger] r@[i]).key_hash@ == key_hash@,
{
    reveal_strlit(".meta");
    assert(".meta"@ =~= seq!['.', 'm', 'e', 't', 'a']);
    let found = variants_in(views(names@));
    lemma_variants_in(views(names@), variant);
    if found.contains(variant) {
        let i = choose|i: int| 0 <= i < found.len() && found[i] == variant;
        assert(r@[i].variant_hash@ == variant);
    }
    if exists|i: int| 0 <= i < r@.len() && (#[trigger] r@[i]).variant_hash@ == variant {
        let i = choose|i: int| 0 <= i < r@.len() && (#[trigger] r@[i]).variant_hash@ == variant;
        assert(found[i] == variant);
    }
}

/// So does the list of the variants that are committed.
pub proof fn committed_variants_are_marked<'a>(
    names: &Vec<&'a str>,
    r: Vec<&'a str>,
    variant: Seq<char>,
)
    requires
        call_ensures(committed_variants, (names,), r),
    ensures
        views(r@).contains(variant) <==> views(names@).contains(
            variant + seq!['.', 'm', 'e', 't', 'a'],
        ),
{
    reveal_strlit(".meta");
    assert(".meta"@ =~= seq!['.', 'm', 'e', 't', 'a']);
    lemma_variants_in(views(names@), variant);
}

/// Each metadata file in a directory is found once, in order.
pub proof fn scans_go_file_by_file(names: Seq<Seq<char>>, name: Seq<char>, variant: Seq<char>)
    ensures
        variants_in(Seq::empty()) == Seq::<Seq<char>>::empty(),
        variants_in(names.push(meta_name(variant))) == variants_in(names).push(variant),
        variant_in(name) is None ==> variants_in(names.push(name)) == variants_in(names),
{
    metadata_files_name_their_variant(variant);
    assert(names.push(meta_name(variant)).drop_last() =~= names);
    assert(names.push(name).drop_last() =~= names);
}

/// Temporary files of different numbers have different names, and none has the name of the file
/// that it stands in for.
pub proof fn temporary_names_are_told_apart(path: &str, m: u64, n: u64, a: String, b: String)
    requires
        call_ensures(temp_sibling, (path, m), a),
        call_ensures(temp_sibling, (path, n), b),
    ensures
        a@ == b@ ==> m == n,
        a@ != path@,
        a@.len() > path@.len() && a@.take(path@.len() as int) == path@,
{
    reveal_strlit(".tmp.");
    lemma_decimal_ends_in_digit(m as nat);
    if a@ == b@ {
        let cut = path@.len() as int + 5;
        assert(a@.skip(cut) =~= decimal(m as nat));
        assert(b@.skip(cut) =~= decimal(n as nat));
        crate::laws::wording::writing_tells_numbers_apart(m as nat, n as nat);
    }
    assert(a@.take(path@.len() as int) =~= path@);
}

/// A temporary file is called by the file that it stands in for, `.tmp.` and its number.
pub proof fn temporary_names_end_in_their_number(path: &str, n: u64, digits: String, r: String)
    requires
        call_ensures(temp_sibling, (path, n), r),
        call_ensures(to_decimal, (n as u128,), digits),
    ensures
        r@ == path@ + seq!['.', 't', 'm', 'p', '.'] + digits@,
{
    reveal_strlit(".tmp.");
    assert(".tmp."@ =~= seq!['.', 't', 'm', 'p', '.']);
}

/// Whether a text has no slash.
pub open spec fn slash_free(s: Seq<char>) -> bool {
    forall|i: int| 0 <= i < s.len() ==> #[trigger] s[i] != '/'
}

proof fn lemma_first_slash(s: Seq<char>)
    ensures
        first_index(s, '/') <= s.len(),
        forall|i: int| 0 <= i < first_index(s, '/') ==> s[i] != '/',
        first_index(s, '/') < s.len() ==> s[first_index(s, '/') as int] == '/',
    decreases s.len(),
{
    if s.len() > 0 && s[0] != '/' {
        lemma_first_slash(s.skip(1));
        assert forall|i: int| 0 <= i < first_index(s, '/') implies s[i] != '/' by {
            if i > 0 {
                assert(s.skip(1)[i - 1] == s[i]);
            }
        }
    }
}

proof fn lemma_split_last(dir: Seq<char>, name: Seq<char>)
    requires
        slash_free(name),
    ensures
        split(name, '/') == seq![name],
        split(dir + seq!['/'] + name, '/') == split(dir, '/').push(name),
    decreases dir.len(),
{
    lemma_first_slash(name);
    lemma_first_slash(dir);
    let whole = dir + seq!['/'] + name;
    lemma_first_slash(whole);
    let at = first_index(dir, '/') as int;
    assert(whole[dir.len() as int] == '/');
    assert(first_index(whole, '/') == at) by {
        let found = first_index(whole, '/') as int;
        if found < at {
            assert(dir[found] == whole[found]);
        }
        if at < found {
            if at < dir.len() {
                assert(whole[at] == dir[at]);
            }
        }
    }
    assert(whole.take(at) =~= dir.take(at));
    if at < dir.len() {
        lemma_split_last(dir.skip(at + 1), name);
        assert(whole.skip(at + 1) =~= dir.skip(at + 1) + seq!['/'] + name);
        assert(split(whole, '/') =~= split(dir, '/').push(name));
    } else {
        assert(whole.skip(at + 1) =~= name);
        assert(dir.take(at) =~= dir);
        assert(split(name, '/') =~= seq![name]);
        assert(split(dir, '/') =~= seq![dir]);
        assert(split(whole, '/') =~= split(dir, '/').push(name));
    }
}

/// The last name in a path is what stands behind its last slash, if that names something.
pub proof fn paths_end_in_their_name(path: &str, dir: Seq<char>, name: Seq<char>, r: Option<String>)
    requires
        call_ensures(file_stem_string, (path,), r),
        path@ == name || path@ == dir + seq!['/'] + name,
        slash_free(name),
        name.len() > 0,
        name != seq!['.'],
    ensures
        name != seq!['.', '.'] ==> r is Some && r->0@ == name,
        name == seq!['.', '.'] ==> r is None,
{
    reveal_strlit(".");
    reveal_strlit("..");
    assert("."@ =~= seq!['.']);
    assert(".."@ =~= seq!['.', '.']);
    lemma_split_last(dir, name);
    let parts = split(path@, '/');
    assert(parts.last() == name);
    assert(named_parts(parts).last() == name);
}

/// A slash at the end of a path does not count, nor does a dot behind it; and a path that is empty,
/// or only a dot, ends in no name.
pub proof fn ends_of_paths_do_not_count(
    path: &str,
    dir: &str,
    a: Option<String>,
    b: Option<String>,
)
    requires
        call_ensures(file_stem_string, (path,), a),
        call_ensures(file_stem_string, (dir,), b),
        path@ == dir@ + seq!['/'] || path@ == dir@ + seq!['/', '.'],
    ensures
        string_view(a) == string_view(b),
        dir@.len() == 0 ==> b is None,
        dir@ == seq!['.'] ==> b is None,
{
    reveal_strlit(".");
    assert("."@ =~= seq!['.']);
    let tail = path@.skip(dir@.len() as int + 1);
    assert(path@ =~= dir@ + seq!['/'] + tail);
    assert(tail =~= Seq::empty() || tail =~= seq!['.']);
    lemma_split_last(dir@, tail);
    let parts = split(path@, '/');
    assert(parts.last() == tail);
    assert(parts.drop_last() =~= split(dir@, '/'));
    if dir@.len() == 0 || dir@ == seq!['.'] {
        lemma_split_last(dir@, dir@);
        let own = split(dir@, '/');
        assert(own.last() == dir@);
        assert(own.drop_last() =~= Seq::empty());
        assert(named_parts(own.drop_last()).len() == 0);
    }
}

/// A response is written to the files of its own variant: committed without a break, the body that
/// was written to the temporary file and the metadata stand in those files; and cut short anywhere
/// before that, but after it was begun, nothing of the variant is to be seen.
pub proof fn commits_go_to_the_variant(
    key: &CacheKey,
    policy: &CachePolicy,
    n: u64,
    names: PutNames,
    steps: Vec<FileStep>,
    variant: String,
    files: Files,
    meta: Seq<u8>,
    done: int,
)
    requires
        call_ensures(put_names, (key, policy, n), names),
        call_ensures(commit_steps, (&names,), steps),
        call_ensures(variant_hash, (policy,), variant),
        0 < done <= steps@.len(),
    ensures
        ({
            let mark = variant@ + seq!['.', 'm', 'e', 't', 'a'];
            let body = variant@ + seq!['.', 'b', 'o', 'd', 'y'];
            let after = after_steps(files, steps@.take(done), meta);
            &&& done < steps@.len() ==> !after.contains_key(mark)
            &&& done == steps@.len() ==> after.contains_key(mark) && after[mark] == meta
                && after.contains_key(body) && after[body] == files[names.body_tmp@]
            &&& forall|name: Seq<char>|
                name != mark && name != body && name != names.body_tmp@ && name != names.meta_tmp@
                    ==> (#[trigger] after.contains_key(name) <==> files.contains_key(name)) && (
                files.contains_key(name) ==> after[name] == files[name])
        }),
{
    reveal_strlit(".meta");
    reveal_strlit(".body");
    assert(".meta"@ =~= seq!['.', 'm', 'e', 't', 'a']);
    assert(".body"@ =~= seq!['.', 'b', 'o', 'd', 'y']);
    metadata_marks_complete_entries(files, names, variant@, n as nat, steps@, done, meta);
}

/// The files of a write are those of its variant and their temporary siblings of that number, in
/// the directory of its key.
pub proof fn writes_have_their_own_files(
    key: &CacheKey,
    policy: &CachePolicy,
    n: u64,
    names: PutNames,
    dir: String,
    variant: String,
    body: &str,
    meta: &str,
    body_tmp: String,
    meta_tmp: String,
)
    requires
        call_ensures(put_names, (key, policy, n), names),
        call_ensures(key_hash, (key,), dir),
        call_ensures(variant_hash, (policy,), variant),
        body@ == variant@ + seq!['.', 'b', 'o', 'd', 'y'],
        meta@ == variant@ + seq!['.', 'm', 'e', 't', 'a'],
        call_ensures(temp_sibling, (body, n), body_tmp),
        call_ensures(temp_sibling, (meta, n), meta_tmp),
    ensures
        names.id.key_hash@ == dir@,
        names.id.variant_hash@ == variant@,
        names.body_final@ == body@,
        names.meta_final@ == meta@,
        names.body_tmp@ == body_tmp@,
        names.meta_tmp@ == meta_tmp@,
{
    reveal_strlit(".meta");
    reveal_strlit(".body");
    assert(".meta"@ =~= seq!['.', 'm', 'e', 't', 'a']);
    assert(".body"@ =~= seq!['.', 'b', 'o', 'd', 'y']);
}

/// Metadata is replaced at one stroke: until the last step it is what it was, and then the new one;
/// no other file but the temporary one is touched.
pub proof fn metadata_is_replaced_at_one_stroke(
    path: &str,
    n: u64,
    steps: Vec<FileStep>,
    tmp: String,
    files: Files,
    meta: Seq<u8>,
    done: int,
)
    requires
        call_ensures(refresh_steps, (path, n), steps),
        call_ensures(temp_sibling, (path, n), tmp),
        0 <= done <= steps@.len(),
    ensures
        ({
            let after = after_steps(files, steps@.take(done), meta);
            &&& done < steps@.len() ==> (after.contains_key(path@) <==> files.contains_key(path@))
                && (files.contains_key(path@) ==> after[path@] == files[path@])
            &&& done == steps@.len() ==> after.contains_key(path@) && after[path@] == meta
                && !after.contains_key(tmp@)
            &&& forall|name: Seq<char>|
                name != path@ && name != tmp@ ==> (#[trigger] after.contains_key(name)
                    <==> files.contains_key(name)) && (files.contains_key(name) ==> after[name]
                    == files[name])
        }),
{
    temporary_names_are_told_apart(path, n, n, tmp, tmp);
    reveal_with_fuel(after_steps, 3);
    if done >= 1 {
        assert(steps@.take(done).last() == steps@[done - 1]);
        assert(steps@.take(done).drop_last() =~= steps@.take(done - 1));
    }
    if done >= 2 {
        assert(steps@.take(done - 1).last() == steps@[done - 2]);
        assert(steps@.take(done - 1).drop_last() =~= steps@.take(done - 2));
    }
    assert(steps@.take(0).len() == 0);
}

/// A stored body weighs its bytes, or the largest weight where those are more.
pub proof fn bodies_weigh_their_bytes(len: u64, r: u32)
    requires
        call_ensures(weigh_body, (len,), r),
    ensures
        len <= 0xffff_ffff ==> r == len,
        len > 0xffff_ffff ==> r == 0xffff_ffff,
{
}

/// What the steps on files do: one removes a file, one gives it another name, one writes metadata;
/// all other files stay.
pub proof fn steps_do_what_they_say(files: Files, step: FileStep, meta: Seq<u8>, name: Seq<char>)
    ensures
        ({
            let after = step.after(files, meta);
            let stays = (after.contains_key(name) <==> files.contains_key(name)) && (
            files.contains_key(name) ==> after[name] == files[name]);
            match step {
                FileStep::Remove { name: gone } => {
                    &&& !after.contains_key(gone@)
                    &&& name != gone@ ==> stays
                },
                FileStep::Rename { from, to } => {
                    &&& after.contains_key(to@)
                    &&& after[to@] == files[from@]
                    &&& from@ != to@ ==> !after.contains_key(from@)
                    &&& name != from@ && name != to@ ==> stays
                },
                FileStep::WriteMeta { to } => {
                    &&& after.contains_key(to@)
                    &&& after[to@] == meta
                    &&& name != to@ ==> stays
                },
            }
        }),
{
}

} // verus!
