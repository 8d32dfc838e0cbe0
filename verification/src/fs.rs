//! Files of a filesystem-backed storage: their names, and the order in which they are committed.
//!
//! Entries live at `<root>/<key-hash>/<variant-hash>.{meta,body}`. The variants of one URL are
//! sibling files. Writes go to temporary files that are renamed into place, the `.meta` file last:
//! it is the mark that an entry is complete. Where an entry is replaced, its mark is withdrawn
//! first.
use vstd::prelude::*;
use vstd::string::*;
use vstd::utf8::encode_utf8;

use crate::hashing::{hex, key_hash, sha256, signature, variant_hash};
use crate::headers::string_view;
use crate::policy::CachePolicy;
use crate::storage::CacheKey;
use crate::text::{decimal, same_text, split, split_str, to_decimal, views};

verus! {

/// The default limit on stored body bytes: 1 GiB.
pub const DEFAULT_MAX_CAPACITY_BYTES: u64 = 1024 * 1024 * 1024;

/// The name of the file that holds a variant's metadata.
pub open spec fn meta_name(variant: Seq<char>) -> Seq<char> {
    variant + ".meta"@
}

/// The name of the file that holds a variant's body.
pub open spec fn body_name(variant: Seq<char>) -> Seq<char> {
    variant + ".body"@
}

/// The name of the `n`th temporary file beside the one called `name`.
pub open spec fn temp_name(name: Seq<char>, n: nat) -> Seq<char> {
    name + ".tmp."@ + decimal(n)
}

/// The variant whose metadata is in the file called `name`; `None` where it is another file.
pub open spec fn variant_in(name: Seq<char>) -> Option<Seq<char>> {
    let start = name.len() - 5;
    if start >= 0 && name.skip(start) == ".meta"@ {
        Some(name.take(start))
    } else {
        None
    }
}

/// The variants whose metadata is among the files called `names`, in order.
pub open spec fn variants_in(names: Seq<Seq<char>>) -> Seq<Seq<char>>
    decreases names.len(),
{
    if names.len() == 0 {
        Seq::empty()
    } else {
        let rest = variants_in(names.drop_last());
        match variant_in(names.last()) {
            Some(variant) => rest.push(variant),
            None => rest,
        }
    }
}

/// The parts of a path that name something: not the empty ones, nor the current directory.
pub open spec fn named_parts(parts: Seq<Seq<char>>) -> Seq<Seq<char>>
    decreases parts.len(),
{
    if parts.len() == 0 {
        Seq::empty()
    } else {
        let rest = named_parts(parts.drop_last());
        if parts.last().len() == 0 || parts.last() == "."@ {
            rest
        } else {
            rest.push(parts.last())
        }
    }
}

/// The last name in a path; `None` where the path ends in no name.
pub open spec fn file_name(path: Seq<char>) -> Option<Seq<char>> {
    let parts = named_parts(split(path, '/'));
    if parts.len() == 0 || parts.last() == ".."@ {
        None
    } else {
        Some(parts.last())
    }
}

/// The variant whose metadata is in the file called `name`.
pub fn variant_of_file<'a>(name: &'a str) -> (r: Option<&'a str>)
    ensures
        match r {
            Some(variant) => variant_in(name@) == Some(variant@),
            None => variant_in(name@) is None,
        },
{
    let n: usize = name.unicode_len();
    proof {
        reveal_strlit(".meta");
    }
    if n < 5 {
        return None;
    }
    let end = name.substring_char(n - 5, n);
    assert(end@ =~= name@.skip(n - 5));
    if same_text(end, ".meta") {
        let variant = name.substring_char(0, n - 5);
        assert(variant@ =~= name@.take(n - 5));
        Some(variant)
    } else {
        None
    }
}

/// The variants whose metadata is among the files called `names`.
pub fn committed_variants<'a>(names: &Vec<&'a str>) -> (r: Vec<&'a str>)
    ensures
        views(r@) == variants_in(views(names@)),
{
    let mut out: Vec<&'a str> = Vec::new();
    let ghost all = views(names@);
    let mut i: usize = 0;
    assert(views(out@) =~= variants_in(all.take(0)));
    while i < names.len()
        invariant
            i <= names.len(),
            all == views(names@),
            views(out@) == variants_in(all.take(i as int)),
        decreases names.len() - i,
    {
        proof {
            assert(all.take(i as int + 1).drop_last() =~= all.take(i as int));
            assert(all[i as int] == names@[i as int]@);
        }
        if let Some(variant) = variant_of_file(names[i]) {
            let ghost before = out@;
            out.push(variant);
            assert(views(out@) =~= views(before).push(variant@));
        }
        i += 1;
    }
    assert(all.take(all.len() as int) =~= all);
    out
}

/// The last name in a path.
pub fn file_stem_string(path: &str) -> (r: Option<String>)
    ensures
        string_view(r) == file_name(path@),
{
    let parts = split_str(path, '/');
    let ghost all = views(parts@);
    let mut last: Option<&str> = None;
    let mut i: usize = 0;
    while i < parts.len()
        invariant
            i <= parts.len(),
            all == views(parts@),
            match last {
                Some(part) => named_parts(all.take(i as int)).len() > 0 && named_parts(
                    all.take(i as int),
                ).last() == part@,
                None => named_parts(all.take(i as int)).len() == 0,
            },
        decreases parts.len() - i,
    {
        let part = parts[i];
        proof {
            assert(all.take(i as int + 1).drop_last() =~= all.take(i as int));
            assert(all[i as int] == part@);
        }
        if !part.is_empty() && !same_text(part, ".") {
            last = Some(part);
        }
        i += 1;
    }
    assert(all.take(all.len() as int) =~= all);
    match last {
        Some(part) => {
            if same_text(part, "..") {
                None
            } else {
                Some(part.to_owned())
            }
        },
        None => None,
    }
}

/// The `n`th temporary path beside `path`.
pub fn temp_sibling(path: &str, n: u64) -> (r: String)
    ensures
        r@ == temp_name(path@, n as nat),
{
    let mut name = path.to_owned();
    name.append(".tmp.");
    name.append(to_decimal(n as u128).as_str());
    name
}

/// The weight of a stored body of this many bytes, as far as a weight goes.
pub fn weigh_body(len: u64) -> (r: u32)
    ensures
        r == if len <= u32::MAX {
            len as u32
        } else {
            u32::MAX
        },
{
    if len <= u32::MAX as u64 {
        len as u32
    } else {
        u32::MAX
    }
}

/// One stored variant: what it takes to find its files under a root.
#[derive(Debug, PartialEq, Eq, Hash)]
pub struct VariantId {
    pub key_hash: String,
    pub variant_hash: String,
}

impl Clone for VariantId {
    fn clone(&self) -> (r: VariantId)
        ensures
            r.key_hash@ == self.key_hash@,
            r.variant_hash@ == self.variant_hash@,
    {
        VariantId { key_hash: self.key_hash.clone(), variant_hash: self.variant_hash.clone() }
    }
}

impl VariantId {
    /// The name of the file that holds this variant's metadata.
    pub fn meta_file(&self) -> (r: String)
        ensures
            r@ == meta_name(self.variant_hash@),
    {
        self.variant_hash.clone().concat(".meta")
    }

    /// The name of the file that holds this variant's body.
    pub fn body_file(&self) -> (r: String)
        ensures
            r@ == body_name(self.variant_hash@),
    {
        self.variant_hash.clone().concat(".body")
    }
}

/// The variants whose metadata is among the files called `names` in the directory of a key.
pub fn scan_key_dir(key_hash: &str, names: &Vec<&str>) -> (r: Vec<VariantId>)
    ensures
        r@.len() == variants_in(views(names@)).len(),
        forall|i: int|
            0 <= i < r@.len() ==> (#[trigger] r@[i]).key_hash@ == key_hash@ && r@[i].variant_hash@
                == variants_in(views(names@))[i],
{
    let variants = committed_variants(names);
    let mut out: Vec<VariantId> = Vec::new();
    let mut i: usize = 0;
    while i < variants.len()
        invariant
            i <= variants.len(),
            out.len() == i,
            views(variants@) == variants_in(views(names@)),
            forall|k: int|
                0 <= k < i ==> (#[trigger] out@[k]).key_hash@ == key_hash@ && out@[k].variant_hash@
                    == variants_in(views(names@))[k],
        decreases variants.len() - i,
    {
        out.push(
            VariantId { key_hash: key_hash.to_owned(), variant_hash: variants[i].to_owned() },
        );
        assert(views(variants@)[i as int] == variants@[i as int]@);
        i += 1;
    }
    out
}

/// The files that the writing of one entry goes through, all in the directory of its key.
#[derive(Debug)]
pub struct PutNames {
    pub id: VariantId,
    pub body_tmp: String,
    pub body_final: String,
    pub meta_tmp: String,
    pub meta_final: String,
}

impl PutNames {
    /// Whether these are the files of the `n`th write, of the variant `variant`.
    pub open spec fn for_variant(self, variant: Seq<char>, n: nat) -> bool {
        &&& self.id.variant_hash@ == variant
        &&& self.body_final@ == body_name(variant)
        &&& self.meta_final@ == meta_name(variant)
        &&& self.body_tmp@ == temp_name(body_name(variant), n)
        &&& self.meta_tmp@ == temp_name(meta_name(variant), n)
    }
}

/// The files of the `n`th write, of a response with this policy under this key.
pub fn put_names(key: &CacheKey, policy: &CachePolicy, n: u64) -> (r: PutNames)
    ensures
        r.id.key_hash@ == hex(sha256(encode_utf8(key@.text()))),
        r.for_variant(hex(sha256(signature(policy@.vary))), n as nat),
{
    let id = VariantId { key_hash: key_hash(key), variant_hash: variant_hash(policy) };
    let body_final = id.body_file();
    let meta_final = id.meta_file();
    let body_tmp = temp_sibling(body_final.as_str(), n);
    let meta_tmp = temp_sibling(meta_final.as_str(), n);
    PutNames { id, body_tmp, body_final, meta_tmp, meta_final }
}

/// One step on the files of a directory.
#[derive(Debug)]
pub enum FileStep {
    /// Remove the file called `name`, where there is one.
    Remove { name: String },
    /// Give the file called `from` the name `to`, in place of any file of that name.
    Rename { from: String, to: String },
    /// Write the metadata into the file called `to`.
    WriteMeta { to: String },
}

/// The files of a directory: their bytes by their names.
pub type Files = Map<Seq<char>, Seq<u8>>;

impl FileStep {
    /// The files after this step, where `meta` is the metadata to write.
    pub open spec fn after(self, files: Files, meta: Seq<u8>) -> Files {
        match self {
            FileStep::Remove { name } => files.remove(name@),
            FileStep::Rename { from, to } => files.remove(from@).insert(to@, files[from@]),
            FileStep::WriteMeta { to } => files.insert(to@, meta),
        }
    }
}

/// The files after these steps.
pub open spec fn after_steps(files: Files, steps: Seq<FileStep>, meta: Seq<u8>) -> Files
    decreases steps.len(),
{
    if steps.len() == 0 {
        files
    } else {
        steps.last().after(after_steps(files, steps.drop_last(), meta), meta)
    }
}

/// Whether these steps commit an entry: the mark of the one before it goes, then come body,
/// metadata and mark.
pub open spec fn commits(steps: Seq<FileStep>, names: PutNames) -> bool {
    &&& steps.len() == 4
    &&& steps[0] matches FileStep::Remove { name } && name@ == names.meta_final@
    &&& steps[1] matches FileStep::Rename { from, to } && from@ == names.body_tmp@ && to@
        == names.body_final@
    &&& steps[2] matches FileStep::WriteMeta { to } && to@ == names.meta_tmp@
    &&& steps[3] matches FileStep::Rename { from, to } && from@ == names.meta_tmp@ && to@
        == names.meta_final@
}

/// The steps that commit an entry once its body is written to its temporary file.
pub fn commit_steps(names: &PutNames) -> (r: Vec<FileStep>)
    ensures
        commits(r@, *names),
{
    let mut steps: Vec<FileStep> = Vec::new();
    steps.push(FileStep::Remove { name: names.meta_final.clone() });
    steps.push(
        FileStep::Rename { from: names.body_tmp.clone(), to: names.body_final.clone() },
    );
    steps.push(FileStep::WriteMeta { to: names.meta_tmp.clone() });
    steps.push(
        FileStep::Rename { from: names.meta_tmp.clone(), to: names.meta_final.clone() },
    );
    steps
}

/// Whether these steps replace the metadata in the file called `meta`.
pub open spec fn replaces_meta(steps: Seq<FileStep>, meta: Seq<char>, n: nat) -> bool {
    &&& steps.len() == 2
    &&& steps[0] matches FileStep::WriteMeta { to } && to@ == temp_name(meta, n)
    &&& steps[1] matches FileStep::Rename { from, to } && from@ == temp_name(meta, n) && to@ == meta
}

/// The steps that replace the metadata in the file at `meta_path`.
pub fn refresh_steps(meta_path: &str, n: u64) -> (r: Vec<FileStep>)
    ensures
        replaces_meta(r@, meta_path@, n as nat),
{
    let mut steps: Vec<FileStep> = Vec::new();
    let tmp = temp_sibling(meta_path, n);
    steps.push(FileStep::WriteMeta { to: tmp.clone() });
    steps.push(FileStep::Rename { from: tmp, to: meta_path.to_owned() });
    steps
}

} // verus!
