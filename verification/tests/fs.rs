//! File names of the filesystem storage and the order of its commits.
use sha2::{Digest, Sha256};
use std::collections::BTreeMap;
use std::path::Path;
use trillium_cache::fs::{
    commit_steps, committed_variants, file_stem_string, put_names, refresh_steps, scan_key_dir,
    temp_sibling, variant_of_file, weigh_body, FileStep, VariantId, DEFAULT_MAX_CAPACITY_BYTES,
};
use trillium_cache::hashing::{hash_hex, key_hash, to_hex, variant_hash, variant_signature};
use trillium_cache::http::{Method, Status};
use trillium_cache::options::CacheOptions;
use trillium_cache::time::Timestamp;
use trillium_cache::{CacheKey, CachePolicy};
use trillium_http::Headers;

fn policy(request: &[(&'static str, &'static str)], vary: &'static str) -> CachePolicy {
    let mut request_headers = Headers::new();
    for (name, value) in request {
        request_headers.insert(*name, *value);
    }
    let mut response_headers = Headers::new();
    response_headers.insert("vary", vary);
    CachePolicy::new(
        Method::Get,
        &request_headers,
        Status::new(200),
        response_headers,
        Timestamp::new(1_700_000_000, 0),
        CacheOptions::default(),
    )
}

fn key() -> CacheKey {
    CacheKey::new(Method::Get, "http://example.com/".to_string())
}

/// Carries steps out on a directory of names and bytes.
fn carry_out(files: &mut BTreeMap<String, Vec<u8>>, steps: &[FileStep], meta: &[u8]) {
    for step in steps {
        match step {
            FileStep::Rename { from, to } => {
                let bytes = files.remove(from).expect("the file is there");
                files.insert(to.clone(), bytes);
            }
            FileStep::Remove { name } => {
                files.remove(name);
            }
            FileStep::WriteMeta { to } => {
                files.insert(to.clone(), meta.to_vec());
            }
        }
    }
}

fn listed(files: &BTreeMap<String, Vec<u8>>) -> Vec<&str> {
    files.keys().map(|name| name.as_str()).collect()
}

#[test]
fn digests_are_spelled_in_hex() {
    assert_eq!(to_hex(&vec![0u8, 1, 0x7f, 0xa0, 0xff]), "00017fa0ff");
    assert_eq!(
        hash_hex(b"abc"),
        "ba7816bf8f01cfea414140de5dae2223b00361a396177a9cb410ff61f20015ad"
    );
    assert_eq!(
        hash_hex(b""),
        "e3b0c44298fc1c149afbf4c8996fb92427ae41e4649b934ca495991b7852b855"
    );
}

#[test]
fn keys_are_hashed_as_text() {
    assert_eq!(key().to_text(), "GET http://example.com/");
    assert_eq!(key_hash(&key()), hash_hex(b"GET http://example.com/"));
    let head = CacheKey::new(Method::Head, "http://example.com/".to_string());
    assert_ne!(key_hash(&key()), key_hash(&head));
}

#[test]
fn variants_are_hashed_by_their_selection() {
    let both = policy(&[("accept", "text/html")], "Accept, Accept-Language");
    let mut expected = b"accept\0\x01text/html\0".to_vec();
    expected.extend_from_slice(b"accept-language\0\0\0");
    assert_eq!(variant_signature(&both), expected);
    let mut hasher = Sha256::new();
    hasher.update(&expected);
    assert_eq!(variant_hash(&both), to_hex(&hasher.finalize().to_vec()));

    let same = policy(&[("accept", "text/html"), ("cookie", "a=b")], "Accept, Accept-Language");
    assert_eq!(variant_hash(&both), variant_hash(&same));
    let other = policy(&[("accept", "text/plain")], "Accept, Accept-Language");
    assert_ne!(variant_hash(&both), variant_hash(&other));
    // An empty value is not an absent one.
    let empty = policy(&[("accept", "")], "Accept");
    let absent = policy(&[], "Accept");
    assert_ne!(variant_hash(&empty), variant_hash(&absent));
}

#[test]
fn only_metadata_files_name_variants() {
    assert_eq!(variant_of_file("abc.meta"), Some("abc"));
    assert_eq!(variant_of_file(".meta"), Some(""));
    assert_eq!(variant_of_file("abc.meta.tmp.3"), None);
    assert_eq!(variant_of_file("abc.body"), None);
    assert_eq!(variant_of_file("meta"), None);
    assert_eq!(variant_of_file(""), None);
    assert_eq!(variant_of_file("é.meta"), Some("é"));
    let names = vec!["a.meta", "a.body", "b.body", "c.meta.tmp.0", "d.meta"];
    assert_eq!(committed_variants(&names), vec!["a", "d"]);
    let ids = scan_key_dir("k", &names);
    assert_eq!(
        ids,
        vec![
            VariantId { key_hash: "k".to_string(), variant_hash: "a".to_string() },
            VariantId { key_hash: "k".to_string(), variant_hash: "d".to_string() },
        ]
    );
    assert_eq!(ids[1].meta_file(), "d.meta");
    assert_eq!(ids[1].body_file(), "d.body");
    assert_eq!(ids[0].clone(), ids[0]);
}

#[test]
fn temporary_names_carry_their_number() {
    assert_eq!(temp_sibling("x.meta", 0), "x.meta.tmp.0");
    assert_eq!(temp_sibling("/a/b", 1205), "/a/b.tmp.1205");
    assert_eq!(temp_sibling("", u64::MAX), ".tmp.18446744073709551615");
}

#[test]
fn last_names_are_those_of_paths() {
    for path in [
        "", "/", "a", "a/", "a/b", "a/b/", "a/b//", "a/.", "a/./", "./a", "..", "a/..", "../a",
        "/a/b.c", "//x//", ".", "./", "a/...", "é/ü",
    ] {
        let expected = Path::new(path).file_name().map(|name| name.to_str().unwrap().to_string());
        assert_eq!(file_stem_string(path), expected, "{path:?}");
    }
}

#[test]
fn bodies_weigh_what_they_count() {
    assert_eq!(weigh_body(0), 0);
    assert_eq!(weigh_body(600), 600);
    assert_eq!(weigh_body(u32::MAX as u64), u32::MAX);
    assert_eq!(weigh_body(u32::MAX as u64 + 1), u32::MAX);
    assert_eq!(weigh_body(u64::MAX), u32::MAX);
    assert_eq!(DEFAULT_MAX_CAPACITY_BYTES, 1_073_741_824);
}

#[test]
fn entries_are_visible_once_they_are_complete() {
    let names = put_names(&key(), &policy(&[], "Accept"), 7);
    let variant = variant_hash(&policy(&[], "Accept"));
    assert_eq!(names.id.key_hash, key_hash(&key()));
    assert_eq!(names.id.variant_hash, variant);
    assert_eq!(names.body_final, format!("{variant}.body"));
    assert_eq!(names.meta_final, format!("{variant}.meta"));
    assert_eq!(names.body_tmp, format!("{variant}.body.tmp.7"));
    assert_eq!(names.meta_tmp, format!("{variant}.meta.tmp.7"));

    let steps = commit_steps(&names);
    assert_eq!(steps.len(), 4);
    let mut files = BTreeMap::new();
    files.insert(names.body_tmp.clone(), b"body".to_vec());
    for step in steps.iter() {
        assert!(committed_variants(&listed(&files)).is_empty());
        carry_out(&mut files, std::slice::from_ref(step), b"meta");
    }
    assert_eq!(committed_variants(&listed(&files)), vec![variant.as_str()]);
    assert_eq!(files.len(), 2);
    assert_eq!(files[&names.body_final], b"body");
    assert_eq!(files[&names.meta_final], b"meta");
}

#[test]
fn replacing_an_entry_never_mixes_two_writes() {
    let names = put_names(&key(), &policy(&[], "Accept"), 0);
    let again = put_names(&key(), &policy(&[], "Accept"), 1);
    let mut files = BTreeMap::new();
    files.insert(names.body_tmp.clone(), b"body one".to_vec());
    carry_out(&mut files, &commit_steps(&names), b"meta one");
    files.insert(again.body_tmp.clone(), b"body two".to_vec());
    let steps = commit_steps(&again);
    for done in 0..=steps.len() {
        let mut cut_short = files.clone();
        carry_out(&mut cut_short, &steps[..done], b"meta two");
        let seen = cut_short
            .get(&names.meta_final)
            .map(|meta| (meta.as_slice(), cut_short[&names.body_final].as_slice()));
        if done == 0 {
            assert_eq!(seen, Some((b"meta one".as_slice(), b"body one".as_slice())));
        } else if done == steps.len() {
            assert_eq!(seen, Some((b"meta two".as_slice(), b"body two".as_slice())));
        } else {
            assert_eq!(seen, None);
        }
    }
}

#[test]
fn names_are_digests() {
    let name = variant_hash(&policy(&[("accept", "text/html")], "Accept"));
    for name in [name, key_hash(&key())] {
        assert_eq!(name.len(), 64);
        assert!(name.bytes().all(|b| b.is_ascii_digit() || (b'a'..=b'f').contains(&b)));
    }
}

#[test]
fn refreshing_replaces_metadata_and_keeps_the_body() {
    let names = put_names(&key(), &policy(&[], "Accept"), 0);
    let mut files = BTreeMap::new();
    files.insert(names.body_tmp.clone(), b"body".to_vec());
    carry_out(&mut files, &commit_steps(&names), b"old");
    let steps = refresh_steps(&names.meta_final, 1);
    assert_eq!(steps.len(), 2);
    carry_out(&mut files, &steps[..1], b"new");
    assert_eq!(files[&names.meta_final], b"old");
    carry_out(&mut files, &steps[1..], b"new");
    assert_eq!(files[&names.meta_final], b"new");
    assert_eq!(files[&names.body_final], b"body");
    assert_eq!(files.len(), 2);
}

#[test]
fn policies_survive_being_written_out_by_their_parts() {
    let mut request = Headers::new();
    request.insert("accept", "text/html");
    let mut response = Headers::new();
    response.insert("cache-control", "max-age=60, private");
    response.insert("vary", "Accept");
    response.insert("age", "7");
    let policy = CachePolicy::new(
        Method::Head,
        &request,
        Status::new(203),
        response,
        Timestamp::new(1_700_000_000, 5),
        CacheOptions::default().with_shared(true),
    );
    let back = CachePolicy::restore(
        policy.request_method(),
        policy.vary_snapshot().clone(),
        policy.response_status(),
        policy.response_headers().clone(),
        policy.response_time(),
        policy.options(),
    );
    assert!(back.same_variant_as(&policy));
    assert_eq!(back.response_cache_control(), policy.response_cache_control());
    assert_eq!(back.targeted_cc_in_effect(), policy.targeted_cc_in_effect());
    assert_eq!(back.request_method(), Method::Head);
    assert_eq!(back.response_status(), Status::new(203));
    let now = Timestamp::new(1_700_000_030, 0);
    assert_eq!(back.age(now), policy.age(now));
    assert_eq!(back.time_to_live(now), policy.time_to_live(now));
}
