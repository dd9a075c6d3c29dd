use vstd::prelude::*;

use super::error::PluginError;
use super::installer::verify_blob;
use super::manifest::PluginManifest;
use crate::order::{lex_le, sort_by_name, sorted_by_name};
use crate::security::mac::hmac_sha256;
use crate::text::{chars_of, concat_str, ends_with, join_path, join_path_spec, push_str, string_from_chars, vec_ends_with};

verus! {

/// A plugin found in the plugins directory.
pub struct DiscoveredPlugin {
    pub name: String,
    pub manifest: PluginManifest,
    pub wasm_bytes: Vec<u8>,
    pub path: String,
}

/// `.manifest.yml`
pub open spec fn manifest_suffix() -> Seq<char> {
    seq!['.', 'm', 'a', 'n', 'i', 'f', 'e', 's', 't', '.', 'y', 'm', 'l']
}

/// The plugin name of a manifest file name `<name>.manifest.yml`.
pub open spec fn manifest_name_of(file_name: Seq<char>) -> Option<Seq<char>> {
    if ends_with(file_name, manifest_suffix()) {
        Some(file_name.subrange(0, file_name.len() - manifest_suffix().len()))
    } else {
        None
    }
}

fn manifest_suffix_vec() -> (v: Vec<char>)
    ensures
        v@ == manifest_suffix(),
{
    let v = vec!['.', 'm', 'a', 'n', 'i', 'f', 'e', 's', 't', '.', 'y', 'm', 'l'];
    assert(v@ =~= manifest_suffix());
    v
}

/// The plugin name in a manifest file name, if it is one.
pub fn extract_manifest_name(file_name: &str) -> (r: Option<String>)
    ensures
        match r {
            Some(n) => manifest_name_of(file_name@) == Some(n@),
            None => manifest_name_of(file_name@) is None,
        },
{
    let cs = chars_of(file_name);
    let suffix = manifest_suffix_vec();
    if !vec_ends_with(&cs, &suffix) {
        return None;
    }
    let n = cs.len() - suffix.len();
    let mut name: Vec<char> = Vec::new();
    let mut i: usize = 0;
    while i < n
        invariant
            n == cs@.len() - suffix@.len(),
            cs@ == file_name@,
            i <= n,
            name@ == cs@.subrange(0, i as int),
        decreases n - i,
    {
        name.push(cs[i]);
        i = i + 1;
        assert(name@ =~= cs@.subrange(0, i as int));
    }
    Some(string_from_chars(&name))
}

/// The texts of a list of strings.
pub open spec fn string_views(s: Seq<String>) -> Seq<Seq<char>> {
    s.map_values(|x: String| x@)
}

/// The names are strictly increasing (so sorted and without repeats).
pub open spec fn strictly_sorted(s: Seq<Seq<char>>) -> bool {
    forall|i: int, j: int| 0 <= i < j < s.len() ==> lex_le(s[i], s[j]) && s[i] != s[j]
}

/// Some entry of the list has name `n`.
pub open spec fn has_name<T>(s: Seq<(String, T)>, n: Seq<char>) -> bool {
    exists|k: int| 0 <= k < s.len() && (#[trigger] s[k]).0@ == n
}

/// One of the first `upto` file names is the manifest of plugin `n`.
pub open spec fn names_manifest(files: Seq<String>, upto: int, n: Seq<char>) -> bool {
    exists|j: int| 0 <= j < upto && manifest_name_of((#[trigger] files[j])@) == Some(n)
}

/// The plugin names named by the manifest files among `file_names`, sorted
/// and each once: a name is listed exactly when some file is its manifest.
pub fn manifest_names(file_names: &Vec<String>) -> (out: Vec<String>)
    ensures
        strictly_sorted(string_views(out@)),
        forall|n: Seq<char>| #[trigger] string_views(out@).contains(n) <==> names_manifest(
            file_names@,
            file_names@.len() as int,
            n,
        ),
{
    let mut found: Vec<(String, ())> = Vec::new();
    let mut i: usize = 0;
    while i < file_names.len()
        invariant
            i <= file_names@.len(),
            forall|n: Seq<char>| #[trigger] has_name(found@, n) <==> names_manifest(file_names@, i as int, n),
        decreases file_names@.len() - i,
    {
        let ghost f0 = found@;
        match extract_manifest_name(file_names[i].as_str()) {
            Some(n) => {
                found.push((n, ()));
                proof {
                    assert forall|m: Seq<char>| #[trigger] has_name(found@, m) <==> names_manifest(file_names@, i + 1, m) by {
                        assert(has_name(f0, m) == names_manifest(file_names@, i as int, m));
                        if has_name(found@, m) {
                            let k = choose|k: int| 0 <= k < found@.len() && (#[trigger] found@[k]).0@ == m;
                            if k < f0.len() {
                                assert(f0[k] == found@[k]);
                                assert(has_name(f0, m));
                            } else {
                                assert(manifest_name_of(file_names@[i as int]@) == Some(m));
                            }
                        }
                        if names_manifest(file_names@, i + 1, m) {
                            let j = choose|j: int| 0 <= j < i + 1 && manifest_name_of((#[trigger] file_names@[j])@) == Some(m);
                            if j < i {
                                assert(names_manifest(file_names@, i as int, m));
                                let k = choose|k: int| 0 <= k < f0.len() && (#[trigger] f0[k]).0@ == m;
                                assert(found@[k] == f0[k]);
                            } else {
                                assert(found@[f0.len() as int].0@ == m);
                            }
                        }
                    }
                }
            },
            None => {
                proof {
                    assert forall|m: Seq<char>| #[trigger] has_name(found@, m) <==> names_manifest(file_names@, i + 1, m) by {
                        assert(has_name(f0, m) == names_manifest(file_names@, i as int, m));
                        if names_manifest(file_names@, i + 1, m) {
                            let j = choose|j: int| 0 <= j < i + 1 && manifest_name_of((#[trigger] file_names@[j])@) == Some(m);
                            assert(j != i);
                            assert(names_manifest(file_names@, i as int, m));
                        }
                    }
                }
            },
        }
        i = i + 1;
    }
    let sorted = sort_by_name(found);
    proof {
        found@.to_multiset_ensures();
        sorted@.to_multiset_ensures();
        assert forall|n: Seq<char>| #[trigger] has_name(sorted@, n) <==> has_name(found@, n) by {
            if has_name(sorted@, n) {
                let k = choose|k: int| 0 <= k < sorted@.len() && (#[trigger] sorted@[k]).0@ == n;
                assert(sorted@.contains(sorted@[k]));
                assert(sorted@.to_multiset().count(sorted@[k]) > 0);
                assert(found@.to_multiset().count(sorted@[k]) > 0);
                assert(found@.contains(sorted@[k]));
                let k2 = choose|k2: int| 0 <= k2 < found@.len() && found@[k2] == sorted@[k];
                assert(found@[k2].0@ == n);
            }
            if has_name(found@, n) {
                let k = choose|k: int| 0 <= k < found@.len() && (#[trigger] found@[k]).0@ == n;
                assert(found@.contains(found@[k]));
                assert(found@.to_multiset().count(found@[k]) > 0);
                assert(sorted@.to_multiset().count(found@[k]) > 0);
                assert(sorted@.contains(found@[k]));
                let k2 = choose|k2: int| 0 <= k2 < sorted@.len() && sorted@[k2] == found@[k];
                assert(sorted@[k2].0@ == n);
            }
        }
    }
    // drop repeats: equal names stand next to each other once sorted
    let mut out: Vec<String> = Vec::new();
    let mut last: Vec<char> = Vec::new();
    let mut j: usize = 0;
    while j < sorted.len()
        invariant
            j <= sorted@.len(),
            sorted_by_name(sorted@),
            strictly_sorted(string_views(out@)),
            out@.len() > 0 ==> j > 0 && last@ == string_views(out@).last() && sorted@[j - 1].0@ == last@,
            out@.len() == 0 ==> j == 0,
            forall|n: Seq<char>| #[trigger] string_views(out@).contains(n) <==> has_name(sorted@.subrange(0, j as int), n),
        decreases sorted@.len() - j,
    {
        let name = chars_of(sorted[j].0.as_str());
        let ghost o0 = string_views(out@);
        let ghost pre = sorted@.subrange(0, j as int);
        let ghost pre1 = sorted@.subrange(0, j + 1);
        let repeat = out.len() > 0 && same_chars(&name, &last);
        if !repeat {
            let s = string_from_chars(&name);
            proof {
                if o0.len() > 0 {
                    assert forall|a: int| 0 <= a < o0.len() implies lex_le(o0[a], name@) && o0[a] != name@ by {
                        assert(o0.contains(o0[a]));
                        assert(has_name(pre, o0[a]));
                        let k = choose|k: int| 0 <= k < pre.len() && (#[trigger] pre[k]).0@ == o0[a];
                        assert(pre[k] == sorted@[k]);
                        assert(lex_le(sorted@[k].0@, sorted@[j as int].0@));
                        if o0[a] == name@ {
                            if k < j - 1 {
                                assert(lex_le(sorted@[k].0@, sorted@[j - 1].0@));
                            }
                            assert(lex_le(name@, last@));
                            assert(lex_le(last@, name@));
                            crate::order::lemma_lex_antisymmetric(name@, last@);
                        }
                    }
                }
            }
            out.push(s);
            last = name;
            proof {
                let o1 = string_views(out@);
                assert(o1 =~= o0.push(last@));
                assert forall|n: Seq<char>| #[trigger] o1.contains(n) <==> has_name(pre1, n) by {
                    if o1.contains(n) {
                        let a = choose|a: int| 0 <= a < o1.len() && o1[a] == n;
                        if a < o0.len() {
                            assert(o0.contains(n));
                            let k = choose|k: int| 0 <= k < pre.len() && (#[trigger] pre[k]).0@ == n;
                            assert(pre1[k] == pre[k]);
                        } else {
                            assert(pre1[j as int].0@ == n);
                        }
                    }
                    if has_name(pre1, n) {
                        let k = choose|k: int| 0 <= k < pre1.len() && (#[trigger] pre1[k]).0@ == n;
                        if k == j {
                            assert(o1[o1.len() - 1] == n);
                        } else {
                            assert(pre[k] == pre1[k]);
                            assert(has_name(pre, n));
                            assert(o0.contains(n));
                            let a = choose|a: int| 0 <= a < o0.len() && o0[a] == n;
                            assert(o1[a] == n);
                        }
                    }
                }
            }
        } else {
            proof {
                assert forall|n: Seq<char>| #[trigger] o0.contains(n) <==> has_name(pre1, n) by {
                    if o0.contains(n) {
                        let k = choose|k: int| 0 <= k < pre.len() && (#[trigger] pre[k]).0@ == n;
                        assert(pre1[k] == pre[k]);
                    }
                    if has_name(pre1, n) {
                        let k = choose|k: int| 0 <= k < pre1.len() && (#[trigger] pre1[k]).0@ == n;
                        if k == j {
                            assert(o0[o0.len() - 1] == n);
                        } else {
                            assert(pre[k] == pre1[k]);
                            assert(has_name(pre, n));
                        }
                    }
                }
            }
        }
        j = j + 1;
    }
    proof {
        assert(sorted@.subrange(0, j as int) =~= sorted@);
    }
    out
}

fn same_chars(a: &Vec<char>, b: &Vec<char>) -> (r: bool)
    ensures
        r == (a@ == b@),
{
    if a.len() != b.len() {
        return false;
    }
    let mut i: usize = 0;
    while i < a.len()
        invariant
            a@.len() == b@.len(),
            i <= a@.len(),
            forall|k: int| 0 <= k < i ==> a@[k] == b@[k],
        decreases a@.len() - i,
    {
        if a[i] != b[i] {
            return false;
        }
        i = i + 1;
    }
    assert(a@ =~= b@);
    true
}

/// The path of a plugin's file `<dir>/<name><suffix>` (suffix `.wasm`,
/// `.manifest.yml` or `.sig`).
pub fn plugin_file(dir: &str, name: &str, suffix: &str) -> (p: String)
    ensures
        p@ == join_path_spec(dir@, name@ + suffix@),
{
    let file = concat_str(name, suffix);
    join_path(dir, file.as_str())
}

/// Checks a plugin's signature when a signing key is configured: with a key,
/// the blob must carry the HMAC-SHA256 tag under it, else the plugin is
/// refused with "signature verification failed for <name>".
pub fn check_signature(name: &str, wasm: &[u8], signature: &[u8], key: Option<&[u8]>) -> (r: Result<(), PluginError>)
    ensures
        match key {
            None => r is Ok,
            Some(k) => if signature@ == hmac_sha256(k@, wasm@) {
                r is Ok
            } else {
                r matches Err(PluginError::InvalidOutput(m)) && m@ == "signature verification failed for "@ + name@
            },
        },
{
    match key {
        None => Ok(()),
        Some(k) => {
            if verify_blob(wasm, signature, k) {
                Ok(())
            } else {
                let mut m = String::new();
                push_str(&mut m, "signature verification failed for ");
                push_str(&mut m, name);
                Err(PluginError::InvalidOutput(m))
            }
        },
    }
}

/// Orders installed plugins by name.
pub fn sort_installed(items: Vec<(String, PluginManifest)>) -> (out: Vec<(String, PluginManifest)>)
    ensures
        sorted_by_name(out@),
        out@.to_multiset() == items@.to_multiset(),
{
    sort_by_name(items)
}

} // verus!
