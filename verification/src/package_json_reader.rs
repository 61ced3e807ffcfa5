//! The parsed package manifest and how it is read.
//!
//! The manifest text is parsed by `serde_json`; the fields the verifier
//! consumes are then lifted into the plain [`PackageJson`] value. A manifest
//! that fails to parse is treated as an empty manifest rather than aborting
//! the run. Of the `exports` mapping only flat string values are consumed.

use vstd::prelude::*;
use vstd::string::StringExecFns;

use crate::fs_model::FileSystem;
use crate::fs_model::spec_lookup;
use crate::paths::str_eq;
use crate::value_objects::AbsolutePackageDir;

verus! {

/// Whether `serde_json` accepts this text as a JSON document. The outcome is
/// a function of the text alone.
pub uninterp spec fn is_valid_json(s: Seq<char>) -> bool;

/// The text of the named top-level string field of a JSON document, absent
/// when the text is not a JSON document, the document is not an object, the
/// field is missing or its value is not a JSON string. A function of the
/// text and key alone.
pub uninterp spec fn json_string_field_of(s: Seq<char>, key: Seq<char>) -> Option<Seq<char>>;

/// The entries of the named top-level object field of a JSON document, in
/// the map's iteration order, each value given as its text when it is a JSON
/// string and absent otherwise; the empty sequence when the text is not a
/// JSON document or the field is not an object. A function of the text and
/// key alone.
pub uninterp spec fn json_object_entries_of(s: Seq<char>, key: Seq<char>) -> Seq<
    (Seq<char>, Option<Seq<char>>),
>;

/// The views of a list of key/value text pairs.
pub open spec fn pairs_view(v: Seq<(String, String)>) -> Seq<(Seq<char>, Seq<char>)> {
    v.map_values(|e: (String, String)| (e.0@, e.1@))
}

/// The views of a list of entries whose values may be absent.
pub open spec fn opt_pairs_view(v: Seq<(String, Option<String>)>) -> Seq<
    (Seq<char>, Option<Seq<char>>),
> {
    v.map_values(
        |e: (String, Option<String>)|
            (
                e.0@,
                match e.1 {
                    Some(t) => Some(t@),
                    None => None,
                },
            ),
    )
}

/// Relies on serde_json::from_str::<Value>, Value::get and Value::as_str:
/// the named top-level string field of the document, a function of the text
/// and key alone; parsing failure is a function of the text alone and yields
/// nothing.
#[verifier::external_body]
fn json_string_field(s: &str, key: &str) -> (r: Option<String>)
    ensures
        match r {
            Some(v) => json_string_field_of(s@, key@) == Some(v@),
            None => json_string_field_of(s@, key@) is None,
        },
        !is_valid_json(s@) ==> r is None,
{
    serde_json::from_str::<serde_json::Value>(s).ok().and_then(
        |v| v.get(key).and_then(|f| f.as_str()).map(|t| t.to_owned()),
    )
}

/// Relies on serde_json::from_str::<Value>, Value::get, Value::as_object,
/// Map::iter and Value::as_str: the entries of the named top-level object
/// field, each value as its text when it is a JSON string; a function of the
/// text and key alone, and empty when the text does not parse.
#[verifier::external_body]
fn json_object_field_entries(s: &str, key: &str) -> (r: Vec<(String, Option<String>)>)
    ensures
        opt_pairs_view(r@) == json_object_entries_of(s@, key@),
        !is_valid_json(s@) ==> r@.len() == 0,
{
    serde_json::from_str::<serde_json::Value>(s).ok().and_then(
        |v|
            v.get(key).and_then(|f| f.as_object()).map(
                |m| m.iter().map(|(k, x)| (k.clone(), x.as_str().map(|t| t.to_owned()))).collect(),
            ),
    ).unwrap_or_default()
}

/// The parsed representation of the package descriptor: the optional entry
/// fields, the flat string entries of the `exports` mapping, and the
/// dependency mappings as key/value lists.
pub struct PackageJson {
    /// The `version` field.
    pub version: Option<String>,
    /// The `type` field.
    pub type_field: Option<String>,
    /// The `main` entry field.
    pub main: Option<String>,
    /// The `module` entry field.
    pub module: Option<String>,
    /// The `types` entry field.
    pub types: Option<String>,
    /// The flat string entries of the `exports` mapping; nested or
    /// conditional values are not consumed.
    pub exports: Vec<(String, String)>,
    /// The `dependencies` mapping.
    pub dependencies: Vec<(String, String)>,
    /// The `devDependencies` mapping.
    pub dev_dependencies: Vec<(String, String)>,
    /// The `peerDependencies` mapping.
    pub peer_dependencies: Vec<(String, String)>,
}

/// A manifest with every optional field absent and every mapping empty.
pub open spec fn is_empty_manifest(pj: PackageJson) -> bool {
    &&& pj.version is None
    &&& pj.type_field is None
    &&& pj.main is None
    &&& pj.module is None
    &&& pj.types is None
    &&& pj.exports@.len() == 0
    &&& pj.dependencies@.len() == 0
    &&& pj.dev_dependencies@.len() == 0
    &&& pj.peer_dependencies@.len() == 0
}

/// The entries whose values are JSON strings, in order; the others are
/// dropped.
pub open spec fn spec_string_entries(entries: Seq<(Seq<char>, Option<Seq<char>>)>) -> Seq<
    (Seq<char>, Seq<char>),
>
    decreases entries.len(),
{
    if entries.len() == 0 {
        Seq::<(Seq<char>, Seq<char>)>::empty()
    } else {
        match entries[0].1 {
            Some(v) => seq![(entries[0].0, v)] + spec_string_entries(entries.drop_first()),
            None => spec_string_entries(entries.drop_first()),
        }
    }
}

fn keep_string_entries(entries: &[(String, Option<String>)], i: usize) -> (r: Vec<(String, String)>)
    requires
        i <= entries@.len(),
    ensures
        pairs_view(r@) == spec_string_entries(opt_pairs_view(entries@).skip(i as int)),
    decreases entries@.len() - i,
{
    let n = entries.len();
    let ghost whole = opt_pairs_view(entries@);
    if i == n {
        let r: Vec<(String, String)> = Vec::new();
        proof {
            assert(whole.skip(i as int) =~= Seq::<(Seq<char>, Option<Seq<char>>)>::empty());
            assert(pairs_view(r@) =~= spec_string_entries(whole.skip(i as int)));
        }
        return r;
    }
    proof {
        assert(whole.skip(i as int)[0] == whole[i as int]);
        assert(whole.skip(i as int).drop_first() =~= whole.skip(i as int + 1));
    }
    match &entries[i].1 {
        Some(v) => {
            let head = (entries[i].0.clone(), v.clone());
            let ghost hv = (head.0@, head.1@);
            let mut rest = keep_string_entries(entries, i + 1);
            let ghost tail_pairs = rest@;
            rest.insert(0, head);
            proof {
                assert(rest@ =~= seq![(head.0, head.1)] + tail_pairs);
                assert(pairs_view(rest@) =~= seq![hv] + pairs_view(tail_pairs));
                assert(pairs_view(rest@) =~= spec_string_entries(whole.skip(i as int)));
            }
            rest
        },
        None => keep_string_entries(entries, i + 1),
    }
}

/// The key/value pairs of an object field whose values are JSON strings;
/// entries with non-string values are dropped.
fn string_entries(s: &str, key: &str) -> (r: Vec<(String, String)>)
    ensures
        pairs_view(r@) == spec_string_entries(json_object_entries_of(s@, key@)),
        !is_valid_json(s@) ==> r@.len() == 0,
{
    let raw = json_object_field_entries(s, key);
    let sl = raw.as_slice();
    proof {
        assert(opt_pairs_view(sl@) =~= opt_pairs_view(raw@));
        assert(opt_pairs_view(sl@).skip(0) =~= json_object_entries_of(s@, key@));
    }
    let r = keep_string_entries(sl, 0);
    proof {
        if !is_valid_json(s@) {
            assert(json_object_entries_of(s@, key@) =~= Seq::<
                (Seq<char>, Option<Seq<char>>),
            >::empty());
            assert(pairs_view(r@).len() == 0);
        }
    }
    r
}

/// The view of an optional text field.
pub open spec fn opt_str_view(o: Option<String>) -> Option<Seq<char>> {
    match o {
        Some(v) => Some(v@),
        None => None,
    }
}

/// Every consumed field of the manifest value equals the parse of the
/// manifest text: the optional string fields, and the string entries of the
/// `exports` mapping and of the three dependency mappings.
pub open spec fn spec_manifest_matches(pj: PackageJson, s: Seq<char>) -> bool {
    &&& opt_str_view(pj.version) == json_string_field_of(s, "version"@)
    &&& opt_str_view(pj.type_field) == json_string_field_of(s, "type"@)
    &&& opt_str_view(pj.main) == json_string_field_of(s, "main"@)
    &&& opt_str_view(pj.module) == json_string_field_of(s, "module"@)
    &&& opt_str_view(pj.types) == json_string_field_of(s, "types"@)
    &&& pairs_view(pj.exports@) == spec_string_entries(json_object_entries_of(s, "exports"@))
    &&& pairs_view(pj.dependencies@) == spec_string_entries(
        json_object_entries_of(s, "dependencies"@),
    )
    &&& pairs_view(pj.dev_dependencies@) == spec_string_entries(
        json_object_entries_of(s, "devDependencies"@),
    )
    &&& pairs_view(pj.peer_dependencies@) == spec_string_entries(
        json_object_entries_of(s, "peerDependencies"@),
    )
}

/// Parses manifest text: each consumed field is the named parse result of
/// the text. Text that is not a JSON document yields the empty manifest: a
/// malformed manifest never aborts the run.
pub fn get_package_json_object(package_json_content: &str) -> (r: PackageJson)
    ensures
        spec_manifest_matches(r, package_json_content@),
        !is_valid_json(package_json_content@) ==> is_empty_manifest(r),
{
    let r = PackageJson {
        version: json_string_field(package_json_content, "version"),
        type_field: json_string_field(package_json_content, "type"),
        main: json_string_field(package_json_content, "main"),
        module: json_string_field(package_json_content, "module"),
        types: json_string_field(package_json_content, "types"),
        exports: string_entries(package_json_content, "exports"),
        dependencies: string_entries(package_json_content, "dependencies"),
        dev_dependencies: string_entries(package_json_content, "devDependencies"),
        peer_dependencies: string_entries(package_json_content, "peerDependencies"),
    };
    proof {
        assert(pairs_view(r.exports@).len() == r.exports@.len());
        assert(pairs_view(r.dependencies@).len() == r.dependencies@.len());
        assert(pairs_view(r.dev_dependencies@).len() == r.dev_dependencies@.len());
        assert(pairs_view(r.peer_dependencies@).len() == r.peer_dependencies@.len());
    }
    r
}

/// The manifest text the snapshot holds at a path: the file's content, or
/// the empty text when the snapshot holds none.
pub open spec fn spec_manifest_text(files: Seq<(String, String)>, path: Seq<char>) -> Seq<char> {
    match spec_lookup(files, path) {
        Some(c) => c,
        None => Seq::<char>::empty(),
    }
}

/// The manifest text of the package: the content of `package.json` under the
/// package directory, or the empty string when the snapshot holds none.
pub fn get_package_json_string(fs: &FileSystem, package_dir: &AbsolutePackageDir) -> (r: String)
    ensures
        ({
            let path = package_dir.spec_value() + "/package.json"@;
            match spec_lookup(fs.files@, path) {
                Some(c) => r@ == c,
                None => r@.len() == 0,
            }
        }),
{
    let path = package_dir.value().clone().concat("/package.json");
    match fs.read_file(path.as_str()) {
        Some(c) => c,
        None => String::new(),
    }
}

/// The manifest text at an explicit file path, or the empty string when the
/// snapshot holds none.
pub fn get_package_json_string_by_file_path(fs: &FileSystem, package_json_path: &str) -> (r:
    String)
    ensures
        match spec_lookup(fs.files@, package_json_path@) {
            Some(c) => r@ == c,
            None => r@.len() == 0,
        },
{
    match fs.read_file(package_json_path) {
        Some(c) => c,
        None => String::new(),
    }
}

/// The parsed manifest of the package directory.
pub fn get_package_json(fs: &FileSystem, package_dir: &AbsolutePackageDir) -> (r: PackageJson)
    ensures
        spec_manifest_matches(
            r,
            spec_manifest_text(fs.files@, package_dir.spec_value() + "/package.json"@),
        ),
{
    let content = get_package_json_string(fs, package_dir);
    proof {
        let path = package_dir.spec_value() + "/package.json"@;
        if spec_lookup(fs.files@, path) is None {
            assert(content@ =~= Seq::<char>::empty());
        }
        assert(content@ == spec_manifest_text(fs.files@, path));
    }
    get_package_json_object(content.as_str())
}

/// The parsed manifest at an explicit file path.
pub fn get_package_json_by_file_path(fs: &FileSystem, package_json_path: &str) -> (r: PackageJson)
    ensures
        spec_manifest_matches(r, spec_manifest_text(fs.files@, package_json_path@)),
{
    let content = get_package_json_string_by_file_path(fs, package_json_path);
    proof {
        if spec_lookup(fs.files@, package_json_path@) is None {
            assert(content@ =~= Seq::<char>::empty());
        }
        assert(content@ == spec_manifest_text(fs.files@, package_json_path@));
    }
    get_package_json_object(content.as_str())
}

/// Whether some element of `v` has view `x`.
pub open spec fn seq_contains_str(v: Seq<String>, x: Seq<char>) -> bool {
    exists|k: int| 0 <= k < v.len() && (#[trigger] v[k])@ == x
}

/// Whether `s` names an entry point of the manifest: the value of `main`,
/// `module` or `types`, or a value of the `exports` mapping.
pub open spec fn spec_is_entry_point(pj: PackageJson, s: Seq<char>) -> bool {
    ||| (pj.main matches Some(m) && m@ == s)
    ||| (pj.module matches Some(m) && m@ == s)
    ||| (pj.types matches Some(m) && m@ == s)
    ||| exists|k: int| 0 <= k < pj.exports@.len() && (#[trigger] pj.exports@[k]).1@ == s
}

pub fn contains_str(v: &Vec<String>, s: &str) -> (r: bool)
    ensures
        r == seq_contains_str(v@, s@),
{
    let n = v.len();
    let mut i: usize = 0;
    while i < n
        invariant
            0 <= i <= n,
            n == v@.len(),
            forall|k: int| 0 <= k < i ==> (#[trigger] v@[k])@ != s@,
        decreases n - i,
    {
        if str_eq(v[i].as_str(), s) {
            return true;
        }
        i += 1;
    }
    false
}

pub fn push_unique(out: &mut Vec<String>, s: String)
    ensures
        forall|x: Seq<char>|
            #![trigger seq_contains_str(final(out)@, x)]
            seq_contains_str(final(out)@, x) <==> (seq_contains_str(old(out)@, x) || x == s@),
        (forall|i: int, j: int| 0 <= i < j < old(out)@.len() ==> old(out)@[i]@ != old(out)@[j]@)
            ==> (forall|i: int, j: int|
            0 <= i < j < final(out)@.len() ==> final(out)@[i]@ != final(out)@[j]@),
{
    let present = contains_str(out, s.as_str());
    if !present {
        let ghost old_out = out@;
        out.push(s);
        proof {
            assert forall|x: Seq<char>|
                #![trigger seq_contains_str(final(out)@, x)]
                seq_contains_str(out@, x) <==> (seq_contains_str(old_out, x) || x == s@) by {
                if seq_contains_str(out@, x) {
                    let k = choose|k: int| 0 <= k < out@.len() && (#[trigger] out@[k])@ == x;
                    if k < old_out.len() {
                        assert(old_out[k]@ == x);
                        assert(seq_contains_str(old_out, x));
                    }
                }
                if seq_contains_str(old_out, x) {
                    let k = choose|k: int| 0 <= k < old_out.len() && (#[trigger] old_out[k])@ == x;
                    assert(out@[k]@ == x);
                    assert(seq_contains_str(out@, x));
                }
                if x == s@ {
                    assert(out@[out@.len() - 1]@ == x);
                    assert(seq_contains_str(out@, x));
                }
            }
            assert forall|i: int, j: int| 0 <= i < j < out@.len() && (forall|i2: int, j2: int|
                0 <= i2 < j2 < old_out.len() ==> old_out[i2]@ != old_out[j2]@) implies out@[i]@
                != out@[j]@ by {
                if j < old_out.len() {
                } else {
                    assert(out@[j]@ == s@);
                    assert(out@[i] == old_out[i]);
                    assert(!seq_contains_str(old_out, s@));
                    assert(old_out[i]@ != s@);
                }
            }
        }
    } else {
        proof {
            assert forall|x: Seq<char>|
                #![trigger seq_contains_str(final(out)@, x)]
                seq_contains_str(out@, x) <==> (seq_contains_str(old(out)@, x) || x == s@) by {
                if x == s@ {
                    assert(seq_contains_str(out@, x));
                }
            }
        }
    }
}

/// The set of entry-point files the manifest names: the values of `main`,
/// `module` and `types`, and every flat string value of `exports`,
/// deduplicated.
pub fn get_package_json_entry_points(package_json: &PackageJson) -> (r: Vec<String>)
    ensures
        forall|x: Seq<char>|
            #![trigger seq_contains_str(r@, x)]
            seq_contains_str(r@, x) <==> spec_is_entry_point(*package_json, x),
        forall|i: int, j: int| 0 <= i < j < r@.len() ==> r@[i]@ != r@[j]@,
{
    let mut out: Vec<String> = Vec::new();
    match &package_json.main {
        Some(m) => push_unique(&mut out, m.clone()),
        None => (),
    }
    match &package_json.module {
        Some(m) => push_unique(&mut out, m.clone()),
        None => (),
    }
    match &package_json.types {
        Some(m) => push_unique(&mut out, m.clone()),
        None => (),
    }
    let n = package_json.exports.len();
    let mut i: usize = 0;
    while i < n
        invariant
            0 <= i <= n,
            n == package_json.exports@.len(),
            forall|i2: int, j2: int| 0 <= i2 < j2 < out@.len() ==> out@[i2]@ != out@[j2]@,
            forall|x: Seq<char>|
                #![trigger seq_contains_str(out@, x)]
                seq_contains_str(out@, x) <==> {
                    ||| (package_json.main matches Some(m) && m@ == x)
                    ||| (package_json.module matches Some(m) && m@ == x)
                    ||| (package_json.types matches Some(m) && m@ == x)
                    ||| exists|k: int|
                        0 <= k < i && (#[trigger] package_json.exports@[k]).1@ == x
                },
        decreases n - i,
    {
        push_unique(&mut out, package_json.exports[i].1.clone());
        i += 1;
    }
    out
}

/// Whether the manifest's `dependencies` mapping declares `root`.
pub open spec fn spec_has_dependency(pj: PackageJson, root: Seq<char>) -> bool {
    exists|k: int| 0 <= k < pj.dependencies@.len() && (#[trigger] pj.dependencies@[k]).0@ == root
}

/// Whether `dependencies` declares the given package root.
pub fn has_dependency(package_json: &PackageJson, root: &str) -> (r: bool)
    ensures
        r == spec_has_dependency(*package_json, root@),
{
    let n = package_json.dependencies.len();
    let mut i: usize = 0;
    while i < n
        invariant
            0 <= i <= n,
            n == package_json.dependencies@.len(),
            forall|k: int|
                0 <= k < i ==> (#[trigger] package_json.dependencies@[k]).0@ != root@,
        decreases n - i,
    {
        if str_eq(package_json.dependencies[i].0.as_str(), root) {
            return true;
        }
        i += 1;
    }
    false
}

/// The first value in a key/value list whose key equals `key`.
pub open spec fn spec_assoc(entries: Seq<(String, String)>, key: Seq<char>) -> Option<Seq<char>>
    decreases entries.len(),
{
    if entries.len() == 0 {
        None
    } else if entries[0].0@ == key {
        Some(entries[0].1@)
    } else {
        spec_assoc(entries.drop_first(), key)
    }
}

/// Looks `key` up in a key/value list; the first match wins.
pub fn assoc_lookup(entries: &Vec<(String, String)>, key: &str) -> (r: Option<String>)
    ensures
        match r {
            Some(v) => spec_assoc(entries@, key@) == Some(v@),
            None => spec_assoc(entries@, key@) is None,
        },
{
    let n = entries.len();
    let mut i: usize = 0;
    proof {
        assert(entries@.skip(0) =~= entries@);
    }
    while i < n
        invariant
            0 <= i <= n,
            n == entries@.len(),
            spec_assoc(entries@, key@) == spec_assoc(entries@.skip(i as int), key@),
        decreases n - i,
    {
        proof {
            assert(entries@.skip(i as int)[0] == entries@[i as int]);
            assert(entries@.skip(i as int).drop_first() =~= entries@.skip(i as int + 1));
        }
        if str_eq(entries[i].0.as_str(), key) {
            return Some(entries[i].1.clone());
        }
        i += 1;
    }
    proof {
        assert(entries@.skip(n as int) =~= Seq::<(String, String)>::empty());
    }
    None
}

} // verus!
