//! Reconciles the bare specifiers a walk discovered with the manifest's
//! declared dependencies. Every finding is advisory only: declaring a
//! dependency needs a human decision about its version range, so the emitted
//! change sets carry no automatic edits.

use vstd::prelude::*;
use vstd::string::StringExecFns;

use crate::package_json_reader::PackageJson;
use crate::package_json_reader::has_dependency;
use crate::package_json_reader::spec_has_dependency;
use crate::json_editor::ChangeSet;

verus! {

/// The finding text for a package used at runtime but not declared.
pub open spec fn spec_missing_dependency_description(root: Seq<char>) -> Seq<char> {
    "Package \""@ + root + "\" is used at runtime but is not declared in dependencies"@
}

/// The finding text for a runtime import that could not be resolved.
pub open spec fn spec_unresolved_import_description(root: Seq<char>) -> Seq<char> {
    "Package \""@ + root + "\" is used at runtime but cannot be resolved"@
}

/// The roots among `roots`, from index `i` on, that the manifest does not
/// declare in `dependencies`.
pub open spec fn spec_missing_from(roots: Seq<String>, i: int, pj: PackageJson) -> Seq<Seq<char>>
    decreases roots.len() - i,
{
    if i < 0 || i >= roots.len() {
        Seq::<Seq<char>>::empty()
    } else if !spec_has_dependency(pj, roots[i]@) {
        seq![roots[i]@] + spec_missing_from(roots, i + 1, pj)
    } else {
        spec_missing_from(roots, i + 1, pj)
    }
}

fn missing_dependency_description(root: &str) -> (r: String)
    ensures
        r@ == spec_missing_dependency_description(root@),
{
    String::from_str("Package \"").concat(root).concat(
        "\" is used at runtime but is not declared in dependencies",
    )
}

fn unresolved_import_description(root: &str) -> (r: String)
    ensures
        r@ == spec_unresolved_import_description(root@),
{
    String::from_str("Package \"").concat(root).concat(
        "\" is used at runtime but cannot be resolved",
    )
}

fn assure_declared(
    roots: &Vec<String>,
    i: usize,
    package_json: &PackageJson,
    change_sets: &mut Vec<ChangeSet>,
)
    requires
        i <= roots@.len(),
    ensures
        final(change_sets)@.len() == old(change_sets)@.len() + spec_missing_from(
            roots@,
            i as int,
            *package_json,
        ).len(),
        forall|k: int|
            0 <= k < old(change_sets)@.len() ==> final(change_sets)@[k] == old(change_sets)@[k],
        forall|j: int|
            0 <= j < spec_missing_from(roots@, i as int, *package_json).len() ==> {
                let cs = #[trigger] final(change_sets)@[old(change_sets)@.len() + j];
                cs.description@ == spec_missing_dependency_description(
                    spec_missing_from(roots@, i as int, *package_json)[j],
                ) && cs.changes@.len() == 0
            },
    decreases roots@.len() - i,
{
    if i == roots.len() {
        return ;
    }
    let ghost before = change_sets@;
    if !has_dependency(package_json, roots[i].as_str()) {
        let desc = missing_dependency_description(roots[i].as_str());
        let ghost dv = desc@;
        change_sets.push(ChangeSet { description: desc, changes: Vec::new() });
        let ghost mid = change_sets@;
        assure_declared(roots, i + 1, package_json, change_sets);
        proof {
            let m = spec_missing_from(roots@, i as int, *package_json);
            let tail = spec_missing_from(roots@, i as int + 1, *package_json);
            assert(m =~= seq![roots@[i as int]@] + tail);
            assert(mid.len() == before.len() + 1);
            assert forall|j: int| 0 <= j < m.len() implies {
                let cs = #[trigger] change_sets@[before.len() + j];
                cs.description@ == spec_missing_dependency_description(m[j])
                    && cs.changes@.len() == 0
            } by {
                if j == 0 {
                    assert(change_sets@[before.len() as int] == mid[before.len() as int]);
                    assert(mid[before.len() as int].description@ == dv);
                } else {
                    assert(change_sets@[mid.len() + (j - 1)].description@
                        == spec_missing_dependency_description(tail[j - 1])
                        && change_sets@[mid.len() + (j - 1)].changes@.len() == 0);
                    assert(m[j] == tail[j - 1]);
                }
            }
        }
    } else {
        assure_declared(roots, i + 1, package_json, change_sets);
        proof {
            let m = spec_missing_from(roots@, i as int, *package_json);
            let tail = spec_missing_from(roots@, i as int + 1, *package_json);
            assert(m =~= tail);
            assert forall|j: int| 0 <= j < m.len() implies {
                let cs = #[trigger] change_sets@[before.len() + j];
                cs.description@ == spec_missing_dependency_description(m[j])
                    && cs.changes@.len() == 0
            } by {
                assert(change_sets@[before.len() + j].description@
                    == spec_missing_dependency_description(tail[j])
                    && change_sets@[before.len() + j].changes@.len() == 0);
            }
        }
    }
}

fn report_unresolved(roots: &Vec<String>, i: usize, change_sets: &mut Vec<ChangeSet>)
    requires
        i <= roots@.len(),
    ensures
        final(change_sets)@.len() == old(change_sets)@.len() + roots@.len() - i,
        forall|k: int|
            0 <= k < old(change_sets)@.len() ==> final(change_sets)@[k] == old(change_sets)@[k],
        forall|j: int|
            i <= j < roots@.len() ==> {
                let cs = #[trigger] final(change_sets)@[old(change_sets)@.len() + j - i];
                cs.description@ == spec_unresolved_import_description(roots@[j]@)
                    && cs.changes@.len() == 0
            },
    decreases roots@.len() - i,
{
    if i == roots.len() {
        return ;
    }
    let ghost before = change_sets@;
    let desc = unresolved_import_description(roots[i].as_str());
    let ghost dv = desc@;
    change_sets.push(ChangeSet { description: desc, changes: Vec::new() });
    let ghost mid = change_sets@;
    report_unresolved(roots, i + 1, change_sets);
    proof {
        assert(mid.len() == before.len() + 1);
        assert forall|j: int| i <= j < roots@.len() implies {
            let cs = #[trigger] change_sets@[before.len() + j - i];
            cs.description@ == spec_unresolved_import_description(roots@[j]@)
                && cs.changes@.len() == 0
        } by {
            if j == i {
                assert(change_sets@[before.len() as int] == mid[before.len() as int]);
                assert(mid[before.len() as int].description@ == dv);
            } else {
                assert(change_sets@[mid.len() + j - (i + 1)].description@
                    == spec_unresolved_import_description(roots@[j]@) && change_sets@[mid.len() + j
                    - (i + 1)].changes@.len() == 0);
            }
        }
    }
}

/// Emits one advisory change set for each resolved bare root the manifest
/// does not declare in `dependencies`, then one for each unresolved bare
/// root. Every emitted change set has an empty edit list: none is ever
/// applied automatically.
pub fn run(
    resolved_absolute_specifiers: &Vec<String>,
    unresolved_absolute_specifiers: &Vec<String>,
    package_json: &PackageJson,
    change_sets: &mut Vec<ChangeSet>,
)
    ensures
        ({
            let missing = spec_missing_from(resolved_absolute_specifiers@, 0, *package_json);
            let unresolved = unresolved_absolute_specifiers@;
            &&& final(change_sets)@.len() == old(change_sets)@.len() + missing.len()
                + unresolved.len()
            &&& forall|k: int|
                0 <= k < old(change_sets)@.len() ==> final(change_sets)@[k] == old(
                    change_sets,
                )@[k]
            &&& forall|j: int|
                0 <= j < missing.len() ==> {
                    let cs = #[trigger] final(change_sets)@[old(change_sets)@.len() + j];
                    cs.description@ == spec_missing_dependency_description(missing[j])
                        && cs.changes@.len() == 0
                }
            &&& forall|j: int|
                0 <= j < unresolved.len() ==> {
                    let cs = #[trigger] final(change_sets)@[old(change_sets)@.len()
                        + missing.len() + j];
                    cs.description@ == spec_unresolved_import_description(unresolved[j]@)
                        && cs.changes@.len() == 0
                }
        }),
{
    let ghost before = change_sets@;
    assure_declared(resolved_absolute_specifiers, 0, package_json, change_sets);
    let ghost mid = change_sets@;
    report_unresolved(unresolved_absolute_specifiers, 0, change_sets);
    proof {
        let missing = spec_missing_from(resolved_absolute_specifiers@, 0, *package_json);
        let unresolved = unresolved_absolute_specifiers@;
        assert(mid.len() == before.len() + missing.len());
        assert forall|j: int| 0 <= j < missing.len() implies {
            let cs = #[trigger] change_sets@[before.len() + j];
            cs.description@ == spec_missing_dependency_description(missing[j])
                && cs.changes@.len() == 0
        } by {
            assert(change_sets@[before.len() + j] == mid[before.len() + j]);
            assert(mid[before.len() + j].description@ == spec_missing_dependency_description(
                missing[j],
            ) && mid[before.len() + j].changes@.len() == 0);
        }
        assert forall|j: int| 0 <= j < unresolved.len() implies {
            let cs = #[trigger] change_sets@[before.len() + missing.len() + j];
            cs.description@ == spec_unresolved_import_description(unresolved[j]@)
                && cs.changes@.len() == 0
        } by {
            assert(change_sets@[mid.len() + j - 0].description@
                == spec_unresolved_import_description(unresolved[j]@) && change_sets@[mid.len() + j
                - 0].changes@.len() == 0);
        }
    }
}

} // verus!
