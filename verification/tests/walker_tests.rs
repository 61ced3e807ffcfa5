use zoboz_bam::fs_model::FileSystem;
use zoboz_bam::resolver::build_manifest_table;
use zoboz_bam::resolver::ModuleResolver;
use zoboz_bam::value_objects::AbsoluteOutputDir;
use zoboz_bam::value_objects::AbsolutePackageDir;
use zoboz_bam::value_objects::AbsoluteSourceDir;
use zoboz_bam::walker::walk;

fn fs_of(files: &[(&str, &str)]) -> FileSystem {
    FileSystem {
        files: files
            .iter()
            .map(|(p, c)| (p.to_string(), c.to_string()))
            .collect(),
    }
}

fn resolver() -> ModuleResolver {
    let pkg = AbsolutePackageDir::new("/pkg".to_string()).unwrap();
    let src = AbsoluteSourceDir::new("/pkg/src".to_string()).unwrap();
    let out = AbsoluteOutputDir::new("/pkg/dist".to_string()).unwrap();
    ModuleResolver::new(&pkg, &src, &out)
}

#[test]
fn cycle_of_relative_imports_is_walked_once_and_terminates() {
    let fs = fs_of(&[
        ("/pkg/dist/a.js", "require('./b');"),
        ("/pkg/dist/b.js", "require('./a');"),
    ]);
    let table = build_manifest_table(&fs);
    let entries = vec!["/pkg/dist/a.js".to_string()];
    let (_closure, visited) = walk(&resolver(), &fs, &table, &entries, "/pkg/dist");
    let mut sorted = visited.clone();
    sorted.sort();
    assert_eq!(
        sorted,
        vec!["/pkg/dist/a.js".to_string(), "/pkg/dist/b.js".to_string()]
    );
    // each file is scanned exactly once
    assert_eq!(visited.len(), 2);
}

#[test]
fn resolved_relative_import_outside_the_boundary_is_not_traversed() {
    let fs = fs_of(&[
        ("/pkg/dist/a.js", "require('../lib/outside');"),
        ("/pkg/lib/outside.js", "require('left-pad');"),
    ]);
    let table = build_manifest_table(&fs);
    let entries = vec!["/pkg/dist/a.js".to_string()];
    let (closure, visited) = walk(&resolver(), &fs, &table, &entries, "/pkg/dist");
    assert_eq!(visited, vec!["/pkg/dist/a.js".to_string()]);
    assert_eq!(
        closure.resolved_relative_specifiers,
        vec!["../lib/outside".to_string()]
    );
    // the bare specifier of the file outside the boundary was never seen
    assert!(closure.resolved_absolute_specifiers.is_empty());
    assert!(closure.unresolved_absolute_specifiers.is_empty());
}

#[test]
fn bare_specifiers_are_split_by_resolution_and_reduced_to_roots() {
    let fs = fs_of(&[
        (
            "/pkg/dist/a.js",
            "require('lodash/fp'); require('chalk'); require('./gone');",
        ),
        ("/pkg/node_modules/lodash/package.json", "{\"main\": \"fp.js\"}"),
        ("/pkg/node_modules/lodash/fp.js", "x"),
    ]);
    let table = build_manifest_table(&fs);
    let entries = vec!["/pkg/dist/a.js".to_string()];
    let (closure, _visited) = walk(&resolver(), &fs, &table, &entries, "/pkg/dist");
    assert_eq!(closure.resolved_absolute_specifiers, vec!["lodash".to_string()]);
    assert_eq!(closure.unresolved_absolute_specifiers, vec!["chalk".to_string()]);
    assert_eq!(closure.unresolved_relative_specifiers, vec!["./gone".to_string()]);
}

#[test]
fn repeated_specifiers_are_deduplicated() {
    let fs = fs_of(&[
        ("/pkg/dist/a.js", "require('chalk'); require('./b');"),
        ("/pkg/dist/b.js", "require('chalk');"),
    ]);
    let table = build_manifest_table(&fs);
    let entries = vec!["/pkg/dist/a.js".to_string()];
    let (closure, visited) = walk(&resolver(), &fs, &table, &entries, "/pkg/dist");
    assert_eq!(visited.len(), 2);
    assert_eq!(closure.unresolved_absolute_specifiers, vec!["chalk".to_string()]);
}

#[test]
fn file_reachable_on_two_paths_is_scanned_once() {
    let fs = fs_of(&[
        ("/pkg/dist/a.js", "require('./b'); require('./c');"),
        ("/pkg/dist/b.js", "require('./d');"),
        ("/pkg/dist/c.js", "require('./d');"),
        ("/pkg/dist/d.js", "require('chalk');"),
    ]);
    let table = build_manifest_table(&fs);
    let entries = vec!["/pkg/dist/a.js".to_string()];
    let (closure, visited) = walk(&resolver(), &fs, &table, &entries, "/pkg/dist");
    assert_eq!(visited.len(), 4);
    assert_eq!(closure.unresolved_absolute_specifiers, vec!["chalk".to_string()]);
}
