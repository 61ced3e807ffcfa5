use zoboz_bam::fs_model::FileSystem;
use zoboz_bam::resolver::build_manifest_table;
use zoboz_bam::resolver::ModuleResolver;
use zoboz_bam::resolver::ResolutionOutcome;
use zoboz_bam::value_objects::AbsoluteOutputDir;
use zoboz_bam::value_objects::AbsolutePackageDir;
use zoboz_bam::value_objects::AbsoluteSourceDir;

fn fs_of(files: &[(&str, &str)]) -> FileSystem {
    FileSystem {
        files: files
            .iter()
            .map(|(p, c)| (p.to_string(), c.to_string()))
            .collect(),
    }
}

fn resolver() -> ModuleResolver {
    let pkg = AbsolutePackageDir::new("/pkg".to_string()).unwrap();
    let src = AbsoluteSourceDir::new("/pkg/src".to_string()).unwrap();
    let out = AbsoluteOutputDir::new("/pkg/dist".to_string()).unwrap();
    ModuleResolver::new(&pkg, &src, &out)
}

fn resolved(outcome: ResolutionOutcome) -> String {
    match outcome {
        ResolutionOutcome::Resolved(p) => p,
        ResolutionOutcome::Unresolved(why) => panic!("unresolved: {}", why),
    }
}

fn unresolved(outcome: ResolutionOutcome) -> String {
    match outcome {
        ResolutionOutcome::Resolved(p) => panic!("resolved: {}", p),
        ResolutionOutcome::Unresolved(why) => why,
    }
}

#[test]
fn relative_literal_path_wins() {
    let fs = fs_of(&[("/pkg/dist/a", "x"), ("/pkg/dist/a.js", "x")]);
    let table = build_manifest_table(&fs);
    let r = resolver().resolve(&fs, &table, "/pkg/dist/index.js", "./a", false);
    assert_eq!(resolved(r), "/pkg/dist/a");
}

#[test]
fn extension_probing_prefers_file_over_directory_index() {
    let fs = fs_of(&[("/pkg/dist/a.js", "x"), ("/pkg/dist/a/index.js", "y")]);
    let table = build_manifest_table(&fs);
    let r = resolver().resolve(&fs, &table, "/pkg/dist/index.js", "./a", false);
    assert_eq!(resolved(r), "/pkg/dist/a.js");
}

#[test]
fn directory_index_is_the_fallback() {
    let fs = fs_of(&[("/pkg/dist/a/index.js", "y")]);
    let table = build_manifest_table(&fs);
    let r = resolver().resolve(&fs, &table, "/pkg/dist/index.js", "./a", false);
    assert_eq!(resolved(r), "/pkg/dist/a/index.js");
}

#[test]
fn parent_relative_specifiers_resolve() {
    let fs = fs_of(&[("/pkg/lib/util.js", "x")]);
    let table = build_manifest_table(&fs);
    let r = resolver().resolve(&fs, &table, "/pkg/dist/index.js", "../lib/util", false);
    assert_eq!(resolved(r), "/pkg/lib/util.js");
}

#[test]
fn missing_relative_target_reports_not_found() {
    let fs = fs_of(&[("/pkg/dist/index.js", "x")]);
    let table = build_manifest_table(&fs);
    let r = resolver().resolve(&fs, &table, "/pkg/dist/index.js", "./nope", false);
    assert_eq!(unresolved(r), "not found");
}

#[test]
fn resolving_twice_yields_the_same_outcome() {
    let fs = fs_of(&[("/pkg/dist/a.js", "x"), ("/pkg/dist/a/index.js", "y")]);
    let table = build_manifest_table(&fs);
    let resolver = resolver();
    let r1 = resolver.resolve(&fs, &table, "/pkg/dist/index.js", "./a", false);
    let r2 = resolver.resolve(&fs, &table, "/pkg/dist/index.js", "./a", false);
    assert_eq!(resolved(r1), resolved(r2));
}

#[test]
fn bare_specifier_resolves_through_installed_manifest_main() {
    let fs = fs_of(&[
        ("/pkg/node_modules/lodash/package.json", "{\"main\": \"lodash.js\"}"),
        ("/pkg/node_modules/lodash/lodash.js", "x"),
    ]);
    let table = build_manifest_table(&fs);
    let r = resolver().resolve(&fs, &table, "/pkg/dist/index.js", "lodash", false);
    assert_eq!(resolved(r), "/pkg/node_modules/lodash/lodash.js");
}

#[test]
fn bare_specifier_prefers_exact_exports_match() {
    let fs = fs_of(&[
        (
            "/pkg/node_modules/lodash/package.json",
            "{\"main\": \"lodash.js\", \"exports\": {\".\": \"./entry.js\"}}",
        ),
        ("/pkg/node_modules/lodash/lodash.js", "x"),
        ("/pkg/node_modules/lodash/entry.js", "x"),
    ]);
    let table = build_manifest_table(&fs);
    let r = resolver().resolve(&fs, &table, "/pkg/dist/index.js", "lodash", false);
    assert_eq!(resolved(r), "/pkg/node_modules/lodash/entry.js");
}

#[test]
fn bare_subpath_resolves_inside_the_package() {
    let fs = fs_of(&[
        ("/pkg/node_modules/lodash/package.json", "{\"main\": \"lodash.js\"}"),
        ("/pkg/node_modules/lodash/lodash.js", "x"),
        ("/pkg/node_modules/lodash/fp.js", "x"),
    ]);
    let table = build_manifest_table(&fs);
    let r = resolver().resolve(&fs, &table, "/pkg/dist/index.js", "lodash/fp", false);
    assert_eq!(resolved(r), "/pkg/node_modules/lodash/fp.js");
}

#[test]
fn uninstalled_package_reports_package_not_found() {
    let fs = fs_of(&[("/pkg/dist/index.js", "x")]);
    let table = build_manifest_table(&fs);
    let r = resolver().resolve(&fs, &table, "/pkg/dist/index.js", "chalk", false);
    assert_eq!(unresolved(r), "package not found");
}

#[test]
fn installed_package_without_entry_reports_entry_not_found() {
    let fs = fs_of(&[(
        "/pkg/node_modules/chalk/package.json",
        "{\"main\": \"gone.js\"}",
    )]);
    let table = build_manifest_table(&fs);
    let r = resolver().resolve(&fs, &table, "/pkg/dist/index.js", "chalk", false);
    assert_eq!(unresolved(r), "entry not found");
}

#[test]
fn types_entry_is_used_in_type_context() {
    let fs = fs_of(&[
        ("/pkg/node_modules/tl/package.json", "{\"types\": \"index.d.ts\"}"),
        ("/pkg/node_modules/tl/index.d.ts", "x"),
    ]);
    let table = build_manifest_table(&fs);
    let r = resolver().resolve(&fs, &table, "/pkg/dist/index.d.ts", "tl", true);
    assert_eq!(resolved(r), "/pkg/node_modules/tl/index.d.ts");
}
