use zoboz_bam::fs_model::FileSystem;
use zoboz_bam::package_json_reader::get_package_json_entry_points;
use zoboz_bam::package_json_reader::get_package_json_object;
use zoboz_bam::package_json_verifier::get_can_update_package_json;
use zoboz_bam::package_json_verifier::run_by_params;
use zoboz_bam::value_objects::AbsoluteOutputDir;
use zoboz_bam::value_objects::AbsolutePackageDir;
use zoboz_bam::value_objects::AbsoluteSourceDir;

fn fs_of(files: &[(&str, &str)]) -> FileSystem {
    FileSystem {
        files: files
            .iter()
            .map(|(p, c)| (p.to_string(), c.to_string()))
            .collect(),
    }
}

fn dirs() -> (AbsolutePackageDir, AbsoluteSourceDir, AbsoluteOutputDir) {
    (
        AbsolutePackageDir::new("/pkg".to_string()).unwrap(),
        AbsoluteSourceDir::new("/pkg/src".to_string()).unwrap(),
        AbsoluteOutputDir::new("/pkg/dist".to_string()).unwrap(),
    )
}

#[test]
fn undeclared_runtime_dependency_is_one_manual_finding() {
    let fs = fs_of(&[
        ("/pkg/package.json", "{\"main\": \"dist/index.js\"}"),
        ("/pkg/dist/index.js", "require(\"left-pad\")"),
        ("/pkg/node_modules/left-pad/package.json", "{\"main\": \"index.js\"}"),
        ("/pkg/node_modules/left-pad/index.js", "x"),
    ]);
    let (pkg, src, out) = dirs();
    let report = run_by_params(&fs, &pkg, &src, &out, false);
    let message = report.outcome.unwrap_err();
    assert_eq!(
        message,
        "Package \"left-pad\" is used at runtime but is not declared in dependencies"
    );
    assert_eq!(report.package_json_write, None);
}

#[test]
fn declared_runtime_dependency_yields_no_findings() {
    let fs = fs_of(&[
        (
            "/pkg/package.json",
            "{\"main\": \"dist/index.js\", \"dependencies\": {\"left-pad\": \"^1.0.0\"}}",
        ),
        ("/pkg/dist/index.js", "require(\"left-pad\")"),
        ("/pkg/node_modules/left-pad/package.json", "{\"main\": \"index.js\"}"),
        ("/pkg/node_modules/left-pad/index.js", "x"),
    ]);
    let (pkg, src, out) = dirs();
    let report = run_by_params(&fs, &pkg, &src, &out, false);
    assert_eq!(report.outcome, Ok(()));
    assert_eq!(report.package_json_write, None);
}

#[test]
fn transitive_relative_import_surfaces_only_the_bare_dependency() {
    let fs = fs_of(&[
        ("/pkg/package.json", "{\"main\": \"dist/index.js\"}"),
        ("/pkg/dist/index.js", "require(\"./helper\")"),
        ("/pkg/dist/helper.js", "require(\"chalk\")"),
        ("/pkg/node_modules/chalk/package.json", "{\"main\": \"index.js\"}"),
        ("/pkg/node_modules/chalk/index.js", "x"),
    ]);
    let (pkg, src, out) = dirs();
    let report = run_by_params(&fs, &pkg, &src, &out, false);
    let message = report.outcome.unwrap_err();
    assert_eq!(
        message,
        "Package \"chalk\" is used at runtime but is not declared in dependencies"
    );
    assert!(!message.contains("helper"));
}

#[test]
fn unresolved_runtime_import_is_reported() {
    let fs = fs_of(&[
        ("/pkg/package.json", "{\"main\": \"dist/index.js\"}"),
        ("/pkg/dist/index.js", "require(\"ghost-pkg\")"),
    ]);
    let (pkg, src, out) = dirs();
    let report = run_by_params(&fs, &pkg, &src, &out, false);
    let message = report.outcome.unwrap_err();
    assert_eq!(
        message,
        "Package \"ghost-pkg\" is used at runtime but cannot be resolved"
    );
}

#[test]
fn findings_join_as_one_line_each() {
    let fs = fs_of(&[
        ("/pkg/package.json", "{\"main\": \"dist/index.js\"}"),
        ("/pkg/dist/index.js", "require(\"left-pad\"); require(\"ghost-pkg\");"),
        ("/pkg/node_modules/left-pad/package.json", "{\"main\": \"index.js\"}"),
        ("/pkg/node_modules/left-pad/index.js", "x"),
    ]);
    let (pkg, src, out) = dirs();
    let report = run_by_params(&fs, &pkg, &src, &out, false);
    let message = report.outcome.unwrap_err();
    let lines: Vec<&str> = message.lines().collect();
    assert_eq!(lines.len(), 2);
    assert!(lines[0].contains("left-pad"));
    assert!(lines[1].contains("ghost-pkg"));
}

#[test]
fn update_permission_owes_a_manifest_write_back() {
    let manifest = "{\"main\": \"dist/index.js\"}";
    let fs = fs_of(&[
        ("/pkg/package.json", manifest),
        ("/pkg/dist/index.js", "require(\"ghost-pkg\")"),
    ]);
    let (pkg, src, out) = dirs();
    let report = run_by_params(&fs, &pkg, &src, &out, true);
    assert!(report.outcome.is_err());
    // the findings are all advisory, so the persisted text is unchanged
    assert_eq!(report.package_json_write, Some(manifest.to_string()));
}

#[test]
fn source_dir_outside_package_dir_aborts_the_run() {
    let fs = fs_of(&[]);
    let pkg = AbsolutePackageDir::new("/pkg".to_string()).unwrap();
    let src = AbsoluteSourceDir::new("/elsewhere/src".to_string()).unwrap();
    let out = AbsoluteOutputDir::new("/pkg/dist".to_string()).unwrap();
    let report = run_by_params(&fs, &pkg, &src, &out, false);
    assert_eq!(
        report.outcome,
        Err("Source directory must be inside the package directory".to_string())
    );
}

#[test]
fn output_dir_outside_package_dir_aborts_the_run() {
    let fs = fs_of(&[]);
    let pkg = AbsolutePackageDir::new("/pkg".to_string()).unwrap();
    let src = AbsoluteSourceDir::new("/pkg/src".to_string()).unwrap();
    let out = AbsoluteOutputDir::new("/elsewhere/dist".to_string()).unwrap();
    let report = run_by_params(&fs, &pkg, &src, &out, false);
    assert_eq!(
        report.outcome,
        Err("Output directory must be inside the package directory".to_string())
    );
}

#[test]
fn malformed_manifest_is_treated_as_empty() {
    let pj = get_package_json_object("this is not json");
    assert_eq!(pj.main, None);
    assert_eq!(pj.module, None);
    assert_eq!(pj.types, None);
    assert!(pj.exports.is_empty());
    assert!(pj.dependencies.is_empty());
    // a run over it succeeds with nothing to do
    let fs = fs_of(&[("/pkg/package.json", "this is not json")]);
    let (pkg, src, out) = dirs();
    let report = run_by_params(&fs, &pkg, &src, &out, false);
    assert_eq!(report.outcome, Ok(()));
}

#[test]
fn manifest_fields_parse_into_the_plain_value() {
    let pj = get_package_json_object(
        "{\"version\": \"1.2.3\", \"type\": \"module\", \"main\": \"a.js\", \"module\": \"b.js\", \
         \"types\": \"c.d.ts\", \"exports\": {\".\": \"./a.js\", \"./x\": \"./x.js\", \"./bad\": {}}, \
         \"dependencies\": {\"p\": \"1\"}, \"devDependencies\": {\"q\": \"2\"}, \
         \"peerDependencies\": {\"r\": \"3\"}}",
    );
    assert_eq!(pj.version, Some("1.2.3".to_string()));
    assert_eq!(pj.type_field, Some("module".to_string()));
    assert_eq!(pj.main, Some("a.js".to_string()));
    assert_eq!(pj.module, Some("b.js".to_string()));
    assert_eq!(pj.types, Some("c.d.ts".to_string()));
    assert_eq!(
        pj.exports,
        vec![
            (".".to_string(), "./a.js".to_string()),
            ("./x".to_string(), "./x.js".to_string())
        ]
    );
    assert_eq!(pj.dependencies, vec![("p".to_string(), "1".to_string())]);
    assert_eq!(pj.dev_dependencies, vec![("q".to_string(), "2".to_string())]);
    assert_eq!(pj.peer_dependencies, vec![("r".to_string(), "3".to_string())]);
}

#[test]
fn entry_points_come_from_all_entry_fields_deduplicated() {
    let pj = get_package_json_object(
        "{\"main\": \"a.js\", \"module\": \"b.js\", \"types\": \"a.js\", \
         \"exports\": {\".\": \"./c.js\", \"./x\": \"b.js\"}}",
    );
    let entries = get_package_json_entry_points(&pj);
    assert_eq!(
        entries,
        vec!["a.js".to_string(), "b.js".to_string(), "./c.js".to_string()]
    );
}

#[test]
fn update_flag_is_detected_among_arguments() {
    let with = vec![
        "--package-dir".to_string(),
        "/pkg".to_string(),
        "--can-update-package-json".to_string(),
    ];
    let without = vec!["--package-dir".to_string(), "/pkg".to_string()];
    assert!(get_can_update_package_json(&with));
    assert!(!get_can_update_package_json(&without));
}

#[test]
fn get_params_reads_the_three_directories_and_the_flag() {
    let args = vec![
        "--package-dir".to_string(),
        "/pkg".to_string(),
        "--source-dir".to_string(),
        "/pkg/src".to_string(),
        "--output-dir".to_string(),
        "/pkg/dist".to_string(),
        "--can-update-package-json".to_string(),
    ];
    let (pkg, src, out, can_update) =
        zoboz_bam::package_json_verifier::get_params(&args).unwrap();
    assert_eq!(pkg.value(), "/pkg");
    assert_eq!(src.value(), "/pkg/src");
    assert_eq!(out.value(), "/pkg/dist");
    assert!(can_update);
}

#[test]
fn get_params_rejects_missing_or_relative_directories() {
    let missing = vec!["--package-dir".to_string(), "/pkg".to_string()];
    assert_eq!(
        zoboz_bam::package_json_verifier::get_params(&missing).err().map(|_| ()),
        Some(())
    );
    let missing_msg = match zoboz_bam::package_json_verifier::get_params(&missing) {
        Err(m) => m,
        Ok(_) => panic!("accepted incomplete parameters"),
    };
    assert_eq!(missing_msg, "Missing required parameter --source-dir");
    let relative = vec![
        "--package-dir".to_string(),
        "pkg".to_string(),
        "--source-dir".to_string(),
        "/pkg/src".to_string(),
        "--output-dir".to_string(),
        "/pkg/dist".to_string(),
    ];
    let relative_msg = match zoboz_bam::package_json_verifier::get_params(&relative) {
        Err(m) => m,
        Ok(_) => panic!("accepted a relative package directory"),
    };
    assert_eq!(relative_msg, "Package directory must be an absolute path");
}

#[test]
fn run_by_args_drives_the_whole_run() {
    let fs = fs_of(&[
        ("/pkg/package.json", "{\"main\": \"dist/index.js\"}"),
        ("/pkg/dist/index.js", "require(\"left-pad\")"),
        ("/pkg/node_modules/left-pad/package.json", "{\"main\": \"index.js\"}"),
        ("/pkg/node_modules/left-pad/index.js", "x"),
    ]);
    let args = vec![
        "--package-dir".to_string(),
        "/pkg".to_string(),
        "--source-dir".to_string(),
        "/pkg/src".to_string(),
        "--output-dir".to_string(),
        "/pkg/dist".to_string(),
    ];
    let report = zoboz_bam::package_json_verifier::run_by_args(&fs, &args);
    assert_eq!(
        report.outcome,
        Err("Package \"left-pad\" is used at runtime but is not declared in dependencies"
            .to_string())
    );
}
