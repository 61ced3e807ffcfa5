use zoboz_bam::file_updater::update_cjs;
use zoboz_bam::file_updater::update_dts;
use zoboz_bam::file_updater::update_esm;

fn add_js_extension(_path: String, spec: String) -> String {
    if spec.ends_with(".js") {
        spec
    } else {
        format!("{}.js", spec)
    }
}

#[test]
fn update_cjs_rewrites_require_specifier() {
    let out = update_cjs(&add_js_extension, "/pkg/dist/a.js", "const h = require('./helper');");
    assert_eq!(out, Some("const h = require('./helper.js');".to_string()));
}

#[test]
fn update_cjs_preserves_surrounding_text_and_quotes() {
    let content = "let a = 1; // require style\nconst h = require( \"./x\" ); a += 2;";
    let out = update_cjs(&add_js_extension, "/pkg/dist/a.js", content).unwrap();
    assert_eq!(out, "let a = 1; // require style\nconst h = require( \"./x.js\" ); a += 2;");
}

#[test]
fn update_cjs_without_matches_returns_none() {
    let out = update_cjs(&add_js_extension, "/pkg/dist/a.js", "const x = 1 + 2;");
    assert_eq!(out, None);
}

#[test]
fn update_cjs_leaves_from_clauses_alone() {
    let out = update_cjs(&add_js_extension, "/pkg/dist/a.js", "import x from './y';");
    assert_eq!(out, None);
}

#[test]
fn update_esm_rewrites_from_clauses_too() {
    let out = update_esm(&add_js_extension, "/pkg/dist/a.js", "import x from './y';");
    assert_eq!(out, Some("import x from './y.js';".to_string()));
}

#[test]
fn update_dts_rewrites_both_forms() {
    let content = "import type { T } from './t';\nconst m = require('./m');";
    let out = update_dts(&add_js_extension, "/pkg/dist/a.d.ts", content).unwrap();
    assert_eq!(
        out,
        "import type { T } from './t.js';\nconst m = require('./m.js');"
    );
}

#[test]
fn rewrite_is_idempotent_for_an_idempotent_formatter() {
    let content = "import x from './y'; const h = require('./helper');";
    let once = update_esm(&add_js_extension, "/pkg/dist/a.js", content).unwrap();
    // A second pass over the already-rewritten text changes nothing.
    let twice = update_esm(&add_js_extension, "/pkg/dist/a.js", &once);
    assert_eq!(twice, None);
}

#[test]
fn identity_formatter_reports_no_change() {
    let content = "const h = require('./helper');";
    let out = update_cjs(&|_p: String, s: String| s, "/pkg/dist/a.js", content);
    assert_eq!(out, None);
}

#[test]
fn formatter_receives_the_requesting_file_path() {
    let out = update_cjs(
        &|p: String, s: String| format!("{}::{}", p, s),
        "/pkg/a.js",
        "require('x');",
    );
    assert_eq!(out, Some("require('/pkg/a.js::x');".to_string()));
}
