use zoboz_bam::scanner::scan;
use zoboz_bam::scanner::MatchForm;

#[test]
fn scan_finds_require_with_double_quotes() {
    let specs = scan(MatchForm::Calls, "const x = require(\"left-pad\");");
    assert_eq!(specs, vec!["left-pad".to_string()]);
}

#[test]
fn scan_finds_require_with_single_quotes() {
    let specs = scan(MatchForm::Calls, "const x = require('left-pad');");
    assert_eq!(specs, vec!["left-pad".to_string()]);
}

#[test]
fn scan_finds_dynamic_import() {
    let specs = scan(MatchForm::Calls, "await import('./chunk.js');");
    assert_eq!(specs, vec!["./chunk.js".to_string()]);
}

#[test]
fn scan_is_whitespace_tolerant() {
    let specs = scan(MatchForm::Calls, "require (  'a'  ) ; import( \"b\" )");
    assert_eq!(specs, vec!["a".to_string(), "b".to_string()]);
}

#[test]
fn scan_needs_word_boundary_before_keyword() {
    let specs = scan(MatchForm::Calls, "myrequire('a')");
    assert!(specs.is_empty());
}

#[test]
fn scan_calls_ignores_from_clauses() {
    let specs = scan(MatchForm::Calls, "import { x } from 'mod';");
    assert!(specs.is_empty());
}

#[test]
fn scan_froms_finds_from_clause() {
    let specs = scan(MatchForm::Froms, "import { x } from 'mod';");
    assert_eq!(specs, vec!["mod".to_string()]);
}

#[test]
fn scan_froms_finds_double_quoted_from() {
    let specs = scan(MatchForm::Froms, "export * from \"./other\";");
    assert_eq!(specs, vec!["./other".to_string()]);
}

#[test]
fn scan_specifier_never_spans_a_newline() {
    let specs = scan(MatchForm::Calls, "require('a\nb')");
    assert!(specs.is_empty());
}

#[test]
fn scan_finds_several_matches_in_order() {
    let text = "require('a'); const y = require('b'); import('c');";
    let specs = scan(MatchForm::Calls, text);
    assert_eq!(
        specs,
        vec!["a".to_string(), "b".to_string(), "c".to_string()]
    );
}

#[test]
fn scan_requires_at_least_one_specifier_character() {
    let specs = scan(MatchForm::Calls, "require('')");
    assert!(specs.is_empty());
}
