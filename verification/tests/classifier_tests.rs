use zoboz_bam::classifier::classify;
use zoboz_bam::classifier::root_of;
use zoboz_bam::classifier::SpecifierKind;

#[test]
fn root_of_scoped_specifier_keeps_scope_and_name() {
    assert_eq!(root_of("@scope/pkg/sub/path"), "@scope/pkg");
}

#[test]
fn root_of_plain_specifier_keeps_first_segment() {
    assert_eq!(root_of("lodash/fp"), "lodash");
}

#[test]
fn root_of_specifier_without_slash_is_itself() {
    assert_eq!(root_of("lodash"), "lodash");
    assert_eq!(root_of("@scope"), "@scope");
}

#[test]
fn root_of_scoped_specifier_without_subpath() {
    assert_eq!(root_of("@scope/pkg"), "@scope/pkg");
}

#[test]
fn classify_dot_slash_is_relative() {
    assert_eq!(classify("./x"), SpecifierKind::Relative);
}

#[test]
fn classify_dot_dot_slash_is_relative() {
    assert_eq!(classify("../x"), SpecifierKind::Relative);
}

#[test]
fn classify_package_name_is_bare() {
    assert_eq!(classify("pkg"), SpecifierKind::Bare);
    assert_eq!(classify("@scope/pkg"), SpecifierKind::Bare);
}

#[test]
fn classify_lone_dots_are_bare() {
    assert_eq!(classify("."), SpecifierKind::Bare);
    assert_eq!(classify(".."), SpecifierKind::Bare);
}
