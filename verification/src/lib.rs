//! Verifies and repairs the published metadata of a compiled library package.
//!
//! The core is a module-resolution and dependency-closure engine: a specifier
//! classifier, a module resolver that reproduces package-manager resolution
//! semantics over a snapshot of the filesystem, a scanner that locates
//! import/require specifier literals in source text, a closure walker that
//! discovers every bare specifier reachable from a package's entry points,
//! and a rewriter that substitutes matched specifiers while leaving all other
//! text untouched.

pub mod classifier;
pub mod file_updater;
pub mod fs_model;
pub mod json_editor;
pub mod package_json_verifier;
pub mod package_json_reader;
pub mod paths;
pub mod resolver;
pub mod runtime_dependencies_assurer;
pub mod scanner;
pub mod walker;
pub mod value_objects;
