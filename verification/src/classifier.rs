//! Classifies module specifiers as relative or bare, and extracts the root
//! (package-name) portion of a bare specifier.

use vstd::prelude::*;
use vstd::string::StrSliceExecFns;
use vstd::string::StringExecFns;

use crate::paths::find_slash;
use crate::paths::lemma_slash_after_bounds;
use crate::paths::spec_slash_after;

verus! {

/// The syntactic kind of a module specifier.
#[derive(Clone, Copy, Debug, PartialEq, Eq, Structural)]
pub enum SpecifierKind {
    /// Begins with `./` or `../`: resolved relative to the requesting file.
    Relative,
    /// Names an installed package, optionally scoped as `@scope/name`.
    Bare,
}

/// A specifier is relative iff it starts with `./` or `../`.
pub open spec fn spec_is_relative(s: Seq<char>) -> bool {
    (s.len() >= 2 && s[0] == '.' && s[1] == '/') || (s.len() >= 3 && s[0] == '.' && s[1] == '.'
        && s[2] == '/')
}

/// The root of a bare specifier: its first path segment, or its first two
/// segments when the first begins with `@` (a scoped package).
pub open spec fn spec_root_of(s: Seq<char>) -> Seq<char> {
    if s.len() > 0 && s[0] == '@' {
        s.take(spec_slash_after(s, spec_slash_after(s, 0) + 1))
    } else {
        s.take(spec_slash_after(s, 0))
    }
}

/// Classifies a specifier: `Relative` iff it begins with `./` or `../`.
pub fn classify(specifier: &str) -> (k: SpecifierKind)
    ensures
        k == SpecifierKind::Relative <==> spec_is_relative(specifier@),
{
    let n = specifier.unicode_len();
    if n >= 2 && specifier.get_char(0) == '.' {
        if specifier.get_char(1) == '/' {
            return SpecifierKind::Relative;
        }
        if n >= 3 && specifier.get_char(1) == '.' && specifier.get_char(2) == '/' {
            return SpecifierKind::Relative;
        }
    }
    SpecifierKind::Bare
}

/// The root of a bare specifier: `@scope/name` keeps its first two segments,
/// anything else keeps its first segment; a specifier with no `/` is its own
/// root.
pub fn root_of(specifier: &str) -> (r: String)
    ensures
        r@ == spec_root_of(specifier@),
{
    let n = specifier.unicode_len();
    let cut: usize;
    if n > 0 && specifier.get_char(0) == '@' {
        let first = find_slash(specifier, 0);
        if first < n {
            cut = find_slash(specifier, first + 1);
        } else {
            cut = n;
            proof {
                lemma_slash_after_bounds(specifier@, 0);
                assert(spec_slash_after(specifier@, spec_slash_after(specifier@, 0) + 1)
                    == specifier@.len());
            }
        }
    } else {
        cut = find_slash(specifier, 0);
    }
    let root = specifier.substring_char(0, cut);
    String::from_str(root)
}

} // verus!
