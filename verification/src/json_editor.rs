//! The change-set values the verifier produces. A change set with concrete
//! edits is automatic: the external patch applier can apply it to the
//! manifest text. One with an empty edit list is manual: it can only be
//! surfaced to a human as a finding.

use vstd::prelude::*;

verus! {

/// One structural edit to the manifest: a field set to a new value. Applying
/// it to manifest text is the external patch applier's work.
pub struct Change {
    /// The manifest field the edit touches.
    pub field: String,
    /// The value the field is set to.
    pub value: String,
}

/// A named, described unit of proposed manifest edits: automatic when it
/// carries edits, manual (advisory only) when its edit list is empty.
pub struct ChangeSet {
    /// A fully formed diagnostic sentence describing the finding.
    pub description: String,
    /// The concrete edits, empty for an advisory-only finding.
    pub changes: Vec<Change>,
}

} // verus!
