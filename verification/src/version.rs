//! A version-replacement rule: a value pattern, a replacement pattern, the
//! replacement text, and the files it applies to.

use vstd::prelude::*;

verus! {

/// One configured version-replacement rule. The patterns are regular
/// expressions interpreted by the version-bump utility around the core;
/// here they are carried as plain text.
#[derive(Debug, Clone)]
pub struct Version {
    pub val: String,
    pub replace: String,
    pub by: String,
    pub files: Vec<String>,
}

} // verus!
