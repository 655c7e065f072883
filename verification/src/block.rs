//! A block: a named, independently buildable unit of source with its own
//! directory and an optional ordered list of dependency names.

use vstd::prelude::*;

verus! {

/// A named, independently buildable unit.
///
/// `dir` is the explicit directory when given; otherwise the directory is
/// derived from the configured base directory and the block name. The
/// dependency list holds block names, in order; names that match no block
/// are skipped at build time with a log line, not an error.
#[derive(Debug)]
pub struct Block {
    pub name: String,
    pub dir: Option<String>,
    pub dependencies: Option<Vec<String>>,
}

impl Block {
    /// A block with a name alone, no explicit directory and no dependencies.
    pub fn named(name: String) -> (b: Block)
        ensures
            b.name == name,
            b.dir is None,
            b.dependencies is None,
    {
        Block { name, dir: None, dependencies: None }
    }
}

} // verus!
