//! What a repository may say about itself in its `fw.toml`.

use vstd::prelude::*;
use crate::names::NameSet;

verus! {

/// The content of a repository's `fw.toml`: a list of tags, where it names
/// one. Nothing else in a repository reaches the configuration.
#[derive(Debug, PartialEq, Eq)]
pub struct MetadataFromRepository {
    pub tags: Option<NameSet>,
}

} // verus!
