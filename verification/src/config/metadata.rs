//! What a project's own metadata holds.

use vstd::prelude::*;
use crate::names::NameSet;

verus! {

/// The metadata of a project: its tags, where it names any.
#[derive(Debug, PartialEq, Eq)]
pub struct Metadata {
    pub tags: Option<NameSet>,
}

} // verus!
