use vstd::prelude::*;

use crate::addresses::ActionAddr;
use crate::addresses::AnyLinkableAddr;
use crate::strategies::EvolutionFilteringStrategy;

verus! {

/// The standard request shape for "resolve this entity's current state under
/// this trust policy".
#[derive(Clone, Debug)]
pub struct GetEntityInput {
    pub id: ActionAddr,
    pub follow_strategy: EvolutionFilteringStrategy,
}

/// The standard request shape for appending a new revision to an entity.
#[derive(Clone, Debug)]
pub struct UpdateEntryInput<T> {
    pub base: ActionAddr,
    pub entry: T,
}

/// A simple buffer in which a link-graph query arrives: the link type is a
/// plain name, where the wildcard token ".." means "any type".
#[derive(Clone, Debug)]
pub struct GetLinksInputBuffer {
    pub base: AnyLinkableAddr,
    pub target: AnyLinkableAddr,
    pub link_type: String,
    pub tag: Option<String>,
}

} // verus!
