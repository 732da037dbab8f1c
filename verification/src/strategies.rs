use vstd::prelude::*;

use crate::addresses::ActionAddr;
use crate::addresses::AgentId;

verus! {

/// The view of a list of agent identities: the sequence of their byte views.
pub open spec fn agent_views(s: Seq<AgentId>) -> Seq<Seq<u8>> {
    s.map_values(|a: AgentId| a@)
}

/// The view of a list of record addresses: the sequence of their byte views.
pub open spec fn action_views(s: Seq<ActionAddr>) -> Seq<Seq<u8>> {
    s.map_values(|a: ActionAddr| a@)
}

/// The mathematical shape of a selection policy: each variant carries the
/// views of its parameter lists.
pub enum StrategyView {
    Unfiltered,
    Authorities(Seq<Seq<u8>>),
    AuthoritiesExceptions(Seq<Seq<u8>>, Seq<Seq<u8>>),
    Exceptions(Seq<Seq<u8>>),
}

/// Indicates the update filtering pattern when following content evolution.
#[derive(Clone, Debug)]
pub enum EvolutionFilteringStrategy {
    /// No restriction; all successors are candidates.
    Unfiltered,
    /// Only successors authored by an allowed identity are candidates.
    AuthoritiesFilter(Vec<AgentId>),
    /// A successor is a candidate if authored by an allowed identity or if its
    /// own address is explicitly whitelisted.
    AuthoritiesExceptionsFilter(Vec<AgentId>, Vec<ActionAddr>),
    /// Address-only filtering; declared, not wired into a traversal entry
    /// point of its own.
    ExceptionsFilter(Vec<ActionAddr>),
}

impl View for EvolutionFilteringStrategy {
    type V = StrategyView;

    open spec fn view(&self) -> StrategyView {
        match self {
            EvolutionFilteringStrategy::Unfiltered => StrategyView::Unfiltered,
            EvolutionFilteringStrategy::AuthoritiesFilter(authors) => StrategyView::Authorities(
                agent_views(authors@),
            ),
            EvolutionFilteringStrategy::AuthoritiesExceptionsFilter(authors, exceptions) =>
                StrategyView::AuthoritiesExceptions(
                agent_views(authors@),
                action_views(exceptions@),
            ),
            EvolutionFilteringStrategy::ExceptionsFilter(exceptions) => StrategyView::Exceptions(
                action_views(exceptions@),
            ),
        }
    }
}

impl Default for EvolutionFilteringStrategy {
    /// The policy of a resolution request that names none: no restriction.
    fn default() -> (r: Self)
        ensures
            r is Unfiltered,
    {
        EvolutionFilteringStrategy::Unfiltered
    }
}

/// The optional pair in which a caller's filtering choice arrives.
#[derive(Clone, Debug)]
pub struct FollowEvolutionsInputBuffer {
    pub authors: Option<Vec<AgentId>>,
    pub exceptions: Option<Vec<ActionAddr>>,
}

impl From<FollowEvolutionsInputBuffer> for EvolutionFilteringStrategy {
    /// Decode the four combinations of the optional pair into the four policy
    /// variants. The mapping is total and never fails.
    fn from(buffer: FollowEvolutionsInputBuffer) -> (r: Self) {
        match (buffer.authors, buffer.exceptions) {
            (None, None) => Self::Unfiltered,
            (Some(authors), None) => Self::AuthoritiesFilter(authors),
            (None, Some(exceptions)) => Self::ExceptionsFilter(exceptions),
            (Some(authors), Some(exceptions)) => Self::AuthoritiesExceptionsFilter(
                authors,
                exceptions,
            ),
        }
    }
}

impl vstd::std_specs::convert::FromSpecImpl<FollowEvolutionsInputBuffer> for EvolutionFilteringStrategy {
    open spec fn obeys_from_spec() -> bool {
        true
    }

    open spec fn from_spec(buffer: FollowEvolutionsInputBuffer) -> Self {
        match (buffer.authors, buffer.exceptions) {
            (None, None) => Self::Unfiltered,
            (Some(authors), None) => Self::AuthoritiesFilter(authors),
            (None, Some(exceptions)) => Self::ExceptionsFilter(exceptions),
            (Some(authors), Some(exceptions)) => Self::AuthoritiesExceptionsFilter(
                authors,
                exceptions,
            ),
        }
    }
}

/// An independent copy of a list of agent identities, element for element.
pub fn copy_agents(v: &Vec<AgentId>) -> (r: Vec<AgentId>)
    ensures
        r@.len() == v@.len(),
        forall|i: int| 0 <= i < v@.len() ==> r@[i]@ == v@[i]@,
        agent_views(r@) == agent_views(v@),
{
    let mut out: Vec<AgentId> = Vec::new();
    let mut i: usize = 0;
    while i < v.len()
        invariant
            i <= v@.len(),
            out@.len() == i,
            forall|j: int| 0 <= j < i ==> out@[j]@ == v@[j]@,
        decreases v@.len() - i,
    {
        out.push(v[i].duplicate());
        i += 1;
    }
    proof {
        assert(agent_views(out@) =~= agent_views(v@));
    }
    out
}

/// An independent copy of a list of record addresses, element for element.
pub fn copy_actions(v: &Vec<ActionAddr>) -> (r: Vec<ActionAddr>)
    ensures
        r@.len() == v@.len(),
        forall|i: int| 0 <= i < v@.len() ==> r@[i]@ == v@[i]@,
        action_views(r@) == action_views(v@),
{
    let mut out: Vec<ActionAddr> = Vec::new();
    let mut i: usize = 0;
    while i < v.len()
        invariant
            i <= v@.len(),
            out@.len() == i,
            forall|j: int| 0 <= j < i ==> out@[j]@ == v@[j]@,
        decreases v@.len() - i,
    {
        out.push(v[i].duplicate());
        i += 1;
    }
    proof {
        assert(action_views(out@) =~= action_views(v@));
    }
    out
}

} // verus!
