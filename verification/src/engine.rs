use vstd::prelude::*;

use crate::addresses::ActionAddr;
use crate::addresses::AgentId;
use crate::addresses::AnyDhtAddr;
use crate::addresses::bytes_eq;
use crate::errors::HdkExtError;
use crate::store::RecordInfo;
use crate::store::RecordInfoView;
use crate::store::RecordStore;
use crate::store::update_views;
use crate::strategies::EvolutionFilteringStrategy;
use crate::strategies::StrategyView;
use crate::strategies::agent_views;
use crate::strategies::action_views;
use crate::strategies::copy_agents;
use crate::strategies::copy_actions;

verus! {

/// Whether a successor is a candidate to follow under a policy.
pub open spec fn candidate(u: RecordInfoView, strat: StrategyView) -> bool {
    match strat {
        StrategyView::Unfiltered => true,
        StrategyView::Authorities(authors) => authors.contains(u.author),
        StrategyView::AuthoritiesExceptions(authors, exceptions) => authors.contains(u.author)
            || exceptions.contains(u.action),
        StrategyView::Exceptions(exceptions) => exceptions.contains(u.action),
    }
}

/// The candidate a policy picks from a successor list: the one with the
/// earliest timestamp, and among equal timestamps the one listed first.
pub open spec fn best(updates: Seq<RecordInfoView>, strat: StrategyView) -> Option<RecordInfoView>
    decreases updates.len(),
{
    if updates.len() == 0 {
        None
    } else {
        let prev = best(updates.drop_last(), strat);
        let last = updates.last();
        if !candidate(last, strat) {
            prev
        } else {
            match prev {
                Option::None => Option::Some(last),
                Option::Some(b) => if last.timestamp < b.timestamp {
                    Option::Some(last)
                } else {
                    Option::Some(b)
                },
            }
        }
    }
}

/// The address a policy advances to from a successor list, if any.
pub open spec fn selected(updates: Seq<RecordInfoView>, strat: StrategyView) -> Option<Seq<u8>> {
    match best(updates, strat) {
        Option::None => Option::None,
        Option::Some(b) => Option::Some(b.action),
    }
}

/// Whether a list of allowed identities names an author.
fn contains_agent(authors: &Vec<AgentId>, author: &AgentId) -> (r: bool)
    ensures
        r == agent_views(authors@).contains(author@),
{
    let mut i: usize = 0;
    while i < authors.len()
        invariant
            i <= authors@.len(),
            forall|j: int| 0 <= j < i ==> agent_views(authors@)[j] != author@,
        decreases authors@.len() - i,
    {
        if bytes_eq(&authors[i].0, &author.0) {
            proof {
                assert(agent_views(authors@)[i as int] == author@);
            }
            return true;
        }
        i += 1;
    }
    proof {
        if agent_views(authors@).contains(author@) {
            let idx = choose|idx: int|
                0 <= idx < agent_views(authors@).len() && agent_views(authors@)[idx] == author@;
            assert(false);
        }
    }
    false
}

/// Whether a list of whitelisted addresses names an address.
fn contains_action(exceptions: &Vec<ActionAddr>, action: &ActionAddr) -> (r: bool)
    ensures
        r == action_views(exceptions@).contains(action@),
{
    let mut i: usize = 0;
    while i < exceptions.len()
        invariant
            i <= exceptions@.len(),
            forall|j: int| 0 <= j < i ==> action_views(exceptions@)[j] != action@,
        decreases exceptions@.len() - i,
    {
        if bytes_eq(&exceptions[i].0, &action.0) {
            proof {
                assert(action_views(exceptions@)[i as int] == action@);
            }
            return true;
        }
        i += 1;
    }
    proof {
        if action_views(exceptions@).contains(action@) {
            let idx = choose|idx: int|
                0 <= idx < action_views(exceptions@).len() && action_views(exceptions@)[idx]
                    == action@;
            assert(false);
        }
    }
    false
}

/// Whether one successor is a candidate under a policy.
pub fn is_candidate(update: &RecordInfo, strategy: &EvolutionFilteringStrategy) -> (r: bool)
    ensures
        r == candidate(update@, strategy@),
{
    match strategy {
        EvolutionFilteringStrategy::Unfiltered => true,
        EvolutionFilteringStrategy::AuthoritiesFilter(authors) => contains_agent(
            authors,
            &update.author,
        ),
        EvolutionFilteringStrategy::AuthoritiesExceptionsFilter(authors, exceptions) => {
            if contains_agent(authors, &update.author) {
                true
            } else {
                contains_action(exceptions, &update.action)
            }
        },
        EvolutionFilteringStrategy::ExceptionsFilter(exceptions) => contains_action(
            exceptions,
            &update.action,
        ),
    }
}

/// Apply a policy to the full successor list at the current node, returning at
/// most one address to advance to.
pub fn select_next(updates: &Vec<RecordInfo>, strategy: &EvolutionFilteringStrategy) -> (r: Option<
    ActionAddr,
>)
    ensures
        r is None ==> selected(update_views(updates@), strategy@) is None,
        r matches Some(a) ==> (selected(update_views(updates@), strategy@) matches Some(t) && a@
            == t),
{
    let mut best_idx: Option<usize> = None;
    let mut i: usize = 0;
    while i < updates.len()
        invariant
            i <= updates@.len(),
            best_idx is None ==> best(
                update_views(updates@).subrange(0, i as int),
                strategy@,
            ) is None,
            best_idx matches Some(b) ==> b < i && best(
                update_views(updates@).subrange(0, i as int),
                strategy@,
            ) == Some(updates@[b as int]@),
        decreases updates@.len() - i,
    {
        proof {
            assert(update_views(updates@).subrange(0, i as int + 1).drop_last() =~= update_views(
                updates@,
            ).subrange(0, i as int));
            assert(update_views(updates@).subrange(0, i as int + 1).last() == updates@[i as int]@);
        }
        let cand = is_candidate(&updates[i], strategy);
        if cand {
            match best_idx {
                None => {
                    best_idx = Some(i);
                },
                Some(b) => {
                    if updates[i].timestamp < updates[b].timestamp {
                        best_idx = Some(i);
                    }
                },
            }
        }
        i += 1;
    }
    proof {
        assert(update_views(updates@).subrange(0, updates@.len() as int) =~= update_views(
            updates@,
        ));
    }
    match best_idx {
        None => None,
        Some(b) => Some(updates[b].action.duplicate()),
    }
}

/// The outcome of the forward walk from a start address over a fixed snapshot,
/// bounded by a fuel.
pub enum Walk {
    /// The walk ended at a record with no selected successor; the chain lists
    /// every visited address in order, the start address first.
    Done(Seq<Seq<u8>>),
    /// A visited address had no record at the store: the addresses visited
    /// before it, and the failing address itself.
    Missing(Seq<Seq<u8>>, Seq<u8>),
    /// The fuel ran out before the walk ended.
    Short,
}

/// Walk forward from `addr`: fetch the successor list at the cursor, let the
/// policy select at most one successor, and advance until none is selected.
pub open spec fn walk(
    records: Map<Seq<u8>, Seq<RecordInfoView>>,
    strat: StrategyView,
    addr: Seq<u8>,
    fuel: nat,
) -> Walk
    decreases fuel,
{
    if !records.contains_key(addr) {
        Walk::Missing(Seq::empty(), addr)
    } else if fuel == 0 {
        Walk::Short
    } else {
        match selected(records[addr], strat) {
            Option::None => Walk::Done(seq![addr]),
            Option::Some(next) => match walk(records, strat, next, (fuel - 1) as nat) {
                Walk::Done(chain) => Walk::Done(seq![addr] + chain),
                Walk::Missing(chain, at) => Walk::Missing(seq![addr] + chain, at),
                Walk::Short => Walk::Short,
            },
        }
    }
}

/// The walk from `addr` ends in finitely many steps. Addresses are content
/// hashes, so no record of a well-formed store can be its own ancestor; the
/// engine trusts the store's acyclicity and does not defend against a
/// malformed self-referential edge.
pub open spec fn walk_terminates(
    records: Map<Seq<u8>, Seq<RecordInfoView>>,
    strat: StrategyView,
    addr: Seq<u8>,
) -> bool {
    exists|fuel: nat| !((#[trigger] walk(records, strat, addr, fuel)) is Short)
}

/// The outcome of the walk, at any sufficient fuel.
pub open spec fn walk_result(
    records: Map<Seq<u8>, Seq<RecordInfoView>>,
    strat: StrategyView,
    addr: Seq<u8>,
) -> Walk {
    walk(
        records,
        strat,
        addr,
        choose|fuel: nat| !((#[trigger] walk(records, strat, addr, fuel)) is Short),
    )
}

/// Raising the fuel past the point where the walk ends does not change its
/// outcome.
pub proof fn lemma_walk_fuel_mono(
    records: Map<Seq<u8>, Seq<RecordInfoView>>,
    strat: StrategyView,
    addr: Seq<u8>,
    f1: nat,
    f2: nat,
)
    requires
        f1 <= f2,
        !(walk(records, strat, addr, f1) is Short),
    ensures
        walk(records, strat, addr, f2) == walk(records, strat, addr, f1),
    decreases f1,
{
    if records.contains_key(addr) {
        match selected(records[addr], strat) {
            Option::None => {},
            Option::Some(next) => {
                lemma_walk_fuel_mono(records, strat, next, (f1 - 1) as nat, (f2 - 1) as nat);
            },
        }
    }
}

/// Every fuel at which the walk ends yields the one outcome of the walk.
pub proof fn lemma_walk_result_agrees(
    records: Map<Seq<u8>, Seq<RecordInfoView>>,
    strat: StrategyView,
    addr: Seq<u8>,
    fuel: nat,
)
    requires
        !(walk(records, strat, addr, fuel) is Short),
    ensures
        walk_terminates(records, strat, addr),
        walk_result(records, strat, addr) == walk(records, strat, addr, fuel),
{
    assert(walk_terminates(records, strat, addr));
    let f0 = choose|f: nat| !((#[trigger] walk(records, strat, addr, f)) is Short);
    if f0 <= fuel {
        lemma_walk_fuel_mono(records, strat, addr, f0, fuel);
    } else {
        lemma_walk_fuel_mono(records, strat, addr, fuel, f0);
    }
}

/// A finished walk always lists the start address first.
pub proof fn lemma_walk_shape(
    records: Map<Seq<u8>, Seq<RecordInfoView>>,
    strat: StrategyView,
    addr: Seq<u8>,
    fuel: nat,
)
    ensures
        walk(records, strat, addr, fuel) matches Walk::Done(chain) ==> chain.len() >= 1 && chain[0]
            == addr,
        walk(records, strat, addr, fuel) matches Walk::Missing(chain, at) ==> (chain.len() == 0
            ==> at == addr) && (chain.len() >= 1 ==> chain[0] == addr),
    decreases fuel,
{
    if records.contains_key(addr) && fuel > 0 {
        match selected(records[addr], strat) {
            Option::None => {},
            Option::Some(next) => {
                lemma_walk_shape(records, strat, next, (fuel - 1) as nat);
            },
        }
    }
}

/// The recursive driver: `evs` holds the addresses visited so far, and the
/// fuel bounds the steps that remain.
fn follow_rec(
    store: &RecordStore,
    strategy: &EvolutionFilteringStrategy,
    addr: &ActionAddr,
    evs: Vec<ActionAddr>,
    Ghost(fuel): Ghost<nat>,
) -> (r: Result<Vec<ActionAddr>, HdkExtError>)
    requires
        store.wf(),
        !(walk(store.records_view(), strategy@, addr@, fuel) is Short),
    ensures
        walk(store.records_view(), strategy@, addr@, fuel) matches Walk::Done(chain) ==> (r matches
            Ok(out) && out@.len() == evs@.len() + chain.len() && (forall|i: int|
            0 <= i < evs@.len() ==> out@[i] == evs@[i]) && (forall|i: int|
            0 <= i < chain.len() ==> (#[trigger] out@[evs@.len() + i])@ == chain[i])),
        walk(store.records_view(), strategy@, addr@, fuel) matches Walk::Missing(chain, at) ==> (
        r matches Err(HdkExtError::RecordNotFound(AnyDhtAddr::Action(a))) && a@ == at),
    decreases fuel,
{
    let mut evs = evs;
    let ghost evs0 = evs@;
    match store.must_get_record_details(addr) {
        Err(e) => Err(e),
        Ok(detail) => {
            proof {
                assert(store.records_view().contains_key(addr@));
                if fuel == 0 {
                    assert(walk(store.records_view(), strategy@, addr@, fuel) is Short);
                }
            }
            let next = select_next(&detail.updates, strategy);
            match next {
                None => {
                    proof {
                        assert(selected(store.records_view()[addr@], strategy@) is None);
                        assert(walk(store.records_view(), strategy@, addr@, fuel) == Walk::Done(
                            seq![addr@],
                        ));
                    }
                    evs.push(addr.duplicate());
                    proof {
                        let chain = seq![addr@];
                        assert(evs@[evs0.len() as int]@ == addr@);
                        assert forall|i: int| 0 <= i < chain.len() implies (#[trigger] evs@[evs0.len()
                            + i])@ == chain[i] by {
                            assert(evs0.len() + i == evs0.len() as int);
                        }
                    }
                    Ok(evs)
                },
                Some(next_addr) => {
                    proof {
                        assert(selected(store.records_view()[addr@], strategy@) == Some(
                            next_addr@,
                        ));
                    }
                    evs.push(addr.duplicate());
                    let ghost evs1 = evs@;
                    let r = follow_rec(store, strategy, &next_addr, evs, Ghost((fuel - 1) as nat));
                    proof {
                        let recs = store.records_view();
                        let w_next = walk(recs, strategy@, next_addr@, (fuel - 1) as nat);
                        let w = walk(recs, strategy@, addr@, fuel);
                        match w_next {
                            Walk::Done(tail) => {
                                let chain = seq![addr@] + tail;
                                assert(w == Walk::Done(chain));
                                match &r {
                                    Ok(out) => {
                                        assert(out@.len() == evs0.len() + chain.len());
                                        assert forall|i: int| 0 <= i < chain.len() implies (
                                        #[trigger] out@[evs0.len() + i])@ == chain[i] by {
                                            if i == 0 {
                                                assert(out@[evs0.len() as int] == evs1[evs0.len() as int]);
                                                assert(evs1[evs0.len() as int]@ == addr@);
                                                assert(chain[0] == addr@);
                                                assert(evs0.len() + i == evs0.len() as int);
                                            } else {
                                                assert(out@[evs1.len() + (i - 1)]@ == tail[i - 1]);
                                                assert(evs0.len() + i == evs1.len() + (i - 1));
                                                assert(chain[i] == tail[i - 1]);
                                            }
                                        }
                                    },
                                    Err(_) => {},
                                }
                            },
                            Walk::Missing(tail, at) => {
                                assert(w == Walk::Missing(seq![addr@] + tail, at));
                            },
                            Walk::Short => {
                                assert(false);
                            },
                        }
                    }
                    r
                },
            }
        },
    }
}

/// Collect the chain of evolutions forward under a selection policy.
///
/// The first element of the result is always the given address; the walk
/// advances while the policy selects a successor, and the whole traversal
/// fails atomically with [`HdkExtError::RecordNotFound`] if any visited
/// address cannot be resolved.
pub fn follow_evolutions_selector(
    store: &RecordStore,
    action_address: &ActionAddr,
    strategy: &EvolutionFilteringStrategy,
) -> (r: Result<Vec<ActionAddr>, HdkExtError>)
    requires
        store.wf(),
        walk_terminates(store.records_view(), strategy@, action_address@),
    ensures
        walk_result(store.records_view(), strategy@, action_address@) matches Walk::Done(chain)
            ==> (r matches Ok(evs) && evs@.len() == chain.len() && (forall|i: int|
            0 <= i < chain.len() ==> (#[trigger] evs@[i])@ == chain[i])),
        walk_result(store.records_view(), strategy@, action_address@) matches Walk::Missing(
            chain,
            at,
        ) ==> (r matches Err(HdkExtError::RecordNotFound(AnyDhtAddr::Action(a))) && a@ == at),
{
    let ghost fuel = choose|f: nat|
        !((#[trigger] walk(store.records_view(), strategy@, action_address@, f)) is Short);
    proof {
        lemma_walk_result_agrees(store.records_view(), strategy@, action_address@, fuel);
    }
    let evs: Vec<ActionAddr> = Vec::new();
    let ghost evs0 = evs@;
    let r = follow_rec(store, strategy, action_address, evs, Ghost(fuel));
    proof {
        let w = walk(store.records_view(), strategy@, action_address@, fuel);
        match w {
            Walk::Done(chain) => {
                match &r {
                    Ok(out) => {
                        assert forall|i: int| 0 <= i < chain.len() implies (#[trigger] out@[i])@
                            == chain[i] by {
                            assert(out@[evs0.len() + i]@ == chain[i]);
                            assert(evs0.len() + i == i);
                        }
                    },
                    Err(_) => {},
                }
            },
            _ => {},
        }
    }
    r
}

/// Collect the chain of evolutions forward.
///
/// When there are multiple updates the lowest action's timestamp is selected.
/// The first item of the returned chain is always the given address.
pub fn follow_evolutions(store: &RecordStore, action_address: &ActionAddr) -> (r: Result<
    Vec<ActionAddr>,
    HdkExtError,
>)
    requires
        store.wf(),
        walk_terminates(store.records_view(), StrategyView::Unfiltered, action_address@),
    ensures
        walk_result(store.records_view(), StrategyView::Unfiltered, action_address@) matches
            Walk::Done(chain) ==> (r matches Ok(evs) && evs@.len() == chain.len() && (forall|i: int|
            0 <= i < chain.len() ==> (#[trigger] evs@[i])@ == chain[i])),
        walk_result(store.records_view(), StrategyView::Unfiltered, action_address@) matches
            Walk::Missing(chain, at) ==> (r matches Err(
            HdkExtError::RecordNotFound(AnyDhtAddr::Action(a)),
        ) && a@ == at),
{
    let strategy = EvolutionFilteringStrategy::Unfiltered;
    follow_evolutions_selector(store, action_address, &strategy)
}

/// Collect the chain of evolutions forward, following only updates authored
/// by one of the allowed identities.
pub fn follow_evolutions_using_authorities(
    store: &RecordStore,
    action_address: &ActionAddr,
    authors: &Vec<AgentId>,
) -> (r: Result<Vec<ActionAddr>, HdkExtError>)
    requires
        store.wf(),
        walk_terminates(
            store.records_view(),
            StrategyView::Authorities(agent_views(authors@)),
            action_address@,
        ),
    ensures
        walk_result(
            store.records_view(),
            StrategyView::Authorities(agent_views(authors@)),
            action_address@,
        ) matches Walk::Done(chain) ==> (r matches Ok(evs) && evs@.len() == chain.len() && (
        forall|i: int| 0 <= i < chain.len() ==> (#[trigger] evs@[i])@ == chain[i])),
        walk_result(
            store.records_view(),
            StrategyView::Authorities(agent_views(authors@)),
            action_address@,
        ) matches Walk::Missing(chain, at) ==> (r matches Err(
            HdkExtError::RecordNotFound(AnyDhtAddr::Action(a)),
        ) && a@ == at),
{
    let strategy = EvolutionFilteringStrategy::AuthoritiesFilter(copy_agents(authors));
    follow_evolutions_selector(store, action_address, &strategy)
}

/// Collect the chain of evolutions forward, following updates authored by one
/// of the allowed identities or whose own address is whitelisted.
pub fn follow_evolutions_using_authorities_with_exceptions(
    store: &RecordStore,
    action_address: &ActionAddr,
    authors: &Vec<AgentId>,
    exceptions: &Vec<ActionAddr>,
) -> (r: Result<Vec<ActionAddr>, HdkExtError>)
    requires
        store.wf(),
        walk_terminates(
            store.records_view(),
            StrategyView::AuthoritiesExceptions(agent_views(authors@), action_views(exceptions@)),
            action_address@,
        ),
    ensures
        walk_result(
            store.records_view(),
            StrategyView::AuthoritiesExceptions(agent_views(authors@), action_views(exceptions@)),
            action_address@,
        ) matches Walk::Done(chain) ==> (r matches Ok(evs) && evs@.len() == chain.len() && (
        forall|i: int| 0 <= i < chain.len() ==> (#[trigger] evs@[i])@ == chain[i])),
        walk_result(
            store.records_view(),
            StrategyView::AuthoritiesExceptions(agent_views(authors@), action_views(exceptions@)),
            action_address@,
        ) matches Walk::Missing(chain, at) ==> (r matches Err(
            HdkExtError::RecordNotFound(AnyDhtAddr::Action(a)),
        ) && a@ == at),
{
    let strategy = EvolutionFilteringStrategy::AuthoritiesExceptionsFilter(
        copy_agents(authors),
        copy_actions(exceptions),
    );
    follow_evolutions_selector(store, action_address, &strategy)
}

} // verus!
