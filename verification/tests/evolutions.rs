use hdk_extensions::ActionAddr;
use hdk_extensions::AgentId;
use hdk_extensions::AnyDhtAddr;
use hdk_extensions::AnyLinkableAddr;
use hdk_extensions::Entity;
use hdk_extensions::EntryAddr;
use hdk_extensions::EvolutionFilteringStrategy;
use hdk_extensions::ExternalAddr;
use hdk_extensions::FollowEvolutionsInputBuffer;
use hdk_extensions::HdkExtError;
use hdk_extensions::MorphAddr;
use hdk_extensions::RecordDetail;
use hdk_extensions::RecordInfo;
use hdk_extensions::RecordStore;
use hdk_extensions::follow_evolutions;
use hdk_extensions::follow_evolutions_selector;
use hdk_extensions::follow_evolutions_using_authorities;
use hdk_extensions::follow_evolutions_using_authorities_with_exceptions;
use hdk_extensions::resolve_action_addr;
use hdk_extensions::select_next;

fn addr(n: u8) -> ActionAddr {
    ActionAddr(vec![n])
}

fn agent(n: u8) -> AgentId {
    AgentId(vec![100 + n])
}

fn info(action: u8, author: u8, timestamp: i64) -> RecordInfo {
    RecordInfo { action: addr(action), author: agent(author), timestamp }
}

fn detail(updates: Vec<RecordInfo>) -> RecordDetail {
    RecordDetail { updates }
}

#[test]
fn origin_property() {
    let origin = MorphAddr(addr(1), addr(1));
    assert!(origin.is_origin());
    assert_eq!(origin.identity(), &addr(1));
    assert_eq!(origin.revision(), &addr(1));

    let advanced = MorphAddr(addr(1), addr(2));
    assert!(!advanced.is_origin());
    assert_eq!(advanced.identity(), &addr(1));
    assert_eq!(advanced.revision(), &addr(2));
}

#[test]
fn entity_forwards_to_its_coordinate() {
    let entity = Entity(MorphAddr(addr(1), addr(2)), String::from("hello"));
    assert_eq!(entity.identity(), &addr(1));
    assert_eq!(entity.revision(), &addr(2));
    assert!(!entity.is_origin());
    assert_eq!(entity.1, "hello");

    let fresh = Entity(MorphAddr(addr(3), addr(3)), 7u32);
    assert!(fresh.is_origin());
}

#[test]
fn reflexive_chain() {
    let mut store = RecordStore::new();
    store.insert_record(addr(1), detail(vec![]));
    let chain = follow_evolutions(&store, &addr(1)).unwrap();
    assert_eq!(chain, vec![addr(1)]);
}

#[test]
fn linear_chain_determinism() {
    let mut store = RecordStore::new();
    store.insert_record(addr(1), detail(vec![info(2, 1, 10)]));
    store.insert_record(addr(2), detail(vec![info(3, 1, 20)]));
    store.insert_record(addr(3), detail(vec![]));

    let first = follow_evolutions(&store, &addr(1)).unwrap();
    assert_eq!(first, vec![addr(1), addr(2), addr(3)]);

    let again = follow_evolutions(&store, &addr(1)).unwrap();
    assert_eq!(again, first);

    let from_middle = follow_evolutions(&store, &addr(2)).unwrap();
    assert_eq!(from_middle, vec![addr(2), addr(3)]);
}

#[test]
fn fork_resolution_earliest_wins_unfiltered() {
    let mut store = RecordStore::new();
    store.insert_record(addr(1), detail(vec![info(2, 1, 1), info(3, 2, 2)]));
    store.insert_record(addr(2), detail(vec![]));
    store.insert_record(addr(3), detail(vec![]));

    let chain = follow_evolutions(&store, &addr(1)).unwrap();
    assert_eq!(chain, vec![addr(1), addr(2)]);
}

#[test]
fn fork_resolution_authorities_pick_their_branch() {
    let mut store = RecordStore::new();
    store.insert_record(addr(1), detail(vec![info(2, 1, 1), info(3, 2, 2)]));
    store.insert_record(addr(2), detail(vec![]));
    store.insert_record(addr(3), detail(vec![]));

    let chain = follow_evolutions_using_authorities(&store, &addr(1), &vec![agent(2)]).unwrap();
    assert_eq!(chain, vec![addr(1), addr(3)]);
}

#[test]
fn exception_escape_hatch() {
    let mut store = RecordStore::new();
    store.insert_record(addr(1), detail(vec![info(2, 1, 1), info(3, 2, 2)]));
    store.insert_record(addr(2), detail(vec![]));
    store.insert_record(addr(3), detail(vec![]));

    let chain = follow_evolutions_using_authorities_with_exceptions(
        &store,
        &addr(1),
        &vec![],
        &vec![addr(3)],
    )
    .unwrap();
    assert_eq!(chain, vec![addr(1), addr(3)]);
}

#[test]
fn starvation_stops_without_error() {
    let mut store = RecordStore::new();
    store.insert_record(addr(1), detail(vec![info(2, 3, 1)]));
    store.insert_record(addr(2), detail(vec![]));

    let chain = follow_evolutions_using_authorities(&store, &addr(1), &vec![agent(2)]).unwrap();
    assert_eq!(chain, vec![addr(1)]);
}

#[test]
fn exceptions_only_strategy_follows_whitelisted_updates() {
    let mut store = RecordStore::new();
    store.insert_record(addr(1), detail(vec![info(2, 1, 1), info(3, 2, 2)]));
    store.insert_record(addr(2), detail(vec![]));
    store.insert_record(addr(3), detail(vec![]));

    let strategy = EvolutionFilteringStrategy::ExceptionsFilter(vec![addr(3)]);
    let chain = follow_evolutions_selector(&store, &addr(1), &strategy).unwrap();
    assert_eq!(chain, vec![addr(1), addr(3)]);
}

#[test]
fn missing_start_is_record_not_found() {
    let store = RecordStore::new();
    let result = follow_evolutions(&store, &addr(9));
    match result {
        Err(HdkExtError::RecordNotFound(AnyDhtAddr::Action(a))) => assert_eq!(a, addr(9)),
        other => panic!("expected RecordNotFound, got {:?}", other),
    }
}

#[test]
fn missing_link_fails_atomically() {
    let mut store = RecordStore::new();
    store.insert_record(addr(1), detail(vec![info(2, 1, 10)]));

    let result = follow_evolutions(&store, &addr(1));
    match result {
        Err(HdkExtError::RecordNotFound(AnyDhtAddr::Action(a))) => assert_eq!(a, addr(2)),
        other => panic!("expected RecordNotFound, got {:?}", other),
    }
}

#[test]
fn select_next_picks_earliest_timestamp() {
    let updates = vec![info(2, 1, 30), info(3, 1, 10), info(4, 1, 20)];
    let strategy = EvolutionFilteringStrategy::Unfiltered;
    assert_eq!(select_next(&updates, &strategy), Some(addr(3)));
}

#[test]
fn select_next_tie_breaks_by_list_order() {
    // Equal timestamps: the successor listed first by the store wins.
    let updates = vec![info(2, 1, 10), info(3, 2, 10)];
    let strategy = EvolutionFilteringStrategy::Unfiltered;
    assert_eq!(select_next(&updates, &strategy), Some(addr(2)));
}

#[test]
fn select_next_empty_list_selects_none() {
    let updates: Vec<RecordInfo> = vec![];
    let strategy = EvolutionFilteringStrategy::Unfiltered;
    assert_eq!(select_next(&updates, &strategy), None);
}

#[test]
fn must_get_record_details_present_and_absent() {
    let mut store = RecordStore::new();
    store.insert_record(addr(1), detail(vec![info(2, 1, 10)]));

    let found = store.must_get_record_details(&addr(1)).unwrap();
    assert_eq!(found.updates.len(), 1);
    assert_eq!(found.updates[0].action, addr(2));

    match store.must_get_record_details(&addr(2)) {
        Err(HdkExtError::RecordNotFound(AnyDhtAddr::Action(a))) => assert_eq!(a, addr(2)),
        other => panic!("expected RecordNotFound, got {:?}", other),
    }
}

#[test]
fn anchor_record_address_is_returned_unchanged() {
    // The store plays no part: an empty one answers just as well.
    let store = RecordStore::new();
    let resolved = resolve_action_addr(&store, &AnyLinkableAddr::Action(addr(5))).unwrap();
    assert_eq!(resolved, addr(5));
}

#[test]
fn anchor_entry_address_resolves_through_its_origin() {
    let mut store = RecordStore::new();
    store.insert_entry_origin(EntryAddr(vec![7]), addr(5));

    let resolved =
        resolve_action_addr(&store, &AnyLinkableAddr::Entry(EntryAddr(vec![7]))).unwrap();
    assert_eq!(resolved, addr(5));
}

#[test]
fn anchor_unknown_entry_is_record_not_found() {
    let store = RecordStore::new();
    let result = resolve_action_addr(&store, &AnyLinkableAddr::Entry(EntryAddr(vec![7])));
    match result {
        Err(HdkExtError::RecordNotFound(AnyDhtAddr::Entry(e))) => assert_eq!(e, EntryAddr(vec![7])),
        other => panic!("expected RecordNotFound, got {:?}", other),
    }
}

#[test]
fn anchor_external_address_is_unresolvable() {
    let store = RecordStore::new();
    let result = resolve_action_addr(&store, &AnyLinkableAddr::External(ExternalAddr(vec![8])));
    match result {
        Err(HdkExtError::UnresolvableAddress(x)) => assert_eq!(x, ExternalAddr(vec![8])),
        other => panic!("expected UnresolvableAddress, got {:?}", other),
    }
}

#[test]
fn strategy_decoding_covers_all_four_combinations() {
    let none = FollowEvolutionsInputBuffer { authors: None, exceptions: None };
    assert!(matches!(
        EvolutionFilteringStrategy::from(none),
        EvolutionFilteringStrategy::Unfiltered
    ));

    let authors_only =
        FollowEvolutionsInputBuffer { authors: Some(vec![agent(1)]), exceptions: None };
    match EvolutionFilteringStrategy::from(authors_only) {
        EvolutionFilteringStrategy::AuthoritiesFilter(authors) => {
            assert_eq!(authors, vec![agent(1)])
        },
        other => panic!("expected AuthoritiesFilter, got {:?}", other),
    }

    let exceptions_only =
        FollowEvolutionsInputBuffer { authors: None, exceptions: Some(vec![addr(2)]) };
    match EvolutionFilteringStrategy::from(exceptions_only) {
        EvolutionFilteringStrategy::ExceptionsFilter(exceptions) => {
            assert_eq!(exceptions, vec![addr(2)])
        },
        other => panic!("expected ExceptionsFilter, got {:?}", other),
    }

    let both = FollowEvolutionsInputBuffer {
        authors: Some(vec![agent(1)]),
        exceptions: Some(vec![addr(2)]),
    };
    match EvolutionFilteringStrategy::from(both) {
        EvolutionFilteringStrategy::AuthoritiesExceptionsFilter(authors, exceptions) => {
            assert_eq!(authors, vec![agent(1)]);
            assert_eq!(exceptions, vec![addr(2)]);
        },
        other => panic!("expected AuthoritiesExceptionsFilter, got {:?}", other),
    }
}

#[test]
fn default_strategy_is_unfiltered() {
    assert!(matches!(
        EvolutionFilteringStrategy::default(),
        EvolutionFilteringStrategy::Unfiltered
    ));
}

#[test]
fn traversal_continues_past_a_fork() {
    let mut store = RecordStore::new();
    store.insert_record(addr(1), detail(vec![info(2, 1, 5), info(3, 2, 1)]));
    store.insert_record(addr(2), detail(vec![]));
    store.insert_record(addr(3), detail(vec![info(4, 2, 9)]));
    store.insert_record(addr(4), detail(vec![]));

    // The earliest branch at the fork is addr(3), and the walk keeps going
    // from there.
    let chain = follow_evolutions(&store, &addr(1)).unwrap();
    assert_eq!(chain, vec![addr(1), addr(3), addr(4)]);
}

#[test]
fn several_allowed_authors_are_all_candidates() {
    let mut store = RecordStore::new();
    store.insert_record(addr(1), detail(vec![info(2, 1, 9), info(3, 2, 4)]));
    store.insert_record(addr(2), detail(vec![]));
    store.insert_record(addr(3), detail(vec![]));

    // Both branches are allowed, so the earliest one wins again.
    let chain =
        follow_evolutions_using_authorities(&store, &addr(1), &vec![agent(1), agent(2)]).unwrap();
    assert_eq!(chain, vec![addr(1), addr(3)]);
}

#[test]
fn author_filter_applies_at_every_step() {
    let mut store = RecordStore::new();
    store.insert_record(addr(1), detail(vec![info(2, 2, 1)]));
    store.insert_record(addr(2), detail(vec![info(3, 1, 2)]));
    store.insert_record(addr(3), detail(vec![]));

    // The second hop is authored by an unallowed identity, so the walk stops
    // after the first.
    let chain = follow_evolutions_using_authorities(&store, &addr(1), &vec![agent(2)]).unwrap();
    assert_eq!(chain, vec![addr(1), addr(2)]);
}
