use vstd::prelude::*;

use crate::addresses::ActionAddr;
use crate::addresses::MorphAddr;
use crate::engine::Walk;
use crate::engine::best;
use crate::engine::candidate;
use crate::engine::lemma_walk_result_agrees;
use crate::engine::lemma_walk_shape;
use crate::engine::selected;
use crate::engine::walk;
use crate::engine::walk_result;
use crate::engine::walk_terminates;
use crate::store::RecordInfoView;
use crate::strategies::StrategyView;

verus! {

/// A newly created entity's coordinate names its create record twice and is an
/// origin; as soon as a later append supplies a distinct revision address, the
/// coordinate is an origin no more.
pub proof fn lemma_origin_property(a: ActionAddr, b: ActionAddr)
    requires
        a@ != b@,
    ensures
        MorphAddr(a, a).spec_is_origin(),
        !MorphAddr(a, b).spec_is_origin(),
{
}

/// What a policy picks from a successor list of one.
proof fn lemma_best_single(u: RecordInfoView, strat: StrategyView)
    ensures
        candidate(u, strat) ==> best(seq![u], strat) == Some(u),
        !candidate(u, strat) ==> best(seq![u], strat) is None,
{
    assert(seq![u].drop_last() =~= Seq::<RecordInfoView>::empty());
    assert(seq![u].last() == u);
    assert(best(Seq::<RecordInfoView>::empty(), strat) is None);
}

/// What a policy picks from a successor list of two.
proof fn lemma_best_pair(u1: RecordInfoView, u2: RecordInfoView, strat: StrategyView)
    ensures
        (candidate(u1, strat) && candidate(u2, strat) && u2.timestamp < u1.timestamp) ==> best(
            seq![u1, u2],
            strat,
        ) == Some(u2),
        (candidate(u1, strat) && candidate(u2, strat) && u1.timestamp <= u2.timestamp) ==> best(
            seq![u1, u2],
            strat,
        ) == Some(u1),
        (candidate(u1, strat) && !candidate(u2, strat)) ==> best(seq![u1, u2], strat) == Some(u1),
        (!candidate(u1, strat) && candidate(u2, strat)) ==> best(seq![u1, u2], strat) == Some(u2),
        (!candidate(u1, strat) && !candidate(u2, strat)) ==> best(seq![u1, u2], strat) is None,
{
    lemma_best_single(u1, strat);
    assert(seq![u1, u2].drop_last() =~= seq![u1]);
    assert(seq![u1, u2].last() == u2);
}

/// What the selection rule guarantees of any successor list: a policy picks
/// nothing exactly where no successor is a candidate, and what it picks is a
/// candidate from the list whose timestamp is no later than any candidate's.
pub proof fn lemma_best_characterization(updates: Seq<RecordInfoView>, strat: StrategyView)
    ensures
        (best(updates, strat) is None) <==> (forall|i: int|
            0 <= i < updates.len() ==> !candidate(#[trigger] updates[i], strat)),
        best(updates, strat) matches Some(b) ==> candidate(b, strat) && (exists|i: int|
            0 <= i < updates.len() && #[trigger] updates[i] == b),
        best(updates, strat) matches Some(b) ==> (forall|i: int|
            0 <= i < updates.len() && candidate(#[trigger] updates[i], strat) ==> b.timestamp
                <= updates[i].timestamp),
    decreases updates.len(),
{
    if updates.len() > 0 {
        let prev = updates.drop_last();
        let last = updates.last();
        lemma_best_characterization(prev, strat);
        assert(forall|i: int| 0 <= i < prev.len() ==> #[trigger] prev[i] == updates[i]);
        assert(updates[updates.len() - 1] == last);
        match best(updates, strat) {
            Option::None => {
                assert(best(prev, strat) is None);
                assert(!candidate(last, strat));
                assert forall|i: int| 0 <= i < updates.len() implies !candidate(
                    #[trigger] updates[i],
                    strat,
                ) by {
                    if i < updates.len() - 1 {
                        assert(prev[i] == updates[i]);
                        assert(!candidate(prev[i], strat));
                    }
                }
            },
            Option::Some(b) => {
                match best(prev, strat) {
                    Option::None => {
                        assert(candidate(last, strat) && b == last);
                        assert(updates[updates.len() - 1] == b);
                        assert forall|i: int|
                            0 <= i < updates.len() && candidate(
                                #[trigger] updates[i],
                                strat,
                            ) implies b.timestamp <= updates[i].timestamp by {
                            if i < updates.len() - 1 {
                                assert(prev[i] == updates[i]);
                                assert(!candidate(prev[i], strat));
                            }
                        }
                    },
                    Option::Some(pb) => {
                        if candidate(last, strat) && last.timestamp < pb.timestamp {
                            assert(b == last);
                            assert(updates[updates.len() - 1] == b);
                        } else {
                            assert(b == pb);
                            let j = choose|j: int| 0 <= j < prev.len() && #[trigger] prev[j] == pb;
                            assert(updates[j] == b);
                        }
                        assert forall|i: int|
                            0 <= i < updates.len() && candidate(
                                #[trigger] updates[i],
                                strat,
                            ) implies b.timestamp <= updates[i].timestamp by {
                            if i < updates.len() - 1 {
                                assert(prev[i] == updates[i]);
                                assert(pb.timestamp <= prev[i].timestamp);
                            }
                        }
                    },
                }
            },
        }
    }
}

/// A record with no successors is its own terminal state: the walk from it
/// returns the one-element chain of its own address, under every policy.
pub proof fn lemma_reflexive_chain(
    records: Map<Seq<u8>, Seq<RecordInfoView>>,
    strat: StrategyView,
    addr: Seq<u8>,
)
    requires
        records.contains_key(addr),
        records[addr] =~= Seq::<RecordInfoView>::empty(),
    ensures
        walk_terminates(records, strat, addr),
        walk_result(records, strat, addr) == Walk::Done(seq![addr]),
{
    assert(best(records[addr], strat) is None);
    assert(walk(records, strat, addr, 1) == Walk::Done(seq![addr]));
    lemma_walk_result_agrees(records, strat, addr, 1);
}

/// A linear chain with no forks is walked to its end: from `a` over `b` to the
/// terminal `c`, and the outcome is a function of the snapshot alone, the same
/// on every repetition.
pub proof fn lemma_linear_chain(
    records: Map<Seq<u8>, Seq<RecordInfoView>>,
    a: Seq<u8>,
    b: Seq<u8>,
    c: Seq<u8>,
    ub: RecordInfoView,
    uc: RecordInfoView,
)
    requires
        records.contains_key(a),
        records.contains_key(b),
        records.contains_key(c),
        records[a] =~= seq![ub],
        ub.action == b,
        records[b] =~= seq![uc],
        uc.action == c,
        records[c] =~= Seq::<RecordInfoView>::empty(),
        ub.timestamp < uc.timestamp,
    ensures
        walk_terminates(records, StrategyView::Unfiltered, a),
        walk_result(records, StrategyView::Unfiltered, a) == Walk::Done(seq![a, b, c]),
{
    let strat = StrategyView::Unfiltered;
    lemma_best_single(ub, strat);
    lemma_best_single(uc, strat);
    assert(selected(records[a], strat) == Some(b));
    assert(selected(records[b], strat) == Some(c));
    assert(best(records[c], strat) is None);
    assert(walk(records, strat, c, 1) == Walk::Done(seq![c]));
    assert(walk(records, strat, b, 2) == Walk::Done(seq![b] + seq![c]));
    assert(walk(records, strat, a, 3) == Walk::Done(seq![a] + (seq![b] + seq![c])));
    assert(seq![a] + (seq![b] + seq![c]) =~= seq![a, b, c]);
    lemma_walk_result_agrees(records, strat, a, 3);
}

/// A finished walk starts at the start address, and its second element is the
/// successor the policy selects there; where the policy selects none, the
/// chain is the start address alone.
pub proof fn lemma_walk_first_step(
    records: Map<Seq<u8>, Seq<RecordInfoView>>,
    strat: StrategyView,
    addr: Seq<u8>,
)
    requires
        records.contains_key(addr),
        walk_terminates(records, strat, addr),
    ensures
        walk_result(records, strat, addr) matches Walk::Done(chain) ==> chain.len() >= 1 && chain[0]
            == addr && (selected(records[addr], strat) matches Some(n) ==> chain.len() >= 2
            && chain[1] == n),
        selected(records[addr], strat) is None ==> walk_result(records, strat, addr) == Walk::Done(
            seq![addr],
        ),
{
    let fuel = choose|f: nat| !((#[trigger] walk(records, strat, addr, f)) is Short);
    lemma_walk_result_agrees(records, strat, addr, fuel);
    if fuel == 0 {
        assert(walk(records, strat, addr, fuel) is Short);
    }
    match selected(records[addr], strat) {
        Option::None => {
            assert(walk(records, strat, addr, fuel) == Walk::Done(seq![addr]));
        },
        Option::Some(n) => {
            lemma_walk_shape(records, strat, n, (fuel - 1) as nat);
            match walk(records, strat, n, (fuel - 1) as nat) {
                Walk::Done(tail) => {
                    assert(walk(records, strat, addr, fuel) == Walk::Done(seq![addr] + tail));
                    assert((seq![addr] + tail)[0] == addr);
                    assert((seq![addr] + tail)[1] == tail[0]);
                },
                Walk::Missing(_, _) => {},
                Walk::Short => {},
            }
        },
    }
}

/// Fork resolution. At a fork with two candidate successors the earliest
/// timestamp wins; under an authority filter only the allowed author's branch
/// is a candidate, even where it is not the earliest.
pub proof fn lemma_fork_resolution(
    ub: RecordInfoView,
    uc: RecordInfoView,
    x: Seq<u8>,
    y: Seq<u8>,
)
    requires
        ub.author == x,
        uc.author == y,
        x != y,
        ub.timestamp < uc.timestamp,
    ensures
        selected(seq![ub, uc], StrategyView::Unfiltered) == Some(ub.action),
        selected(seq![ub, uc], StrategyView::Authorities(seq![y])) == Some(uc.action),
{
    lemma_best_pair(ub, uc, StrategyView::Unfiltered);
    assert(seq![y][0] == y);
    assert(seq![y].contains(y));
    if seq![y].contains(x) {
        let i = choose|i: int| 0 <= i < seq![y].len() && seq![y][i] == x;
        assert(false);
    }
    lemma_best_pair(ub, uc, StrategyView::Authorities(seq![y]));
}

/// The exception escape hatch: a successor whose own address is whitelisted is
/// followed even though no author at all is allowed.
pub proof fn lemma_exception_escape(ub: RecordInfoView, uc: RecordInfoView)
    requires
        ub.action != uc.action,
        ub.timestamp < uc.timestamp,
    ensures
        selected(
            seq![ub, uc],
            StrategyView::AuthoritiesExceptions(Seq::empty(), seq![uc.action]),
        ) == Some(uc.action),
{
    let strat = StrategyView::AuthoritiesExceptions(Seq::empty(), seq![uc.action]);
    assert(seq![uc.action][0] == uc.action);
    assert(seq![uc.action].contains(uc.action));
    if Seq::<Seq<u8>>::empty().contains(ub.author) {
        let i = choose|i: int|
            0 <= i < Seq::<Seq<u8>>::empty().len() && Seq::<Seq<u8>>::empty()[i] == ub.author;
        assert(false);
    }
    if Seq::<Seq<u8>>::empty().contains(uc.author) {
        let i = choose|i: int|
            0 <= i < Seq::<Seq<u8>>::empty().len() && Seq::<Seq<u8>>::empty()[i] == uc.author;
        assert(false);
    }
    if seq![uc.action].contains(ub.action) {
        let i = choose|i: int| 0 <= i < seq![uc.action].len() && seq![uc.action][i] == ub.action;
        assert(false);
    }
    lemma_best_pair(ub, uc, strat);
}

/// Starvation: where a record's only successor is authored by nobody the
/// policy allows, the walk stops there with the one-element chain; it does not
/// fail.
pub proof fn lemma_starvation(
    records: Map<Seq<u8>, Seq<RecordInfoView>>,
    a: Seq<u8>,
    uz: RecordInfoView,
    y: Seq<u8>,
)
    requires
        records.contains_key(a),
        records[a] =~= seq![uz],
        uz.author != y,
    ensures
        walk_terminates(records, StrategyView::Authorities(seq![y]), a),
        walk_result(records, StrategyView::Authorities(seq![y]), a) == Walk::Done(seq![a]),
{
    let strat = StrategyView::Authorities(seq![y]);
    if seq![y].contains(uz.author) {
        let i = choose|i: int| 0 <= i < seq![y].len() && seq![y][i] == uz.author;
        assert(seq![y][0] == y);
        assert(false);
    }
    lemma_best_single(uz, strat);
    assert(best(records[a], strat) is None);
    assert(walk(records, strat, a, 1) == Walk::Done(seq![a]));
    lemma_walk_result_agrees(records, strat, a, 1);
}

} // verus!
