use vstd::prelude::*;

use crate::addresses::ActionAddr;
use crate::addresses::AgentId;
use crate::addresses::AnyDhtAddr;
use crate::addresses::EntryAddr;
use crate::addresses::bytes_eq;
use crate::errors::HdkExtError;

verus! {

/// What the engine reads of a record: its own address, its author, and its
/// timestamp.
#[derive(Clone, Debug)]
pub struct RecordInfo {
    /// The content address of the record itself
    pub action: ActionAddr,
    /// The public identity that authored the record
    pub author: AgentId,
    /// The record's timestamp, in microseconds
    pub timestamp: i64,
}

/// The mathematical shape of [`RecordInfo`].
pub struct RecordInfoView {
    pub action: Seq<u8>,
    pub author: Seq<u8>,
    pub timestamp: int,
}

impl View for RecordInfo {
    type V = RecordInfoView;

    open spec fn view(&self) -> RecordInfoView {
        RecordInfoView { action: self.action@, author: self.author@, timestamp: self.timestamp as int }
    }
}

/// The views of a list of records, element for element.
pub open spec fn update_views(s: Seq<RecordInfo>) -> Seq<RecordInfoView> {
    s.map_values(|u: RecordInfo| u@)
}

/// A record's detail view: the full list of its known direct successors, the
/// records that claim to update it. The list is monotonically non-decreasing
/// over time at the real store; a fixed value of this type is one point-in-time
/// snapshot of it.
#[derive(Clone, Debug)]
pub struct RecordDetail {
    pub updates: Vec<RecordInfo>,
}

impl View for RecordDetail {
    type V = Seq<RecordInfoView>;

    open spec fn view(&self) -> Seq<RecordInfoView> {
        update_views(self.updates@)
    }
}

/// No two rows of the record table share an address.
pub open spec fn record_keys_unique(s: Seq<(ActionAddr, RecordDetail)>) -> bool {
    forall|i: int, j: int| 0 <= i < j < s.len() ==> (#[trigger] s[i]).0@ != (#[trigger] s[j]).0@
}

/// No two rows of the entry-origin table share an entry address.
pub open spec fn origin_keys_unique(s: Seq<(EntryAddr, ActionAddr)>) -> bool {
    forall|i: int, j: int| 0 <= i < j < s.len() ==> (#[trigger] s[i]).0@ != (#[trigger] s[j]).0@
}

/// The record table as a map from address to detail view.
pub closed spec fn records_map(s: Seq<(ActionAddr, RecordDetail)>) -> Map<Seq<u8>, Seq<RecordInfoView>>
    decreases s.len(),
{
    if s.len() == 0 {
        Map::empty()
    } else {
        records_map(s.drop_last()).insert(s.last().0@, s.last().1@)
    }
}

/// The entry-origin table as a map from entry address to the address of the
/// record that created that entry.
pub closed spec fn origins_map(s: Seq<(EntryAddr, ActionAddr)>) -> Map<Seq<u8>, Seq<u8>>
    decreases s.len(),
{
    if s.len() == 0 {
        Map::empty()
    } else {
        origins_map(s.drop_last()).insert(s.last().0@, s.last().1@)
    }
}

proof fn lemma_records_map_domain(s: Seq<(ActionAddr, RecordDetail)>)
    ensures
        forall|k: Seq<u8>|
            records_map(s).contains_key(k) <==> exists|i: int|
                0 <= i < s.len() && (#[trigger] s[i]).0@ == k,
    decreases s.len(),
{
    if s.len() > 0 {
        lemma_records_map_domain(s.drop_last());
        assert forall|k: Seq<u8>| records_map(s).contains_key(k) implies exists|i: int|
            0 <= i < s.len() && (#[trigger] s[i]).0@ == k by {
            let m_prev = records_map(s.drop_last());
            assert(records_map(s) == m_prev.insert(s.last().0@, s.last().1@));
            if k == s.last().0@ {
                assert((s[s.len() - 1]).0@ == k);
            } else {
                assert(m_prev.contains_key(k));
                let i = choose|i: int|
                    0 <= i < s.drop_last().len() && (#[trigger] s.drop_last()[i]).0@ == k;
                assert(s.drop_last()[i] == s[i]);
                assert((s[i]).0@ == k);
            }
        }
        assert forall|k: Seq<u8>| (exists|i: int| 0 <= i < s.len() && (#[trigger] s[i]).0@ == k)
            implies records_map(s).contains_key(k) by {
            let m_prev = records_map(s.drop_last());
            assert(records_map(s) == m_prev.insert(s.last().0@, s.last().1@));
            let i = choose|i: int| 0 <= i < s.len() && (#[trigger] s[i]).0@ == k;
            if i < s.len() - 1 {
                assert(s.drop_last()[i].0@ == k);
                assert(m_prev.contains_key(k));
            } else {
                assert(k == s.last().0@);
            }
        }
    }
}

proof fn lemma_records_map_at(s: Seq<(ActionAddr, RecordDetail)>, i: int)
    requires
        record_keys_unique(s),
        0 <= i < s.len(),
    ensures
        records_map(s).contains_key(s[i].0@),
        records_map(s)[s[i].0@] == s[i].1@,
    decreases s.len(),
{
    if i == s.len() - 1 {
    } else {
        assert(record_keys_unique(s.drop_last()));
        assert(s.drop_last()[i] == s[i]);
        lemma_records_map_at(s.drop_last(), i);
        assert(s[i].0@ != s.last().0@);
    }
}

proof fn lemma_origins_map_domain(s: Seq<(EntryAddr, ActionAddr)>)
    ensures
        forall|k: Seq<u8>|
            origins_map(s).contains_key(k) <==> exists|i: int|
                0 <= i < s.len() && (#[trigger] s[i]).0@ == k,
    decreases s.len(),
{
    if s.len() > 0 {
        lemma_origins_map_domain(s.drop_last());
        assert forall|k: Seq<u8>| origins_map(s).contains_key(k) implies exists|i: int|
            0 <= i < s.len() && (#[trigger] s[i]).0@ == k by {
            let m_prev = origins_map(s.drop_last());
            assert(origins_map(s) == m_prev.insert(s.last().0@, s.last().1@));
            if k == s.last().0@ {
                assert((s[s.len() - 1]).0@ == k);
            } else {
                assert(m_prev.contains_key(k));
                let i = choose|i: int|
                    0 <= i < s.drop_last().len() && (#[trigger] s.drop_last()[i]).0@ == k;
                assert(s.drop_last()[i] == s[i]);
                assert((s[i]).0@ == k);
            }
        }
        assert forall|k: Seq<u8>| (exists|i: int| 0 <= i < s.len() && (#[trigger] s[i]).0@ == k)
            implies origins_map(s).contains_key(k) by {
            let m_prev = origins_map(s.drop_last());
            assert(origins_map(s) == m_prev.insert(s.last().0@, s.last().1@));
            let i = choose|i: int| 0 <= i < s.len() && (#[trigger] s[i]).0@ == k;
            if i < s.len() - 1 {
                assert(s.drop_last()[i].0@ == k);
                assert(m_prev.contains_key(k));
            } else {
                assert(k == s.last().0@);
            }
        }
    }
}

proof fn lemma_origins_map_at(s: Seq<(EntryAddr, ActionAddr)>, i: int)
    requires
        origin_keys_unique(s),
        0 <= i < s.len(),
    ensures
        origins_map(s).contains_key(s[i].0@),
        origins_map(s)[s[i].0@] == s[i].1@,
    decreases s.len(),
{
    if i == s.len() - 1 {
    } else {
        assert(origin_keys_unique(s.drop_last()));
        assert(s.drop_last()[i] == s[i]);
        lemma_origins_map_at(s.drop_last(), i);
        assert(s[i].0@ != s.last().0@);
    }
}

/// A point-in-time snapshot of the record access facade: point lookup of a
/// record's detail by record address, and of the record that created a piece
/// of entry content by entry address.
///
/// This is the engine's model of the external store; the values a deployment
/// reads over its transport are handed over in this shape.
pub struct RecordStore {
    records: Vec<(ActionAddr, RecordDetail)>,
    entry_origins: Vec<(EntryAddr, ActionAddr)>,
}

impl RecordStore {
    /// Both tables are keyed uniquely.
    pub closed spec fn wf(&self) -> bool {
        record_keys_unique(self.records@) && origin_keys_unique(self.entry_origins@)
    }

    /// The known records: a map from record address to the detail view there.
    pub closed spec fn records_view(&self) -> Map<Seq<u8>, Seq<RecordInfoView>> {
        records_map(self.records@)
    }

    /// The known entry origins: a map from entry address to the address of the
    /// record that created that entry.
    pub closed spec fn origins_view(&self) -> Map<Seq<u8>, Seq<u8>> {
        origins_map(self.entry_origins@)
    }

    /// An empty snapshot.
    pub fn new() -> (r: RecordStore)
        ensures
            r.wf(),
            r.records_view() == Map::<Seq<u8>, Seq<RecordInfoView>>::empty(),
            r.origins_view() == Map::<Seq<u8>, Seq<u8>>::empty(),
    {
        RecordStore { records: Vec::new(), entry_origins: Vec::new() }
    }

    /// Add one record and its successor list to the snapshot.
    pub fn insert_record(&mut self, addr: ActionAddr, detail: RecordDetail)
        requires
            old(self).wf(),
            !old(self).records_view().contains_key(addr@),
        ensures
            final(self).wf(),
            final(self).records_view() == old(self).records_view().insert(addr@, detail@),
            final(self).origins_view() == old(self).origins_view(),
    {
        proof {
            lemma_records_map_domain(self.records@);
        }
        let ghost old_records = self.records@;
        self.records.push((addr, detail));
        proof {
            assert(self.records@.drop_last() =~= old_records);
            assert forall|i: int, j: int| 0 <= i < j < self.records@.len() implies (
                #[trigger] self.records@[i]).0@ != (#[trigger] self.records@[j]).0@ by {
                if j == self.records@.len() - 1 {
                    assert(old_records[i].0@ != addr@);
                }
            }
        }
    }

    /// Record which record created a piece of entry content.
    pub fn insert_entry_origin(&mut self, entry: EntryAddr, action: ActionAddr)
        requires
            old(self).wf(),
            !old(self).origins_view().contains_key(entry@),
        ensures
            final(self).wf(),
            final(self).origins_view() == old(self).origins_view().insert(entry@, action@),
            final(self).records_view() == old(self).records_view(),
    {
        proof {
            lemma_origins_map_domain(self.entry_origins@);
        }
        let ghost old_origins = self.entry_origins@;
        self.entry_origins.push((entry, action));
        proof {
            assert(self.entry_origins@.drop_last() =~= old_origins);
            assert forall|i: int, j: int| 0 <= i < j < self.entry_origins@.len() implies (
                #[trigger] self.entry_origins@[i]).0@ != (#[trigger] self.entry_origins@[j]).0@ by {
                if j == self.entry_origins@.len() - 1 {
                    assert(old_origins[i].0@ != entry@);
                }
            }
        }
    }

    /// Fetch the detail view for a record address, or the "not found" error.
    ///
    /// An `Ok` result is always a record's detail: in this model the record
    /// table only ever maps record addresses to record details, so the
    /// defensive unexpected-kind failure of a live store cannot arise here.
    pub fn must_get_record_details(&self, action: &ActionAddr) -> (r: Result<
        &RecordDetail,
        HdkExtError,
    >)
        requires
            self.wf(),
        ensures
            self.records_view().contains_key(action@) ==> (r matches Ok(d) && d@
                == self.records_view()[action@]),
            !self.records_view().contains_key(action@) ==> (r matches Err(
                HdkExtError::RecordNotFound(AnyDhtAddr::Action(a)),
            ) && a@ == action@),
    {
        let mut i: usize = 0;
        while i < self.records.len()
            invariant
                self.wf(),
                i <= self.records@.len(),
                forall|j: int| 0 <= j < i ==> (#[trigger] self.records@[j]).0@ != action@,
            decreases self.records@.len() - i,
        {
            if bytes_eq(&self.records[i].0.0, &action.0) {
                proof {
                    lemma_records_map_at(self.records@, i as int);
                }
                return Ok(&self.records[i].1);
            }
            i += 1;
        }
        proof {
            lemma_records_map_domain(self.records@);
        }
        Err(HdkExtError::RecordNotFound(AnyDhtAddr::Action(action.duplicate())))
    }

    /// Look up the record that created a piece of entry content.
    pub fn entry_origin(&self, entry: &EntryAddr) -> (r: Option<&ActionAddr>)
        requires
            self.wf(),
        ensures
            self.origins_view().contains_key(entry@) ==> (r matches Some(a) && a@
                == self.origins_view()[entry@]),
            !self.origins_view().contains_key(entry@) ==> r is None,
    {
        let mut i: usize = 0;
        while i < self.entry_origins.len()
            invariant
                self.wf(),
                i <= self.entry_origins@.len(),
                forall|j: int| 0 <= j < i ==> (#[trigger] self.entry_origins@[j]).0@ != entry@,
            decreases self.entry_origins@.len() - i,
        {
            if bytes_eq(&self.entry_origins[i].0.0, &entry.0) {
                proof {
                    lemma_origins_map_at(self.entry_origins@, i as int);
                }
                return Some(&self.entry_origins[i].1);
            }
            i += 1;
        }
        proof {
            lemma_origins_map_domain(self.entry_origins@);
        }
        None
    }
}

} // verus!
