use vstd::prelude::*;

verus! {

/// Byte-for-byte equality of two byte vectors, the primitive behind every
/// address comparison in this crate.
pub(crate) fn bytes_eq(a: &Vec<u8>, b: &Vec<u8>) -> (r: bool)
    ensures
        r == (a@ == b@),
{
    if a.len() != b.len() {
        return false;
    }
    let mut i: usize = 0;
    while i < a.len()
        invariant
            i <= a@.len(),
            a@.len() == b@.len(),
            forall|j: int| 0 <= j < i ==> a@[j] == b@[j],
        decreases a@.len() - i,
    {
        if a[i] != b[i] {
            return false;
        }
        i += 1;
    }
    proof {
        assert(a@ =~= b@);
    }
    true
}

/// An independent copy of a byte vector with the same contents.
pub(crate) fn copy_bytes(v: &Vec<u8>) -> (r: Vec<u8>)
    ensures
        r@ == v@,
{
    let mut out: Vec<u8> = Vec::new();
    let mut i: usize = 0;
    while i < v.len()
        invariant
            i <= v@.len(),
            out@ =~= v@.subrange(0, i as int),
        decreases v@.len() - i,
    {
        out.push(v[i]);
        i += 1;
        proof {
            assert(out@ =~= v@.subrange(0, i as int));
        }
    }
    proof {
        assert(v@.subrange(0, v@.len() as int) =~= v@);
    }
    out
}

/// The content address of an append ("action") record in the ledger.
#[derive(Clone, Debug, PartialEq, Eq)]
pub struct ActionAddr(pub Vec<u8>);

impl View for ActionAddr {
    type V = Seq<u8>;

    open spec fn view(&self) -> Seq<u8> {
        self.0@
    }
}

impl ActionAddr {
    /// An independent copy with the same address bytes.
    pub fn duplicate(&self) -> (r: ActionAddr)
        ensures
            r@ == self@,
    {
        ActionAddr(copy_bytes(&self.0))
    }
}

/// The content address of a piece of immutable entry content.
#[derive(Clone, Debug, PartialEq, Eq)]
pub struct EntryAddr(pub Vec<u8>);

impl View for EntryAddr {
    type V = Seq<u8>;

    open spec fn view(&self) -> Seq<u8> {
        self.0@
    }
}

impl EntryAddr {
    /// An independent copy with the same address bytes.
    pub fn duplicate(&self) -> (r: EntryAddr)
        ensures
            r@ == self@,
    {
        EntryAddr(copy_bytes(&self.0))
    }
}

/// An address from the disjoint external space; no record ever corresponds to it.
#[derive(Clone, Debug, PartialEq, Eq)]
pub struct ExternalAddr(pub Vec<u8>);

impl View for ExternalAddr {
    type V = Seq<u8>;

    open spec fn view(&self) -> Seq<u8> {
        self.0@
    }
}

impl ExternalAddr {
    /// An independent copy with the same address bytes.
    pub fn duplicate(&self) -> (r: ExternalAddr)
        ensures
            r@ == self@,
    {
        ExternalAddr(copy_bytes(&self.0))
    }
}

/// The public identity of an author of records.
#[derive(Clone, Debug, PartialEq, Eq)]
pub struct AgentId(pub Vec<u8>);

impl View for AgentId {
    type V = Seq<u8>;

    open spec fn view(&self) -> Seq<u8> {
        self.0@
    }
}

impl AgentId {
    /// An independent copy with the same identity bytes.
    pub fn duplicate(&self) -> (r: AgentId)
        ensures
            r@ == self@,
    {
        AgentId(copy_bytes(&self.0))
    }
}

/// An address that may denote either a record or entry content.
#[derive(Clone, Debug)]
pub enum AnyDhtAddr {
    Action(ActionAddr),
    Entry(EntryAddr),
}

/// An address of ambiguous kind, as a caller may hold it: a record address, a
/// content address, or an address from the disjoint external space.
#[derive(Clone, Debug)]
pub enum AnyLinkableAddr {
    Action(ActionAddr),
    Entry(EntryAddr),
    External(ExternalAddr),
}

/// An address representing a precise phase in an entity's life-cycle (short
/// for: Metamorphic Address).
///
/// The pair of identity/revision addresses act as coordinates: the identity
/// address names the record that originated the entity's life-cycle, and the
/// revision address names any record within that life-cycle, including the
/// identity record itself.
#[derive(Clone, Debug, PartialEq, Eq)]
pub struct MorphAddr(
    /// The create action of the entity's life-cycle
    pub ActionAddr,
    /// Any entry creation action in the entity's life-cycle
    pub ActionAddr,
);

impl MorphAddr {
    /// An origin coordinate names the same record twice.
    pub open spec fn spec_is_origin(&self) -> bool {
        self.0@ == self.1@
    }

    /// A reference to the tuple's index 0
    pub fn identity(&self) -> (r: &ActionAddr)
        ensures
            r@ == self.0@,
    {
        &self.0
    }

    /// A reference to the tuple's index 1
    pub fn revision(&self) -> (r: &ActionAddr)
        ensures
            r@ == self.1@,
    {
        &self.1
    }

    /// This is an origin metamorphic address if the identity and revision are
    /// the same
    pub fn is_origin(&self) -> (r: bool)
        ensures
            r == self.spec_is_origin(),
    {
        bytes_eq(&self.0.0, &self.1.0)
    }
}

/// A distinct state within the context of a life-cycle: a coordinate paired
/// with the content read from the record at its revision address.
#[derive(Clone, Debug)]
pub struct Entity<T>(
    /// The metamorphic address relevant to `T` (the content)
    pub MorphAddr,
    /// The content that belongs to the [`MorphAddr`]'s revision address
    pub T,
)
where
    T: Clone;

impl<T> Entity<T> where T: Clone {
    /// See [`MorphAddr::identity`]
    pub fn identity(&self) -> (r: &ActionAddr)
        ensures
            r@ == self.0.0@,
    {
        self.0.identity()
    }

    /// See [`MorphAddr::revision`]
    pub fn revision(&self) -> (r: &ActionAddr)
        ensures
            r@ == self.0.1@,
    {
        self.0.revision()
    }

    /// See [`MorphAddr::is_origin`]
    pub fn is_origin(&self) -> (r: bool)
        ensures
            r == self.0.spec_is_origin(),
    {
        self.0.is_origin()
    }
}

} // verus!
