use vstd::prelude::*;

use crate::addresses::ActionAddr;
use crate::addresses::AnyDhtAddr;
use crate::addresses::ExternalAddr;

verus! {

/// The terminal failures of one resolution request.
///
/// None are retried internally; a transient store miss and a genuinely absent
/// address are indistinguishable at this layer.
#[derive(Clone, Debug)]
pub enum HdkExtError {
    /// The address resolves to nothing at the store.
    RecordNotFound(AnyDhtAddr),
    /// A record was fetched for its entry content, but carries none.
    RecordHasNoEntry(ActionAddr),
    /// The address resolves to entry content where a record was required.
    ExpectedRecordNotEntry(ActionAddr),
    /// The address belongs to the external space, which never has a
    /// corresponding record.
    UnresolvableAddress(ExternalAddr),
}

} // verus!
