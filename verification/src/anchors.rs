use vstd::prelude::*;

use crate::addresses::ActionAddr;
use crate::addresses::AnyDhtAddr;
use crate::addresses::AnyLinkableAddr;
use crate::errors::HdkExtError;
use crate::store::RecordStore;

verus! {

/// Resolve an address of ambiguous kind into the canonical record address the
/// engine walks from.
///
/// If the address already denotes a record it is returned unchanged, and the
/// store plays no part. If it denotes entry content, the one point lookup for
/// the record that created that content answers. An address of the external
/// space never has a corresponding record and fails outright.
pub fn resolve_action_addr(store: &RecordStore, addr: &AnyLinkableAddr) -> (r: Result<
    ActionAddr,
    HdkExtError,
>)
    requires
        store.wf(),
    ensures
        addr matches AnyLinkableAddr::Action(a) ==> (r matches Ok(res) && res@ == a@),
        addr matches AnyLinkableAddr::Entry(e) ==> (if store.origins_view().contains_key(e@) {
            r matches Ok(res) && res@ == store.origins_view()[e@]
        } else {
            r matches Err(HdkExtError::RecordNotFound(AnyDhtAddr::Entry(x))) && x@ == e@
        }),
        addr matches AnyLinkableAddr::External(x) ==> (r matches Err(
            HdkExtError::UnresolvableAddress(y),
        ) && y@ == x@),
{
    match addr {
        AnyLinkableAddr::Action(action_addr) => Ok(action_addr.duplicate()),
        AnyLinkableAddr::Entry(entry_addr) => match store.entry_origin(entry_addr) {
            Some(action_addr) => Ok(action_addr.duplicate()),
            None => Err(HdkExtError::RecordNotFound(AnyDhtAddr::Entry(entry_addr.duplicate()))),
        },
        AnyLinkableAddr::External(external_addr) => Err(
            HdkExtError::UnresolvableAddress(external_addr.duplicate()),
        ),
    }
}

} // verus!
