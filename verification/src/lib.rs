//! Resolution of the current logical state of a mutable entity stored as an
//! immutable, content-addressed, append-only chain of records.
//!
//! Records are never mutated in place: "updating" an entity appends a new
//! record that references a prior one, and concurrent writers make the update
//! relation a forking DAG. Starting from an arbitrary record address, the
//! engine here walks forward deterministically, applying a caller-supplied
//! selection policy at every fork, until it reaches the most current record
//! the caller is willing to trust.

pub mod addresses;
pub mod anchors;
pub mod engine;
pub mod errors;
pub mod inputs;
pub mod laws;
pub mod store;
pub mod strategies;

pub use addresses::ActionAddr;
pub use addresses::AgentId;
pub use addresses::AnyDhtAddr;
pub use addresses::AnyLinkableAddr;
pub use addresses::Entity;
pub use addresses::EntryAddr;
pub use addresses::ExternalAddr;
pub use addresses::MorphAddr;
pub use anchors::resolve_action_addr;
pub use engine::follow_evolutions;
pub use engine::follow_evolutions_selector;
pub use engine::follow_evolutions_using_authorities;
pub use engine::follow_evolutions_using_authorities_with_exceptions;
pub use engine::select_next;
pub use errors::HdkExtError;
pub use inputs::GetEntityInput;
pub use inputs::GetLinksInputBuffer;
pub use inputs::UpdateEntryInput;
pub use store::RecordDetail;
pub use store::RecordInfo;
pub use store::RecordStore;
pub use strategies::EvolutionFilteringStrategy;
pub use strategies::FollowEvolutionsInputBuffer;
