//! A named, shared-object registry: a map from string names to opaque
//! JSON-like values, built for concurrent callers that attach a value under a
//! name, look an existing one up through non-owning references, and have the
//! entry removed automatically when the attaching flow ends.

mod laws;
mod object;
mod registry;
mod service;
mod worker;

pub use laws::lemma_attach_exclusion;
pub use laws::lemma_lifecycle_tie;
pub use laws::lemma_reattach_no_resurrection;
pub use laws::lemma_remove_absent;
pub use laws::lemma_removal_unresolvable;
pub use laws::lemma_removed_reference_resolves_nowhere;
pub use object::JsonValue;
pub use object::SharedObject;
pub use registry::AlreadyExists;
pub use registry::NotFound;
pub use registry::Registry;
pub use registry::WeakRef;
pub use registry::ids_unique;
pub use registry::map_has_id;
pub use service::Routed;
pub use service::SharedService;
pub use service::unknown_action_msg;
pub use worker::Capabilities;
pub use worker::Completion;
pub use worker::Outcome;
pub use worker::Request;
pub use worker::SharedPermission;
pub use worker::UpdateWorker;
pub use worker::already_attached_msg;
pub use worker::name_missing_msg;
pub use worker::no_permission_msg;
pub use worker::not_attached_msg;
pub use worker::object_missing_msg;
pub use worker::prepare_post;
