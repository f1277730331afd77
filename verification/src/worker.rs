use vstd::prelude::*;
use vstd::string::StringExecFns;

use crate::object::SharedObject;
use crate::registry::Registry;
use crate::registry::WeakRef;
use crate::registry::map_has_id;

verus! {

/// The permissions this service distinguishes.
#[derive(Debug, Clone, Copy, PartialEq, Eq)]
pub enum SharedPermission {
    /// Attach new object
    CanAttach,
    /// Can connect, listen to updates, and send updates
    CanUpdate,
}

/// The capability surface of one caller, as the surrounding authentication
/// layer resolved it before handing the operation to the core.
#[derive(Debug, Clone, Copy, PartialEq, Eq)]
pub struct Capabilities {
    pub can_attach: bool,
    pub can_update: bool,
}

impl Capabilities {
    /// Does this caller hold the permission `p`?
    pub open spec fn spec_has(self, p: SharedPermission) -> bool {
        match p {
            SharedPermission::CanAttach => self.can_attach,
            SharedPermission::CanUpdate => self.can_update,
        }
    }

    /// The run-time check of `spec_has`.
    pub fn has_permission(&self, p: &SharedPermission) -> (b: bool)
        ensures
            b == self.spec_has(*p),
    {
        match p {
            SharedPermission::CanAttach => self.can_attach,
            SharedPermission::CanUpdate => self.can_update,
        }
    }
}

/// One inbound operation record, already parsed by the surrounding transport
/// layer: the action to route on, the target name, and — for an attach — the
/// value to store. A field the transport could not extract as the right
/// shape arrives as `None`.
#[derive(Debug)]
pub struct Request {
    pub action: String,
    pub name: Option<String>,
    pub object: Option<SharedObject>,
}

/// What a validation step hands back to the routing layer.
#[derive(Debug, PartialEq, Eq)]
pub enum Outcome {
    /// The operation is accepted; the flow continues to completion.
    Proceed,
    /// An expected, caller-recoverable refusal, with its reason.
    Reject(String),
    /// A terminal capability or malformed-input failure, with its reason.
    Error(String),
}

/// What the completion step hands back: this design has a single
/// request/response round trip per operation, so completion only signals.
#[derive(Debug, Clone, Copy, PartialEq, Eq)]
pub enum Completion {
    Done,
}

/// The reason given when the caller lacks the attach capability.
pub open spec fn no_permission_msg() -> Seq<char> {
    "You haven't permissions."@
}

/// The reason given when the request carries no usable `name` field.
pub open spec fn name_missing_msg() -> Seq<char> {
    "name of shared object not set"@
}

/// The reason given when an attach request carries no usable `object` field.
pub open spec fn object_missing_msg() -> Seq<char> {
    "object not provided"@
}

/// The rejection reason for an attach of an already-present name.
pub open spec fn already_attached_msg(n: Seq<char>) -> Seq<char> {
    "name '"@ + n + "' already attached"@
}

/// The rejection reason for an update of an absent name.
pub open spec fn not_attached_msg(n: Seq<char>) -> Seq<char> {
    "name '"@ + n + "' hasn't attached"@
}

/// Build `prefix + middle + suffix` as one message string.
pub(crate) fn quoted_message(prefix: &str, middle: &str, suffix: &str) -> (m: String)
    ensures
        m@ == prefix@ + middle@ + suffix@,
{
    let m = prefix.to_owned();
    let m = m.concat(middle);
    m.concat(suffix)
}

/// Everything the validation step promises, stated over the registry's model
/// before (`pre`) and after (`post`), the issue counter before and after, and
/// the handle's recorded obligation and reference after the step.
pub open spec fn prepare_post(
    attach: bool,
    caller: Capabilities,
    request: Request,
    pre: Map<Seq<char>, (u64, SharedObject)>,
    post: Map<Seq<char>, (u64, SharedObject)>,
    pre_issued: u64,
    post_issued: u64,
    obligation: Option<Seq<char>>,
    held: Option<WeakRef>,
    out: Outcome,
) -> bool {
    if !caller.spec_has(SharedPermission::CanAttach) {
        // The capability gate comes first: no registry access has happened.
        &&& (out matches Outcome::Error(m) && m@ == no_permission_msg())
        &&& post == pre
        &&& post_issued == pre_issued
        &&& obligation is None
        &&& held is None
    } else {
        match request.name {
            None => {
                &&& (out matches Outcome::Error(m) && m@ == name_missing_msg())
                &&& post == pre
                &&& post_issued == pre_issued
                &&& obligation is None
                &&& held is None
            },
            Some(n) => if attach {
                match request.object {
                    None => {
                        &&& (out matches Outcome::Error(m) && m@ == object_missing_msg())
                        &&& post == pre
                        &&& post_issued == pre_issued
                        &&& obligation is None
                        &&& held is None
                    },
                    Some(o) => if pre.contains_key(n@) {
                        &&& (out matches Outcome::Reject(m) && m@ == already_attached_msg(n@))
                        &&& post == pre
                        &&& post_issued == pre_issued
                        &&& obligation is None
                        &&& held is None
                    } else {
                        &&& out is Proceed
                        &&& (held matches Some(w) && {
                            &&& post == pre.insert(n@, (w.id(), o))
                            &&& w.id() == pre_issued
                            &&& !map_has_id(pre, w.id())
                        })
                        &&& obligation == Some(n@)
                        &&& post_issued == pre_issued + 1
                    },
                }
            } else {
                if pre.contains_key(n@) {
                    &&& out is Proceed
                    &&& post == pre
                    &&& post_issued == pre_issued
                    &&& (held matches Some(w) && w.id() == pre[n@].0)
                    &&& obligation is None
                } else {
                    &&& (out matches Outcome::Reject(m) && m@ == not_attached_msg(n@))
                    &&& post == pre
                    &&& post_issued == pre_issued
                    &&& obligation is None
                    &&& held is None
                }
            },
        }
    }
}

/// The per-operation session handle. It is created for one inbound attach or
/// update operation, validates it against the registry exactly once, and —
/// only if it performed the attach — carries the obligation to remove the
/// name again when the flow ends.
pub struct UpdateWorker {
    drop_name: Option<String>,
    attach: bool,
    object: Option<WeakRef>,
}

impl UpdateWorker {
    /// Is this handle in attach mode (as opposed to update/lookup mode)?
    pub closed spec fn is_attach(self) -> bool {
        self.attach
    }

    /// The name this handle must remove on teardown, if it attached one.
    pub closed spec fn obligation(self) -> Option<Seq<char>> {
        match self.drop_name {
            Some(n) => Some(n@),
            None => None,
        }
    }

    /// The non-owning reference recorded during validation, if any.
    pub closed spec fn held_ref(self) -> Option<WeakRef> {
        self.object
    }

    /// A fresh handle for one operation, in attach or update mode.
    pub fn new(attach: bool) -> (w: UpdateWorker)
        ensures
            w.is_attach() == attach,
            w.obligation() is None,
            w.held_ref() is None,
    {
        UpdateWorker { drop_name: None, attach, object: None }
    }

    /// The run-time read of `held_ref`, so a caller can keep the reference.
    pub fn object_ref(&self) -> (r: Option<WeakRef>)
        ensures
            r == self.held_ref(),
    {
        self.object
    }

    /// Validate one operation: gate on the caller's capability, extract the
    /// target name (and, when attaching, the value), then perform the one
    /// registry operation of this flow. Only a successful attach records the
    /// teardown obligation.
    pub fn prepare(&mut self, registry: &mut Registry, caller: &Capabilities, request: Request)
        -> (out: Outcome)
        requires
            old(registry).wf(),
            old(self).obligation() is None,
            old(self).held_ref() is None,
            old(self).is_attach() ==> old(registry).has_spare_ids(),
        ensures
            final(registry).wf(),
            final(self).is_attach() == old(self).is_attach(),
            prepare_post(
                old(self).is_attach(),
                *caller,
                request,
                old(registry)@,
                final(registry)@,
                old(registry).issued(),
                final(registry).issued(),
                final(self).obligation(),
                final(self).held_ref(),
                out,
            ),
    {
        if !caller.has_permission(&SharedPermission::CanAttach) {
            return Outcome::Error("You haven't permissions.".to_owned());
        }
        let Request { action: _, name: name_opt, object: object_opt } = request;
        let name = match name_opt {
            Some(n) => n,
            None => {
                return Outcome::Error("name of shared object not set".to_owned());
            },
        };
        if self.attach {
            let object = match object_opt {
                Some(o) => o,
                None => {
                    return Outcome::Error("object not provided".to_owned());
                },
            };
            match registry.try_attach(name.clone(), object) {
                Ok(w) => {
                    self.object = Some(w);
                    self.drop_name = Some(name);
                    Outcome::Proceed
                },
                Err(_) => Outcome::Reject(
                    quoted_message("name '", name.as_str(), "' already attached"),
                ),
            }
        } else {
            match registry.lookup(&name) {
                Ok(w) => {
                    self.object = Some(w);
                    Outcome::Proceed
                },
                Err(_) => Outcome::Reject(
                    quoted_message("name '", name.as_str(), "' hasn't attached"),
                ),
            }
        }
    }

    /// Complete the operation: this flow has no further registry
    /// interaction, it only signals that it is done.
    pub fn realize(&mut self, _caller: &Capabilities, _followup: Option<Request>)
        -> (r: Completion)
        ensures
            r is Done,
            *final(self) == *old(self),
    {
        Completion::Done
    }

    /// Discharge the teardown obligation: if this handle attached a name,
    /// remove it from the registry; otherwise leave the registry alone. The
    /// obligation is cleared, so it fires at most once per handle.
    pub fn teardown(&mut self, registry: &mut Registry)
        requires
            old(registry).wf(),
        ensures
            final(registry).wf(),
            final(registry).issued() == old(registry).issued(),
            final(self).is_attach() == old(self).is_attach(),
            final(self).held_ref() == old(self).held_ref(),
            final(self).obligation() is None,
            match old(self).obligation() {
                Some(n) => final(registry)@ == old(registry)@.remove(n),
                None => final(registry)@ == old(registry)@,
            },
    {
        match self.drop_name.take() {
            Some(name) => registry.remove(&name),
            None => {},
        }
    }
}

} // verus!
