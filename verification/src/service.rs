use vstd::prelude::*;
use vstd::string::StringExecFns;

use crate::object::SharedObject;
use crate::registry::Registry;
use crate::registry::WeakRef;
use crate::registry::map_has_id;
use crate::worker::Capabilities;
use crate::worker::Outcome;
use crate::worker::Request;
use crate::worker::UpdateWorker;
use crate::worker::prepare_post;
use crate::worker::quoted_message;

verus! {

/// The rejection reason the router gives an action it does not know.
pub open spec fn unknown_action_msg(action: Seq<char>) -> Seq<char> {
    "Unknown action '"@ + action + "' for shared service!"@
}

/// What the router hands back for one inbound operation: a fresh session
/// handle in the right mode, or an immediate rejection of the action.
pub enum Routed {
    Worker(UpdateWorker),
    Reject(String),
}

/// The service facade: it owns the shared name-to-value table and routes
/// each inbound operation to a fresh session handle. The surrounding layer
/// holds the one long-lived instance and serialises access to it.
pub struct SharedService {
    objects: Registry,
}

impl View for SharedService {
    type V = Map<Seq<char>, (u64, SharedObject)>;

    closed spec fn view(&self) -> Map<Seq<char>, (u64, SharedObject)> {
        self.objects@
    }
}

impl SharedService {
    /// The table is well formed.
    pub closed spec fn wf(self) -> bool {
        self.objects.wf()
    }

    /// How many issue numbers the table has handed out so far.
    pub closed spec fn issued(self) -> u64 {
        self.objects.issued()
    }

    /// Whether another attach can still be given a fresh issue number.
    pub open spec fn has_spare_ids(self) -> bool {
        self.issued() < u64::MAX
    }

    /// A fresh service with an empty table.
    pub fn new() -> (s: SharedService)
        ensures
            s.wf(),
            s@ == Map::<Seq<char>, (u64, SharedObject)>::empty(),
            s.issued() == 0,
            s.has_spare_ids(),
    {
        SharedService { objects: Registry::new() }
    }

    /// Route one inbound operation on its action name: a fresh handle in
    /// attach mode, a fresh handle in update mode, or a rejection of any
    /// other action. Exactly one new handle is made per accepted operation.
    pub fn route(&self, request: &Request) -> (r: Routed)
        ensures
            request.action@ == "attach-object"@ ==> (r matches Routed::Worker(w) && {
                &&& w.is_attach()
                &&& w.obligation() is None
                &&& w.held_ref() is None
            }),
            request.action@ == "update-object"@ ==> (r matches Routed::Worker(w) && {
                &&& !w.is_attach()
                &&& w.obligation() is None
                &&& w.held_ref() is None
            }),
            request.action@ != "attach-object"@ && request.action@ != "update-object"@
                ==> (r matches Routed::Reject(m) && m@ == unknown_action_msg(request.action@)),
    {
        proof {
            reveal_strlit("attach-object");
            reveal_strlit("update-object");
            assert("attach-object"@[0] == 'a');
            assert("update-object"@[0] == 'u');
            assert("attach-object"@ != "update-object"@);
        }
        let attach_action = "attach-object".to_owned();
        if request.action == attach_action {
            Routed::Worker(UpdateWorker::new(true))
        } else {
            let update_action = "update-object".to_owned();
            if request.action == update_action {
                Routed::Worker(UpdateWorker::new(false))
            } else {
                Routed::Reject(
                    quoted_message("Unknown action '", request.action.as_str(),
                        "' for shared service!"),
                )
            }
        }
    }

    /// Let one handle validate its operation against this service's table.
    pub fn prepare(
        &mut self,
        worker: &mut UpdateWorker,
        caller: &Capabilities,
        request: Request,
    ) -> (out: Outcome)
        requires
            old(self).wf(),
            old(worker).obligation() is None,
            old(worker).held_ref() is None,
            old(worker).is_attach() ==> old(self).has_spare_ids(),
        ensures
            final(self).wf(),
            final(worker).is_attach() == old(worker).is_attach(),
            prepare_post(
                old(worker).is_attach(),
                *caller,
                request,
                old(self)@,
                final(self)@,
                old(self).issued(),
                final(self).issued(),
                final(worker).obligation(),
                final(worker).held_ref(),
                out,
            ),
    {
        worker.prepare(&mut self.objects, caller, request)
    }

    /// Let one handle discharge its teardown obligation against this
    /// service's table.
    pub fn teardown(&mut self, worker: &mut UpdateWorker)
        requires
            old(self).wf(),
        ensures
            final(self).wf(),
            final(self).issued() == old(self).issued(),
            final(worker).is_attach() == old(worker).is_attach(),
            final(worker).held_ref() == old(worker).held_ref(),
            final(worker).obligation() is None,
            match old(worker).obligation() {
                Some(n) => final(self)@ == old(self)@.remove(n),
                None => final(self)@ == old(self)@,
            },
    {
        worker.teardown(&mut self.objects)
    }

    /// Resolve a non-owning reference against this service's table.
    pub fn resolve(&self, w: &WeakRef) -> (res: Option<&SharedObject>)
        requires
            self.wf(),
        ensures
            res is Some <==> map_has_id(self@, w.id()),
            (res matches Some(o) ==> exists|n: Seq<char>|
                #[trigger] self@.contains_key(n) && self@[n].0 == w.id() && self@[n].1 == *o),
    {
        self.objects.resolve(w)
    }

    /// Whether another attach can still be given a fresh issue number.
    pub fn has_id_capacity(&self) -> (b: bool)
        ensures
            b == self.has_spare_ids(),
    {
        self.objects.has_id_capacity()
    }
}

} // verus!
