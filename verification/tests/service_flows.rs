use shared_registry::Capabilities;
use shared_registry::Completion;
use shared_registry::JsonValue;
use shared_registry::Outcome;
use shared_registry::Request;
use shared_registry::Routed;
use shared_registry::SharedObject;
use shared_registry::SharedPermission;
use shared_registry::UpdateWorker;

fn obj(key: &str, value: i64) -> SharedObject {
    SharedObject { fields: vec![(key.to_string(), JsonValue::Int(value))] }
}

fn attach_request(name: &str, object: Option<SharedObject>) -> Request {
    Request {
        action: "attach-object".to_string(),
        name: Some(name.to_string()),
        object,
    }
}

fn update_request(name: &str) -> Request {
    Request {
        action: "update-object".to_string(),
        name: Some(name.to_string()),
        object: None,
    }
}

fn authorized() -> Capabilities {
    Capabilities { can_attach: true, can_update: true }
}

fn route_worker(svc: &shared_registry::SharedService, request: &Request) -> UpdateWorker {
    match svc.route(request) {
        Routed::Worker(w) => w,
        Routed::Reject(m) => panic!("routing rejected the action: {}", m),
    }
}

#[test]
fn attach_then_teardown_leaves_name_absent() {
    let mut svc = shared_registry::SharedService::new();
    let req = attach_request("a", Some(obj("x", 1)));
    let mut attacher = route_worker(&svc, &req);
    assert_eq!(svc.prepare(&mut attacher, &authorized(), req), Outcome::Proceed);
    svc.teardown(&mut attacher);
    let req2 = update_request("a");
    let mut updater = route_worker(&svc, &req2);
    match svc.prepare(&mut updater, &authorized(), req2) {
        Outcome::Reject(m) => assert_eq!(m, "name 'a' hasn't attached"),
        _ => panic!("expected a rejection"),
    }
}

#[test]
fn second_attach_before_teardown_is_rejected() {
    let mut svc = shared_registry::SharedService::new();
    let req = attach_request("a", Some(obj("x", 1)));
    let mut first = route_worker(&svc, &req);
    assert_eq!(svc.prepare(&mut first, &authorized(), req), Outcome::Proceed);
    let req2 = attach_request("a", Some(obj("y", 2)));
    let mut second = route_worker(&svc, &req2);
    match svc.prepare(&mut second, &authorized(), req2) {
        Outcome::Reject(m) => assert_eq!(m, "name 'a' already attached"),
        _ => panic!("expected a rejection"),
    }
    // The first attachment is untouched.
    let held = first.object_ref().expect("the attacher holds a reference");
    assert_eq!(svc.resolve(&held), Some(&obj("x", 1)));
}

#[test]
fn update_of_never_attached_name_is_rejected() {
    let mut svc = shared_registry::SharedService::new();
    let req = update_request("b");
    let mut updater = route_worker(&svc, &req);
    match svc.prepare(&mut updater, &authorized(), req) {
        Outcome::Reject(m) => assert_eq!(m, "name 'b' hasn't attached"),
        _ => panic!("expected a rejection"),
    }
}

#[test]
fn updater_shares_the_value_until_the_attacher_leaves() {
    let mut svc = shared_registry::SharedService::new();
    let req = attach_request("c", Some(obj("x", 1)));
    let mut attacher = route_worker(&svc, &req);
    assert_eq!(svc.prepare(&mut attacher, &authorized(), req), Outcome::Proceed);

    let req2 = update_request("c");
    let mut updater = route_worker(&svc, &req2);
    assert_eq!(svc.prepare(&mut updater, &authorized(), req2), Outcome::Proceed);

    // Both flows see the same stored value.
    let held_by_attacher = attacher.object_ref().expect("the attacher holds a reference");
    let held_by_updater = updater.object_ref().expect("the updater holds a reference");
    assert_eq!(svc.resolve(&held_by_attacher), Some(&obj("x", 1)));
    assert_eq!(svc.resolve(&held_by_updater), Some(&obj("x", 1)));

    // Tearing down the attacher removes the entry; the updater's reference
    // now resolves to absent.
    svc.teardown(&mut attacher);
    assert_eq!(svc.resolve(&held_by_updater), None);
    assert_eq!(svc.resolve(&held_by_attacher), None);
}

#[test]
fn teardown_of_an_update_worker_keeps_the_entry() {
    let mut svc = shared_registry::SharedService::new();
    let req = attach_request("c", Some(obj("x", 1)));
    let mut attacher = route_worker(&svc, &req);
    assert_eq!(svc.prepare(&mut attacher, &authorized(), req), Outcome::Proceed);

    let req2 = update_request("c");
    let mut updater = route_worker(&svc, &req2);
    assert_eq!(svc.prepare(&mut updater, &authorized(), req2), Outcome::Proceed);
    let held = updater.object_ref().expect("the updater holds a reference");
    svc.teardown(&mut updater);
    // The entry is still there, and the reference still resolves.
    assert_eq!(svc.resolve(&held), Some(&obj("x", 1)));
}

#[test]
fn unauthorized_attach_is_an_error_and_has_no_effect() {
    let mut svc = shared_registry::SharedService::new();
    let nobody = Capabilities { can_attach: false, can_update: false };
    let req = attach_request("a", Some(obj("x", 1)));
    let mut attacher = route_worker(&svc, &req);
    match svc.prepare(&mut attacher, &nobody, req) {
        Outcome::Error(m) => assert_eq!(m, "You haven't permissions."),
        _ => panic!("expected an error"),
    }
    // Nothing was attached.
    let req2 = update_request("a");
    let mut updater = route_worker(&svc, &req2);
    match svc.prepare(&mut updater, &authorized(), req2) {
        Outcome::Reject(m) => assert_eq!(m, "name 'a' hasn't attached"),
        _ => panic!("expected a rejection"),
    }
}

#[test]
fn unauthorized_update_is_an_error() {
    let mut svc = shared_registry::SharedService::new();
    // The attach capability governs update operations too in this design.
    let listener = Capabilities { can_attach: false, can_update: true };
    let req = update_request("a");
    let mut updater = route_worker(&svc, &req);
    match svc.prepare(&mut updater, &listener, req) {
        Outcome::Error(m) => assert_eq!(m, "You haven't permissions."),
        _ => panic!("expected an error"),
    }
}

#[test]
fn attach_without_object_is_an_error() {
    let mut svc = shared_registry::SharedService::new();
    let req = attach_request("a", None);
    let mut attacher = route_worker(&svc, &req);
    match svc.prepare(&mut attacher, &authorized(), req) {
        Outcome::Error(m) => assert_eq!(m, "object not provided"),
        _ => panic!("expected an error"),
    }
}

#[test]
fn request_without_name_is_an_error() {
    let mut svc = shared_registry::SharedService::new();
    let req = Request {
        action: "attach-object".to_string(),
        name: None,
        object: Some(obj("x", 1)),
    };
    let mut attacher = route_worker(&svc, &req);
    match svc.prepare(&mut attacher, &authorized(), req) {
        Outcome::Error(m) => assert_eq!(m, "name of shared object not set"),
        _ => panic!("expected an error"),
    }
}

#[test]
fn unknown_action_is_rejected_by_the_router() {
    let svc = shared_registry::SharedService::new();
    let req = Request { action: "zap".to_string(), name: None, object: None };
    match svc.route(&req) {
        Routed::Reject(m) => assert_eq!(m, "Unknown action 'zap' for shared service!"),
        Routed::Worker(_) => panic!("expected a rejection"),
    }
}

#[test]
fn reattach_after_teardown_hands_out_a_fresh_reference() {
    let mut svc = shared_registry::SharedService::new();
    let req = attach_request("a", Some(obj("x", 1)));
    let mut first = route_worker(&svc, &req);
    assert_eq!(svc.prepare(&mut first, &authorized(), req), Outcome::Proceed);
    let old_ref = first.object_ref().expect("the attacher holds a reference");
    svc.teardown(&mut first);

    let req2 = attach_request("a", Some(obj("y", 2)));
    let mut second = route_worker(&svc, &req2);
    assert_eq!(svc.prepare(&mut second, &authorized(), req2), Outcome::Proceed);
    let new_ref = second.object_ref().expect("the attacher holds a reference");

    // The old reference stays absent even though the name is attached again.
    assert_eq!(svc.resolve(&old_ref), None);
    assert_eq!(svc.resolve(&new_ref), Some(&obj("y", 2)));
}

#[test]
fn realize_signals_done() {
    let mut svc = shared_registry::SharedService::new();
    let req = attach_request("a", Some(obj("x", 1)));
    let mut attacher = route_worker(&svc, &req);
    assert_eq!(svc.prepare(&mut attacher, &authorized(), req), Outcome::Proceed);
    assert_eq!(attacher.realize(&authorized(), None), Completion::Done);
}

#[test]
fn capabilities_answer_for_each_permission() {
    let listener = Capabilities { can_attach: false, can_update: true };
    assert!(!listener.has_permission(&SharedPermission::CanAttach));
    assert!(listener.has_permission(&SharedPermission::CanUpdate));
    let full = Capabilities { can_attach: true, can_update: true };
    assert!(full.has_permission(&SharedPermission::CanAttach));
}

#[test]
fn service_reports_id_capacity() {
    let svc = shared_registry::SharedService::new();
    assert!(svc.has_id_capacity());
}
