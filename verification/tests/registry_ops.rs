use shared_registry::AlreadyExists;
use shared_registry::JsonValue;
use shared_registry::NotFound;
use shared_registry::Registry;
use shared_registry::SharedObject;

fn obj(key: &str, value: i64) -> SharedObject {
    SharedObject { fields: vec![(key.to_string(), JsonValue::Int(value))] }
}

#[test]
fn attach_then_lookup_and_resolve() {
    let mut reg = Registry::new();
    let w = reg.try_attach("a".to_string(), obj("x", 1)).expect("fresh name must attach");
    assert_eq!(reg.resolve(&w), Some(&obj("x", 1)));
    let w2 = reg.lookup(&"a".to_string()).expect("attached name must be found");
    assert_eq!(reg.resolve(&w2), Some(&obj("x", 1)));
}

#[test]
fn duplicate_attach_rejected_without_overwrite() {
    let mut reg = Registry::new();
    let w = reg.try_attach("a".to_string(), obj("x", 1)).expect("fresh name must attach");
    let second = reg.try_attach("a".to_string(), obj("y", 2));
    assert!(matches!(second, Err(AlreadyExists)));
    // The first entry is untouched: the old reference still sees the old value.
    assert_eq!(reg.resolve(&w), Some(&obj("x", 1)));
}

#[test]
fn lookup_of_absent_name_is_not_found() {
    let reg = Registry::new();
    assert!(matches!(reg.lookup(&"b".to_string()), Err(NotFound)));
}

#[test]
fn remove_of_absent_name_is_a_noop() {
    let mut reg = Registry::new();
    reg.remove(&"nope".to_string());
    let w = reg.try_attach("a".to_string(), obj("x", 1)).expect("fresh name must attach");
    reg.remove(&"other".to_string());
    // The unrelated removals changed nothing.
    assert_eq!(reg.resolve(&w), Some(&obj("x", 1)));
    assert!(reg.lookup(&"a".to_string()).is_ok());
}

#[test]
fn remove_makes_lookup_fail() {
    let mut reg = Registry::new();
    reg.try_attach("a".to_string(), obj("x", 1)).expect("fresh name must attach");
    reg.remove(&"a".to_string());
    assert!(matches!(reg.lookup(&"a".to_string()), Err(NotFound)));
}

#[test]
fn resolve_after_remove_is_absent() {
    let mut reg = Registry::new();
    let w = reg.try_attach("a".to_string(), obj("x", 1)).expect("fresh name must attach");
    reg.remove(&"a".to_string());
    assert_eq!(reg.resolve(&w), None);
}

#[test]
fn old_reference_is_not_resurrected_by_reattach() {
    let mut reg = Registry::new();
    let old_ref = reg.try_attach("a".to_string(), obj("x", 1)).expect("fresh name must attach");
    reg.remove(&"a".to_string());
    let new_ref = reg.try_attach("a".to_string(), obj("y", 2)).expect("removed name must attach");
    assert_eq!(reg.resolve(&old_ref), None);
    assert_eq!(reg.resolve(&new_ref), Some(&obj("y", 2)));
}

#[test]
fn entries_keep_their_own_values() {
    let mut reg = Registry::new();
    let wa = reg.try_attach("a".to_string(), obj("x", 1)).expect("fresh name must attach");
    let wb = reg.try_attach("b".to_string(), obj("y", 2)).expect("fresh name must attach");
    assert_eq!(reg.resolve(&wa), Some(&obj("x", 1)));
    assert_eq!(reg.resolve(&wb), Some(&obj("y", 2)));
    reg.remove(&"a".to_string());
    assert_eq!(reg.resolve(&wa), None);
    assert_eq!(reg.resolve(&wb), Some(&obj("y", 2)));
}

#[test]
fn fresh_registry_has_id_capacity() {
    let reg = Registry::new();
    assert!(reg.has_id_capacity());
}

#[test]
fn empty_name_and_empty_object_are_allowed() {
    let mut reg = Registry::new();
    let empty = SharedObject { fields: vec![] };
    let w = reg
        .try_attach(String::new(), SharedObject { fields: vec![] })
        .expect("fresh name must attach");
    assert_eq!(reg.resolve(&w), Some(&empty));
    assert!(reg.lookup(&String::new()).is_ok());
    reg.remove(&String::new());
    assert_eq!(reg.resolve(&w), None);
}
