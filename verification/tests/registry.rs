use std::cmp::Ordering;
use stubby::StubbyName;
use stubby::StubbyState;

struct NotClone;

fn producer() -> NotClone {
    NotClone
}

#[test]
fn not_cloneable() {
    let mut stubby = StubbyState::new();
    stubby.insert_with(StubbyName::default(), producer);

    stubby.get::<NotClone>(StubbyName::default()).unwrap();
}

fn assert_send_and_sync<T: Send + Sync>(_: T) {}

#[test]
fn is_send_and_sync() {
    assert_send_and_sync(StubbyState::new());
}

#[test]
fn insert_then_get_returns_value() {
    let mut stubs = StubbyState::new();
    let name = StubbyName::__macro_new("Widget::size");
    stubs.insert(name, 42u32);
    assert_eq!(stubs.get::<u32>(name), Some(42u32));
    assert_eq!(stubs.get::<u32>(name), Some(42u32));
}

#[test]
fn insert_with_then_get_matches_producer() {
    let mut stubs = StubbyState::new();
    let name = StubbyName::__macro_new("Widget::label");
    let fresh = || String::from("made afresh");
    stubs.insert_with(name, fresh);
    assert_eq!(stubs.get::<String>(name), Some(fresh()));
    assert_eq!(stubs.get::<String>(name), Some(String::from("made afresh")));
}

#[test]
fn overwrite_returns_latest() {
    let mut stubs = StubbyState::new();
    let name = StubbyName::__macro_new("Widget::size");
    stubs.insert(name, 1u32);
    stubs.insert(name, 2u32);
    assert_eq!(stubs.get::<u32>(name), Some(2u32));
}

#[test]
fn absent_name_returns_none() {
    let empty = StubbyState::new();
    assert_eq!(empty.get::<u32>(StubbyName::__macro_new("Widget::size")), None);

    let mut stubs = StubbyState::new();
    stubs.insert(StubbyName::__macro_new("Widget::size"), 3u32);
    assert_eq!(stubs.get::<u32>(StubbyName::__macro_new("Widget::weight")), None);
}

#[test]
fn duplication_forgets_entries() {
    let mut stubs = StubbyState::new();
    let name = StubbyName::__macro_new("Widget::size");
    stubs.insert(name, 42u32);
    let duplicate = stubs.clone();
    assert_eq!(duplicate.get::<u32>(name), None);
    assert_eq!(stubs.get::<u32>(name), Some(42u32));
}

#[test]
fn registries_always_compare_equal() {
    let mut populated = StubbyState::new();
    populated.insert(StubbyName::__macro_new("Widget::size"), 42u32);
    let empty = StubbyState::new();
    assert!(populated == empty);
    assert!(empty == populated);
    assert_eq!(populated.partial_cmp(&empty), Some(Ordering::Equal));
    assert_eq!(empty.partial_cmp(&populated), Some(Ordering::Equal));
}

#[test]
fn default_is_empty() {
    let stubs = StubbyState::default();
    assert_eq!(stubs.get::<u32>(StubbyName::default()), None);
}
