use bazed::event_system::{Event, EventCallback, EventSystem, EventType};
use bazed::ids::HandlerId;
use std::cell::RefCell;
use std::rc::Rc;

struct Recorder {
    name: &'static str,
    log: Rc<RefCell<Vec<(&'static str, serde_json::Value)>>>,
}

impl EventCallback for Recorder {
    fn call(&mut self, event: &Event) {
        self.log.borrow_mut().push((self.name, event_data(event)));
    }
}

fn event_data(event: &Event) -> serde_json::Value {
    format!("{:?}", event).into()
}

fn typ(name: &str) -> EventType {
    EventType::new(name.to_string())
}

fn recorder(name: &'static str, log: &Rc<RefCell<Vec<(&'static str, serde_json::Value)>>>) -> Recorder {
    Recorder { name, log: log.clone() }
}

fn sorted(mut ids: Vec<HandlerId>) -> Vec<u128> {
    let mut v: Vec<u128> = ids.drain(..).map(|h| h.0).collect();
    v.sort();
    v
}

#[test]
fn event_type_keeps_its_name() {
    let t = typ("buffer::changed");
    assert_eq!(t.name(), "buffer::changed");
}

#[test]
fn new_event_system_lists_no_listeners() {
    let es: EventSystem<Recorder> = EventSystem::new();
    assert!(es.listeners_of(&typ("a")).is_empty());
}

#[test]
fn registered_listener_is_listed_under_its_type_only() {
    let log = Rc::new(RefCell::new(Vec::new()));
    let mut es = EventSystem::new();
    let id = es.register_event_listener(typ("a"), recorder("first", &log));
    assert_eq!(es.listeners_of(&typ("a")), vec![id]);
    assert!(es.listeners_of(&typ("b")).is_empty());
}

#[test]
fn register_with_id_replaces_same_id_under_same_type() {
    let log = Rc::new(RefCell::new(Vec::new()));
    let mut es = EventSystem::new();
    es.register_event_listener_as(typ("a"), HandlerId(7), recorder("old", &log));
    es.register_event_listener_as(typ("a"), HandlerId(7), recorder("new", &log));
    assert_eq!(es.listeners_of(&typ("a")), vec![HandlerId(7)]);
    es.broadcast_event(&typ("a"), &Event::new(serde_json::Value::Bool(true)));
    let names: Vec<&str> = log.borrow().iter().map(|(n, _)| *n).collect();
    assert_eq!(names, vec!["new"]);
}

#[test]
fn same_id_under_two_types_is_two_registrations() {
    let log = Rc::new(RefCell::new(Vec::new()));
    let mut es = EventSystem::new();
    es.register_event_listener_as(typ("a"), HandlerId(1), recorder("a1", &log));
    es.register_event_listener_as(typ("b"), HandlerId(1), recorder("b1", &log));
    assert_eq!(es.listeners_of(&typ("a")), vec![HandlerId(1)]);
    assert_eq!(es.listeners_of(&typ("b")), vec![HandlerId(1)]);
}

#[test]
fn broadcast_calls_each_listener_of_the_type_once() {
    let log = Rc::new(RefCell::new(Vec::new()));
    let mut es = EventSystem::new();
    es.register_event_listener_as(typ("a"), HandlerId(1), recorder("a1", &log));
    es.register_event_listener_as(typ("a"), HandlerId(2), recorder("a2", &log));
    es.register_event_listener_as(typ("b"), HandlerId(3), recorder("b3", &log));
    es.broadcast_event(&typ("a"), &Event::new(serde_json::Value::from(5)));
    let mut names: Vec<&str> = log.borrow().iter().map(|(n, _)| *n).collect();
    names.sort();
    assert_eq!(names, vec!["a1", "a2"]);
    assert_eq!(sorted(es.listeners_of(&typ("a"))), vec![1, 2]);
    assert_eq!(sorted(es.listeners_of(&typ("b"))), vec![3]);
}

#[test]
fn broadcast_of_unknown_type_calls_nobody() {
    let log = Rc::new(RefCell::new(Vec::new()));
    let mut es = EventSystem::new();
    es.register_event_listener_as(typ("a"), HandlerId(1), recorder("a1", &log));
    es.broadcast_event(&typ("zzz"), &Event::new(serde_json::Value::Null));
    assert!(log.borrow().is_empty());
    assert_eq!(es.listeners_of(&typ("a")), vec![HandlerId(1)]);
}

#[test]
fn unregister_removes_handler_under_every_type() {
    let log = Rc::new(RefCell::new(Vec::new()));
    let mut es = EventSystem::new();
    es.register_event_listener_as(typ("a"), HandlerId(1), recorder("a1", &log));
    es.register_event_listener_as(typ("b"), HandlerId(1), recorder("b1", &log));
    es.register_event_listener_as(typ("b"), HandlerId(2), recorder("b2", &log));
    es.unregister_event_listener(&HandlerId(1));
    assert!(es.listeners_of(&typ("a")).is_empty());
    assert_eq!(es.listeners_of(&typ("b")), vec![HandlerId(2)]);
    es.broadcast_event(&typ("b"), &Event::new(serde_json::Value::Null));
    let names: Vec<&str> = log.borrow().iter().map(|(n, _)| *n).collect();
    assert_eq!(names, vec!["b2"]);
}

#[test]
fn unregister_twice_is_unregister_once() {
    let log = Rc::new(RefCell::new(Vec::new()));
    let mut es = EventSystem::new();
    es.register_event_listener_as(typ("a"), HandlerId(1), recorder("a1", &log));
    es.register_event_listener_as(typ("a"), HandlerId(2), recorder("a2", &log));
    es.unregister_event_listener(&HandlerId(1));
    es.unregister_event_listener(&HandlerId(1));
    assert_eq!(es.listeners_of(&typ("a")), vec![HandlerId(2)]);
}

#[test]
fn unregister_unknown_handler_changes_nothing() {
    let log = Rc::new(RefCell::new(Vec::new()));
    let mut es = EventSystem::new();
    es.register_event_listener_as(typ("a"), HandlerId(1), recorder("a1", &log));
    es.unregister_event_listener(&HandlerId(99));
    assert_eq!(es.listeners_of(&typ("a")), vec![HandlerId(1)]);
}

#[test]
fn unregister_undoes_register() {
    let log = Rc::new(RefCell::new(Vec::new()));
    let mut es = EventSystem::new();
    es.register_event_listener_as(typ("a"), HandlerId(1), recorder("a1", &log));
    let id = es.register_event_listener(typ("a"), recorder("fresh", &log));
    assert_eq!(sorted(es.listeners_of(&typ("a"))).len(), 2);
    es.unregister_event_listener(&id);
    assert_eq!(es.listeners_of(&typ("a")), vec![HandlerId(1)]);
}

#[test]
fn random_handler_ids_are_version_four_uuids() {
    let log = Rc::new(RefCell::new(Vec::new()));
    let mut es = EventSystem::new();
    let id = es.register_event_listener(typ("a"), recorder("x", &log));
    let u = uuid::Uuid::from_u128(id.0);
    assert_eq!(u.get_version_num(), 4);
    assert_eq!(u.get_variant(), uuid::Variant::RFC4122);
}

#[test]
fn event_carries_its_data() {
    let e = Event::new(serde_json::Value::from("hello"));
    assert_eq!(e.into_data(), serde_json::Value::from("hello"));
}

#[test]
fn broadcast_reaches_only_listeners_of_its_type_after_other_calls() {
    let log = Rc::new(RefCell::new(Vec::new()));
    let mut es = EventSystem::new();
    let a = es.register_event_listener(typ("a"), recorder("a", &log));
    let b = es.register_event_listener(typ("b"), recorder("b", &log));
    es.broadcast_event(&typ("b"), &Event::new(serde_json::Value::Null));
    es.register_event_listener_as(typ("c"), HandlerId(3), recorder("c", &log));
    es.unregister_event_listener(&b);
    es.broadcast_event(&typ("a"), &Event::new(serde_json::Value::Null));
    let names: Vec<&str> = log.borrow().iter().map(|(n, _)| *n).collect();
    assert_eq!(names, vec!["b", "a"]);
    assert_eq!(es.listeners_of(&typ("a")), vec![a]);
}
