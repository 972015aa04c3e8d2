use discord_presence::event_handler::HandlerRegistry;
use discord_presence::models::{Event, EventData};
use discord_presence::DiscordError;

#[test]
fn can_register_event_handlers() {
    let mut registry = HandlerRegistry::new();
    let _ready1 = registry.register(Event::Ready);
    let _ready2 = registry.register(Event::Ready);
    let _error = registry.register(Event::Error);

    assert_eq!(registry.event_count(), 2);
    assert_eq!(registry.handler_count(Event::Ready), 2);
    assert_eq!(registry.handler_count(Event::Error), 1);
    assert!(registry.has_event(Event::Ready));
    assert!(registry.has_event(Event::Error));
    assert!(!registry.has_event(Event::ActivityJoin));
}

/// Removes event handlers once their handle is given up, to prevent leaks.
#[test]
fn auto_remove_event_handlers() {
    let mut registry = HandlerRegistry::new();
    let _ready1 = registry.register(Event::Ready);
    let _error = registry.register(Event::Error);

    {
        let ready2 = registry.register(Event::Ready);
        ready2.remove(&mut registry);
    }
    // ready2 is removed; its siblings stay

    assert_eq!(registry.event_count(), 2);
    assert_eq!(registry.handler_count(Event::Ready), 1);
    assert_eq!(registry.handler_count(Event::Error), 1);
}

/// Enables keeping an event callback for the entire lifetime of the registry.
/// This disables the cleanup tested in `auto_remove_event_handlers`.
#[test]
fn forget_cb_handles() {
    let mut registry = HandlerRegistry::new();

    {
        let ready = registry.register(Event::Ready);
        // skip the cleanup on purpose
        ready.persist();
    }
    // ready's registration stays

    assert_eq!(registry.event_count(), 1);
    assert_eq!(registry.handler_count(Event::Ready), 1);
}

#[test]
fn removal_is_idempotent() {
    let mut registry = HandlerRegistry::new();
    let handle = registry.register(Event::Ready);
    let id = handle.handler;
    handle.persist();

    assert_eq!(registry.remove(Event::Ready, id), Ok(id));
    assert_eq!(registry.remove(Event::Ready, id), Err(DiscordError::NoChangesMade));
    assert_eq!(registry.handler_count(Event::Ready), 0);
    assert_eq!(registry.event_count(), 1);
}

#[test]
fn removal_leaves_siblings_untouched() {
    let mut registry = HandlerRegistry::new();
    let a1 = registry.register(Event::Ready);
    let a2 = registry.register(Event::Ready);
    let b = registry.register(Event::Error);

    a2.remove(&mut registry);

    assert_eq!(registry.handler_count(Event::Ready), 1);
    assert_eq!(registry.handler_count(Event::Error), 1);
    let snapshot = registry.handle(Event::Ready, EventData::new(String::from("{}")));
    assert_eq!(snapshot.len(), 1);
    assert_eq!(snapshot[0].0, a1.handler);
    a1.persist();
    b.persist();
}

#[test]
fn dispatch_without_handlers_is_a_no_op() {
    let registry = HandlerRegistry::new();
    let snapshot = registry.handle(Event::Ready, EventData::new(String::from("{}")));
    assert!(snapshot.is_empty());
}

#[test]
fn dispatch_snapshots_in_registration_order() {
    let mut registry = HandlerRegistry::new();
    let first = registry.register(Event::ActivityJoin);
    let second = registry.register(Event::ActivityJoin);
    let other = registry.register(Event::ActivitySpectate);

    let snapshot = registry.handle(Event::ActivityJoin, EventData::new(String::from("payload")));
    assert_eq!(snapshot.len(), 2);
    assert_eq!(snapshot[0].0, first.handler);
    assert_eq!(snapshot[1].0, second.handler);
    assert_eq!(snapshot[0].1.event.payload, String::from("payload"));
    assert_eq!(snapshot[1].1.event.payload, String::from("payload"));

    first.persist();
    second.persist();
    other.persist();
}

#[test]
fn registration_ids_are_distinct() {
    let mut registry = HandlerRegistry::new();
    let a = registry.register(Event::Ready);
    let b = registry.register(Event::Ready);
    assert_ne!(a.handler, b.handler);
    assert_eq!(registry.issued_ids(), 2);
    a.persist();
    b.persist();
}
