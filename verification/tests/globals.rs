use std::sync::Arc;
use wayland_server::event_loop::{BindError, EventLoop};
use wayland_server::global::{Global, GlobalError, GlobalRegistry};
use wayland_server::interface::{Interface, MessageDesc};
use wayland_server::liveness::Liveness;
use wayland_server::resource::Resource;
use wayland_server::table::{ClientId, Message, ResourcePtr};

fn compositor() -> Arc<Interface> {
    Arc::new(Interface {
        name: String::from("compositor"),
        version: 3,
        requests: vec![MessageDesc { since: 1, signature: vec![], destructor: false }],
    })
}

#[test]
fn global_version_must_not_exceed_the_interface() {
    let mut registry = GlobalRegistry::new();
    assert_eq!(registry.register(compositor(), 4, 1, 2), Err(GlobalError::VersionTooHigh));
    assert!(registry.get(Global(0)).is_none());
    assert_eq!(registry.register(compositor(), 3, 1, 2), Ok(Global(0)));
    assert_eq!(registry.register(compositor(), 1, 5, 6), Ok(Global(1)));
    let entry = registry.get(Global(1)).unwrap();
    assert_eq!(entry.version, 1);
    assert_eq!(entry.callback, 5);
    assert_eq!(entry.data, 6);
    assert_eq!(entry.interface.name, "compositor");
}

#[test]
fn withdrawn_global_is_gone() {
    let mut registry = GlobalRegistry::new();
    let global = registry.register(compositor(), 2, 1, 2).unwrap();
    assert!(registry.withdraw(global));
    assert!(!registry.withdraw(global));
    assert!(!registry.withdraw(Global(5)));
    assert!(registry.get(global).is_none());
}

#[test]
fn register_global_through_the_loop() {
    let mut event_loop: EventLoop<u32> = EventLoop::new(0);
    assert_eq!(
        event_loop.handle.register_global(compositor(), 9, 1, 1),
        Err(GlobalError::VersionTooHigh)
    );
    assert_eq!(event_loop.handle.register_global(compositor(), 0, 1, 1), Ok(Global(0)));
    assert_eq!(event_loop.handle.register_global(compositor(), 3, 1, 1), Ok(Global(1)));
}

#[test]
fn bind_yields_a_live_object_at_the_version_asked() {
    let mut event_loop: EventLoop<u32> = EventLoop::new(0);
    let client = event_loop.handle.objects.add_client();
    let global = event_loop.handle.register_global(compositor(), 2, 70, 80).unwrap();
    let bound = event_loop.handle.bind(client, global, 2, 5).unwrap();
    assert_eq!(bound.resource.ptr, ResourcePtr(0));
    assert!(bound.resource.managed);
    assert_eq!(bound.version, 2);
    assert_eq!(bound.callback, 70);
    assert_eq!(bound.data, 80);
    assert!(bound.resource.status(&event_loop.handle.objects) == Liveness::Alive);
    assert_eq!(bound.resource.version(&event_loop.handle.objects), Some(2));
    assert_eq!(event_loop.handle.objects.lookup(client, 5), Some(ResourcePtr(0)));
    assert_eq!(event_loop.handle.objects.owner(ResourcePtr(0)), Some(client));
    assert_eq!(bound.resource.get_user_data(&event_loop.handle.objects), Some(0));
    assert!(event_loop.handle.objects.registration(ResourcePtr(0)).is_none());
    // a lower version is fine too, and the global can be bound again
    let again = event_loop.handle.bind(client, global, 1, 6).unwrap();
    assert_eq!(again.resource.ptr, ResourcePtr(1));
    assert_eq!(again.resource.version(&event_loop.handle.objects), Some(1));
    let other = event_loop.handle.objects.add_client();
    let third = event_loop.handle.bind(other, global, 2, 5).unwrap();
    assert_eq!(third.resource.ptr, ResourcePtr(2));
}

#[test]
fn bind_above_the_advertised_version_ends_the_connection() {
    let mut event_loop: EventLoop<u32> = EventLoop::new(0);
    let client = event_loop.handle.objects.add_client();
    let global = event_loop.handle.register_global(compositor(), 2, 70, 80).unwrap();
    let kept = event_loop.handle.bind(client, global, 2, 5).unwrap();
    // 3 is a version of the interface, but not the advertised one
    assert_eq!(event_loop.handle.bind(client, global, 3, 6).unwrap_err(), BindError::VersionTooHigh);
    assert!(!event_loop.handle.objects.is_open(client));
    assert!(kept.resource.status(&event_loop.handle.objects) == Liveness::Dead);
    assert_eq!(event_loop.handle.objects.lookup(client, 6), None);
    assert_eq!(event_loop.handle.objects.object_count(), 1);
    assert_eq!(event_loop.handle.bind(client, global, 1, 7).unwrap_err(), BindError::Disconnected);
    // the client is told at the next flush, once
    let other = event_loop.handle.objects.add_client();
    let outboxes = event_loop.handle.objects.flush_clients();
    assert_eq!(outboxes[client.0].messages.len(), 1);
    assert!(matches!(
        &outboxes[client.0].messages[0],
        Message::Error { object: 1, code: 0, text } if text.is_empty()
    ));
    assert!(outboxes[other.0].messages.is_empty());
    assert!(event_loop.handle.objects.is_open(other));
}

#[test]
fn bind_of_what_is_not_advertised_ends_the_connection() {
    let mut event_loop: EventLoop<u32> = EventLoop::new(0);
    let client = event_loop.handle.objects.add_client();
    assert_eq!(event_loop.handle.bind(client, Global(0), 1, 5).unwrap_err(), BindError::NoSuchGlobal);
    assert!(!event_loop.handle.objects.is_open(client));
    let client = event_loop.handle.objects.add_client();
    let global = event_loop.handle.register_global(compositor(), 2, 70, 80).unwrap();
    event_loop.handle.globals.withdraw(global);
    assert_eq!(event_loop.handle.bind(client, global, 1, 5).unwrap_err(), BindError::NoSuchGlobal);
    assert!(!event_loop.handle.objects.is_open(client));
}

#[test]
fn bind_with_an_id_in_use_ends_the_connection() {
    let mut event_loop: EventLoop<u32> = EventLoop::new(0);
    let client = event_loop.handle.objects.add_client();
    let global = event_loop.handle.register_global(compositor(), 2, 70, 80).unwrap();
    event_loop.handle.bind(client, global, 1, 5).unwrap();
    assert_eq!(event_loop.handle.bind(client, global, 1, 5).unwrap_err(), BindError::IdInUse);
    assert!(!event_loop.handle.objects.is_open(client));
}

#[test]
fn bind_for_a_connection_that_is_gone_does_nothing() {
    let mut event_loop: EventLoop<u32> = EventLoop::new(0);
    let global = event_loop.handle.register_global(compositor(), 2, 70, 80).unwrap();
    assert_eq!(
        event_loop.handle.bind(ClientId(3), global, 1, 5).unwrap_err(),
        BindError::Disconnected
    );
    assert_eq!(event_loop.handle.objects.object_count(), 0);
}
