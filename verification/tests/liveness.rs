use wayland_server::liveness::{EventResult, Liveness};

#[test]
fn expect_hands_out_the_sent_value() {
    let result: EventResult<u32> = EventResult::Sent(17);
    assert!(result.is_sent());
    assert_eq!(result.expect("the object is alive"), 17);
}

#[test]
fn destroyed_is_not_sent() {
    let result: EventResult<u32> = EventResult::Destroyed;
    assert!(!result.is_sent());
}

#[test]
fn liveness_states_differ() {
    assert!(Liveness::Alive != Liveness::Dead);
    assert!(Liveness::Alive != Liveness::Unmanaged);
    assert!(Liveness::Dead != Liveness::Unmanaged);
    let copy = Liveness::Dead;
    assert!(copy == Liveness::Dead);
}
