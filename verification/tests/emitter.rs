use qdb::framework::events::emitter::{Emitter, SlotToken};

#[test]
fn emit_reaches_every_listener_in_order() {
    let mut e: Emitter<i32> = Emitter::new();
    let a = e.new_receiver();
    let b = e.new_receiver();
    e.emit(1);
    e.emit(2);
    assert_eq!(e.pending(&a.slot()), 2);
    assert_eq!(e.try_recv(&a), Some(1));
    assert_eq!(e.try_recv(&a), Some(2));
    assert_eq!(e.try_recv(&a), None);
    assert_eq!(e.try_recv(&b), Some(1));
    e.emit(3);
    assert_eq!(e.try_recv(&b), Some(2));
    assert_eq!(e.try_recv(&b), Some(3));
    assert_eq!(e.try_recv(&b), None);
    assert_eq!(e.try_recv(&a), Some(3));
}

#[test]
fn connect_hands_out_fresh_identifiers() {
    let mut e: Emitter<bool> = Emitter::new();
    assert!(!e.is_exhausted());
    let a = e.connect();
    let b = e.connect();
    assert_eq!(a, SlotToken(0));
    assert_eq!(b, SlotToken(1));
    e.disconnect(&a);
    let c = e.connect();
    assert_eq!(c, SlotToken(2));
    assert!(!e.is_connected(&a));
    assert!(e.is_connected(&b));
    assert!(e.is_connected(&c));
}

#[test]
fn disconnect_is_a_no_op_for_an_unknown_listener() {
    let mut e: Emitter<i32> = Emitter::new();
    let a = e.new_receiver();
    e.disconnect(&SlotToken(42));
    e.emit(5);
    assert_eq!(e.try_recv(&a), Some(5));
    e.disconnect(&a.slot());
    e.disconnect(&a.slot());
    assert!(!e.is_connected(&a.slot()));
    assert_eq!(e.try_recv(&a), None);
    assert_eq!(e.pending(&a.slot()), 0);
}

#[test]
fn disconnecting_one_listener_leaves_its_siblings() {
    let mut e: Emitter<i32> = Emitter::new();
    let a = e.new_receiver();
    let b = e.new_receiver();
    let c = e.new_receiver();
    e.emit(1);
    e.disconnect(&b.slot());
    e.emit(2);
    assert_eq!(e.try_recv(&a), Some(1));
    assert_eq!(e.try_recv(&a), Some(2));
    assert_eq!(e.try_recv(&c), Some(1));
    assert_eq!(e.try_recv(&c), Some(2));
    assert_eq!(e.try_recv(&b), None);
}

#[test]
fn a_closed_listener_is_pruned_by_the_next_emit() {
    let mut e: Emitter<i32> = Emitter::new();
    let a = e.new_receiver();
    let b = e.new_receiver();
    let a_slot = a.slot();
    e.emit(1);
    e.close(a);
    assert!(e.is_connected(&a_slot));
    assert_eq!(e.pending(&a_slot), 1);
    e.emit(2);
    assert!(!e.is_connected(&a_slot));
    assert_eq!(e.try_recv(&b), Some(1));
    assert_eq!(e.try_recv(&b), Some(2));
}

#[test]
fn emit_without_listeners_does_nothing() {
    let mut e: Emitter<String> = Emitter::new();
    e.emit("x".to_string());
    let a = e.new_receiver();
    assert_eq!(e.try_recv(&a), None);
    e.emit("y".to_string());
    assert_eq!(e.try_recv(&a), Some("y".to_string()));
}

#[test]
fn all_closed_listeners_are_pruned_together() {
    let mut e: Emitter<i32> = Emitter::new();
    let a = e.new_receiver();
    let b = e.new_receiver();
    let c = e.new_receiver();
    let (sa, sc) = (a.slot(), c.slot());
    e.close(a);
    e.close(c);
    e.emit(9);
    assert!(!e.is_connected(&sa));
    assert!(!e.is_connected(&sc));
    assert_eq!(e.try_recv(&b), Some(9));
}

#[test]
fn identifiers_can_start_from_a_floor() {
    let mut e: Emitter<i32> = Emitter::new();
    let a = e.new_receiver_from(5);
    assert_eq!(a.slot(), SlotToken(5));
    let b = e.new_receiver_from(2);
    assert_eq!(b.slot(), SlotToken(6));
    let c = e.new_receiver();
    assert_eq!(c.slot(), SlotToken(7));
    let d = e.new_receiver_from(7);
    assert_eq!(d.slot(), SlotToken(8));
    e.emit(1);
    for rx in [&a, &b, &c, &d] {
        assert_eq!(e.try_recv(rx), Some(1));
    }
}

#[test]
fn has_other_looks_past_the_given_listener() {
    let mut e: Emitter<i32> = Emitter::new();
    assert!(!e.has_other(&SlotToken(0)));
    let a = e.new_receiver();
    assert!(!e.has_other(&a.slot()));
    assert!(e.has_other(&SlotToken(9)));
    let b = e.new_receiver();
    assert!(e.has_other(&a.slot()));
    assert!(e.has_other(&b.slot()));
    e.disconnect(&a.slot());
    assert!(!e.has_other(&b.slot()));
    assert!(e.has_other(&a.slot()));
}
