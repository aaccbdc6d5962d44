use taskboard::registry::InFlight;

#[test]
fn nothing_is_in_flight_at_first() {
    let registry = InFlight::new();
    assert!(!registry.is_in_flight(1));
}

#[test]
fn mark_and_clear_one_identifier() {
    let mut registry = InFlight::new();
    registry.mark(1);
    assert!(registry.is_in_flight(1));
    assert!(!registry.is_in_flight(2));
    registry.mark(1);
    assert!(registry.is_in_flight(1));
    registry.clear(1);
    assert!(!registry.is_in_flight(1));
    registry.clear(1);
    assert!(!registry.is_in_flight(1));
}

#[test]
fn mark_all_marks_each_identifier() {
    let mut registry = InFlight::new();
    registry.mark(5);
    registry.mark_all(&vec![1, 2, 2]);
    assert!(registry.is_in_flight(1));
    assert!(registry.is_in_flight(2));
    assert!(registry.is_in_flight(5));
    assert!(!registry.is_in_flight(3));
    registry.clear(2);
    assert!(!registry.is_in_flight(2));
}
