use engine::debounce::Debouncer;
use engine::BoardChange;

#[test]
fn event_reported_after_quiet_period() {
    let mut d = Debouncer::new();
    assert_eq!(d.tick(0b11, 0), None);
    assert_eq!(d.tick(0b11, 500), None);
    assert_eq!(d.tick(0b11, 1000), Some(BoardChange { mask: 0b11, state: 0b11 }));
    assert_eq!(d.tick(0b11, 5000), None);
}

#[test]
fn changes_during_event_accumulate() {
    let mut d = Debouncer::new();
    d.tick(0b0001, 0);
    d.tick(0b0011, 300);
    d.tick(0b0111, 600);
    assert_eq!(d.tick(0b0111, 1599), None);
    assert_eq!(d.tick(0b0111, 1600), Some(BoardChange { mask: 0b0111, state: 0b0111 }));
}

#[test]
fn square_lifted_and_replaced_stays_in_mask() {
    let mut d = Debouncer::new();
    d.tick(0b1, 0);
    assert_eq!(d.tick(0b1, 1000), Some(BoardChange { mask: 0b1, state: 0b1 }));
    d.tick(0b0, 2000);
    d.tick(0b1, 2100);
    assert_eq!(d.tick(0b1, 3100), Some(BoardChange { mask: 0b1, state: 0b1 }));
}
