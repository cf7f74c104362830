use digiko_swap::counter::Counter;

#[test]
fn counter_starts_at_zero_and_counts() {
    let mut c = Counter::init();
    assert_eq!(c.get_counter(), 0);
    c.increment();
    c.increment();
    assert_eq!(c.get_counter(), 2);
    c.decrement();
    assert_eq!(c.get_counter(), 1);
}

#[test]
fn counter_decrement_stops_at_zero() {
    let mut c = Counter::init();
    c.decrement();
    assert_eq!(c.get_counter(), 0);
}

#[test]
fn counter_set_and_reset() {
    let mut c = Counter::init();
    c.set_counter(41);
    c.increment();
    assert_eq!(c.get_counter(), 42);
    c.reset();
    assert_eq!(c.get_counter(), 0);
}
