use flowframe::flow_control::Credits;

#[test]
fn new_credits_are_all_available() {
    let c = Credits::new(10);
    assert_eq!(c.capacity(), 10);
    assert_eq!(c.available(), 10);
    assert!(c.has_capacity(10));
    assert!(!c.has_capacity(11));
}

#[test]
fn use_credit_takes_and_refuses() {
    let mut c = Credits::new(10);
    assert_eq!(c.use_credit(4), Ok(6));
    assert_eq!(c.available(), 6);
    assert_eq!(c.use_credit(7), Err(()));
    assert_eq!(c.available(), 6);
    assert_eq!(c.use_credit(6), Ok(0));
    assert!(!c.has_capacity(1));
}

#[test]
fn add_credit_saturates_at_capacity() {
    let mut c = Credits::new(10);
    assert_eq!(c.use_credit(8), Ok(2));
    assert_eq!(c.add_credit(3), 5);
    assert_eq!(c.add_credit(100), 10);
    assert_eq!(c.capacity(), 10);
}

#[test]
fn use_then_add_restores_available() {
    let mut c = Credits::new(50);
    assert_eq!(c.use_credit(20), Ok(30));
    assert_eq!(c.use_credit(5), Ok(25));
    assert_eq!(c.add_credit(5), 30);
}

#[test]
fn set_capacity_clips_available() {
    let mut c = Credits::new(10);
    c.set_capacity(4);
    assert_eq!(c.capacity(), 4);
    assert_eq!(c.available(), 4);
    c.set_capacity(8);
    assert_eq!(c.capacity(), 8);
    assert_eq!(c.available(), 4);
}

#[test]
fn add_credit_saturates_for_the_largest_credit() {
    let mut c = Credits::new(u32::MAX);
    assert_eq!(c.use_credit(1), Ok(u32::MAX - 1));
    assert_eq!(c.add_credit(u32::MAX), u32::MAX);
    assert_eq!(c.available(), u32::MAX);
    let mut d = Credits::new(7);
    assert_eq!(d.add_credit(u32::MAX), 7);
}
