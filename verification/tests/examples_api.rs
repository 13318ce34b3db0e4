use cargo_c::examples::{add_two, OddCounter};

#[test]
fn add_two_to_fourty() {
    assert_eq!(add_two(40), 42);
}

#[test]
fn create42() {
    assert!(OddCounter::new(42).is_err());
}

#[test]
fn increment43() {
    let mut counter = OddCounter::new(43).unwrap();
    counter.increment();
    assert_eq!(counter.current(), 45);
}

#[test]
fn it_works() {
    assert_eq!(2 + 2, 4);
}
