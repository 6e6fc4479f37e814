use turn_base_demo::number_generator::{
    NumberGenerator, NumberGeneratorContainer, NumberRange, RandNumberGenerator,
};

struct Lowest;

impl NumberGenerator for Lowest {
    fn generate(&mut self, range: &NumberRange) -> usize {
        range.start()
    }
}

#[test]
fn range_set_end_pulls_start_down() {
    let mut range = NumberRange::new("rand", 5, 10);
    assert_eq!(5, range.start());
    assert_eq!(10, range.end());
    range.set_end(3);
    assert_eq!(3, range.start());
    assert_eq!(3, range.end());
    range.set_end(8);
    assert_eq!(3, range.start());
    assert_eq!(8, range.end());
}

#[test]
fn range_set_start_pushes_end_up() {
    let mut range = NumberRange::new("rand", 1, 4);
    range.set_start(9);
    assert_eq!(9, range.start());
    assert_eq!(9, range.end());
    range.set_start(2);
    assert_eq!(2, range.start());
    assert_eq!(9, range.end());
}

#[test]
fn range_new_orders_bounds() {
    let range = NumberRange::new("dice", 6, 2);
    assert_eq!(2, range.start());
    assert_eq!(2, range.end());
    assert_eq!("dice", range.name);
}

#[test]
fn random_numbers_stay_in_range() {
    let mut container = NumberGeneratorContainer::new();
    let range = NumberRange::new("rand", 3, 7);
    for _ in 0..100 {
        let v = container.generate(&range).unwrap();
        assert!(3 <= v && v < 7);
    }
    let mut single = RandNumberGenerator::default();
    assert_eq!(5, single.generate(&NumberRange::new("rand", 5, 6)));
}

#[test]
fn unknown_generator_gives_none() {
    let mut container = NumberGeneratorContainer::<RandNumberGenerator>::empty();
    assert_eq!(None, container.generate(&NumberRange::new("rand", 0, 2)));
    let mut container = NumberGeneratorContainer::new();
    assert_eq!(None, container.generate(&NumberRange::new("dice", 0, 2)));
}

#[test]
fn registered_generator_is_used() {
    let mut container = NumberGeneratorContainer::empty();
    container.register("low", Lowest);
    assert_eq!(Some(4), container.generate(&NumberRange::new("low", 4, 9)));
    assert_eq!(None, container.generate(&NumberRange::new("rand", 4, 9)));
}

#[test]
fn unknown_generator_with_empty_range_gives_none() {
    let mut container = NumberGeneratorContainer::new();
    assert_eq!(None, container.generate(&NumberRange::new("dice", 4, 4)));
}
