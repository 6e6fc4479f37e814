use turn_base_demo::attribute::{Attribute, AttributeModifier, UNIT};
use turn_base_demo::attribute_set::AttributeSet;
use turn_base_demo::constraint::{
    AttributeConstraint, AttributeConstraintProcessorContainer, MaxAttributeConstraintProcessor,
};
use turn_base_demo::skill::AttributeUtils;

fn new_attribute_set() -> AttributeSet {
    let mut set = AttributeSet::default();

    let mut power = Attribute::default();
    power.attribute_name = "power".to_string();
    power.set_base_value(10 * UNIT);
    set.insert_attribute(power);

    let mut max_power = Attribute::default();
    max_power.attribute_name = "max_power".to_string();
    max_power.set_base_value(30 * UNIT);
    set.insert_attribute(max_power);

    set.insert_constraint(AttributeConstraint {
        attribute_name: "max_power".to_string(),
        target_attribute_name: "power".to_string(),
        constraint_name: "max".to_string(),
    });

    set
}

fn current(set: &AttributeSet, name: &str) -> i64 {
    set.get(name).unwrap().get_current_value()
}

#[test]
fn test_attribute_set() {
    let mut set = new_attribute_set();

    let container = AttributeConstraintProcessorContainer::new();

    set.update_attribute_base_value("power", 40 * UNIT, &container);

    assert_eq!(30 * UNIT, current(&set, "power"));

    set.update_attribute_base_value("max_power", 35 * UNIT, &container);

    assert_eq!(35 * UNIT, current(&set, "power"));
}

#[test]
fn unchanged_proposal_runs_no_cascade() {
    let mut set = new_attribute_set();
    let container = AttributeConstraintProcessorContainer::new();
    set.update_attribute_current_value("max_power", 5 * UNIT, &container);
    assert_eq!(10 * UNIT, current(&set, "power"));
    assert_eq!(30 * UNIT, current(&set, "max_power"));
}

#[test]
fn clamped_proposal_is_stored() {
    let mut set = new_attribute_set();
    let container = AttributeConstraintProcessorContainer::new();
    set.update_attribute_current_value("power", 50 * UNIT, &container);
    assert_eq!(30 * UNIT, current(&set, "power"));
}

#[test]
fn lowering_the_cap_pulls_the_target_down() {
    let mut set = new_attribute_set();
    let container = AttributeConstraintProcessorContainer::new();
    set.update_attribute_base_value("max_power", 4 * UNIT, &container);
    assert_eq!(4 * UNIT, current(&set, "max_power"));
    assert_eq!(4 * UNIT, current(&set, "power"));
}

#[test]
fn unknown_attribute_is_ignored() {
    let mut set = new_attribute_set();
    let container = AttributeConstraintProcessorContainer::new();
    set.update_attribute_base_value("mana", 5 * UNIT, &container);
    set.update_attribute_current_value("mana", 5 * UNIT, &container);
    assert!(set.get("mana").is_none());
    assert_eq!(10 * UNIT, current(&set, "power"));
    assert_eq!(30 * UNIT, current(&set, "max_power"));
}

#[test]
fn unregistered_processor_is_skipped() {
    let mut set = new_attribute_set();
    let container = AttributeConstraintProcessorContainer::<MaxAttributeConstraintProcessor>::empty();
    set.update_attribute_base_value("power", 40 * UNIT, &container);
    assert_eq!(40 * UNIT, current(&set, "power"));
}

#[test]
fn unchanged_base_value_runs_no_cascade() {
    let mut set = new_attribute_set();
    let container = AttributeConstraintProcessorContainer::new();
    set.update_attribute_base_value("power", 40 * UNIT, &container);
    set.update_attribute_base_value("max_power", 30 * UNIT, &container);
    assert_eq!(30 * UNIT, current(&set, "power"));
}

#[test]
fn cascade_floors_at_zero() {
    let mut set = new_attribute_set();
    let container = AttributeConstraintProcessorContainer::new();
    let mut drain = AttributeModifier::empty();
    drain.value = -20 * UNIT;
    let mut power = Attribute::default();
    power.attribute_name = "power".to_string();
    power.set_base_value(10 * UNIT);
    power.add_modifier(&drain);
    set.insert_attribute(power);
    assert_eq!(-10 * UNIT, current(&set, "power"));
    set.update_attribute_base_value("max_power", 20 * UNIT, &container);
    assert_eq!(0, current(&set, "power"));
}

#[test]
fn duplicate_constraint_is_ignored() {
    let mut set = new_attribute_set();
    set.insert_constraint(AttributeConstraint {
        attribute_name: "max_power".to_string(),
        target_attribute_name: "power".to_string(),
        constraint_name: "max".to_string(),
    });
    let container = AttributeConstraintProcessorContainer::new();
    set.update_attribute_base_value("power", 40 * UNIT, &container);
    assert_eq!(30 * UNIT, current(&set, "power"));
}

#[test]
fn inserting_an_attribute_replaces_by_name() {
    let mut set = new_attribute_set();
    let mut power = Attribute::default();
    power.attribute_name = "power".to_string();
    power.set_base_value(2 * UNIT);
    set.insert_attribute(power);
    assert_eq!(2 * UNIT, current(&set, "power"));
}

#[test]
fn registry_lookup() {
    let mut container = AttributeConstraintProcessorContainer::new();
    assert!(container.get_processor("max").is_some());
    assert!(container.get_processor("min").is_none());
    container.add_processor("min", MaxAttributeConstraintProcessor);
    assert!(container.get_processor("min").is_some());
    let empty = AttributeConstraintProcessorContainer::<MaxAttributeConstraintProcessor>::empty();
    assert!(empty.get_processor("max").is_none());
}

#[test]
fn skill_attribute_set_matches_setup() {
    let mut set = AttributeUtils::new_skill_attribute_set();
    assert_eq!(10 * UNIT, current(&set, "power"));
    assert_eq!(30 * UNIT, current(&set, "max_power"));
    let container = AttributeConstraintProcessorContainer::default();
    set.update_attribute_base_value("power", 40 * UNIT, &container);
    assert_eq!(30 * UNIT, current(&set, "power"));
}

#[test]
fn constraints_compare_by_names() {
    let a = AttributeConstraint {
        attribute_name: "a".to_string(),
        target_attribute_name: "b".to_string(),
        constraint_name: "max".to_string(),
    };
    let mut b = a.clone();
    assert!(a == b);
    b.constraint_name = "min".to_string();
    assert!(a != b);
}
