use turn_base_demo::attribute::{
    Attribute, AttributeModifier, ModifierOperation, ModifierPriority, UNIT,
};

fn modifier(operation: ModifierOperation, value: i64) -> AttributeModifier {
    let mut m = AttributeModifier::empty();
    m.operation = operation;
    m.value = value;
    m
}

#[test]
fn test_attribute() {
    let mut absolute_modifier = AttributeModifier::empty();
    absolute_modifier.operation = ModifierOperation::Absolute;
    absolute_modifier.value = 20 * UNIT;

    let mut attribute = Attribute::default();
    attribute.set_base_value(0);
    assert_eq!(0, attribute.get_base_value());

    attribute.add_modifier(&absolute_modifier);
    assert_eq!(20 * UNIT, attribute.get_current_value());

    attribute.remove_modifier(&absolute_modifier);
    assert_eq!(0, attribute.get_current_value());

    let mut percentage_modifier = AttributeModifier::empty();
    percentage_modifier.operation = ModifierOperation::Percentage;
    percentage_modifier.value = UNIT / 2;

    attribute.set_base_value(10 * UNIT);
    attribute.add_modifier(&percentage_modifier);

    assert_eq!(15 * UNIT, attribute.get_current_value());
    attribute.remove_modifier(&percentage_modifier);

    let mut override_modifier1 = AttributeModifier::empty();
    override_modifier1.operation = ModifierOperation::Override;
    override_modifier1.value = 10 * UNIT;
    override_modifier1.priority = ModifierPriority::low();

    attribute.add_modifier(&override_modifier1);

    assert_eq!(10 * UNIT, attribute.get_current_value());

    let mut override_modifier2 = AttributeModifier::empty();
    override_modifier2.operation = ModifierOperation::Override;
    override_modifier2.value = 20 * UNIT;

    attribute.add_modifier(&override_modifier2);

    assert_eq!(20 * UNIT, attribute.get_current_value());
}

#[test]
fn setting_base_value_twice_matches_once() {
    let mut attribute = Attribute::default();
    attribute.add_modifier(&modifier(ModifierOperation::Absolute, 3 * UNIT));
    attribute.add_modifier(&modifier(ModifierOperation::Percentage, UNIT / 4));
    attribute.set_base_value(8 * UNIT);
    let once = attribute.get_current_value();
    attribute.set_base_value(8 * UNIT);
    assert_eq!(once, attribute.get_current_value());
    assert_eq!(13 * UNIT, once);
}

#[test]
fn absolute_and_percentage_in_either_order() {
    let absolute = modifier(ModifierOperation::Absolute, 20 * UNIT);
    let percentage = modifier(ModifierOperation::Percentage, UNIT / 2);

    let mut first = Attribute::default();
    first.set_base_value(10 * UNIT);
    first.add_modifier(&absolute);
    first.add_modifier(&percentage);

    let mut second = Attribute::default();
    second.set_base_value(10 * UNIT);
    second.add_modifier(&percentage);
    second.add_modifier(&absolute);

    assert_eq!(35 * UNIT, first.get_current_value());
    assert_eq!(35 * UNIT, second.get_current_value());
}

#[test]
fn higher_priority_override_wins_and_removal_reverts() {
    let mut attribute = Attribute::default();
    attribute.set_base_value(10 * UNIT);
    attribute.add_modifier(&modifier(ModifierOperation::Absolute, 20 * UNIT));
    attribute.add_modifier(&modifier(ModifierOperation::Percentage, UNIT / 2));

    let mut low = modifier(ModifierOperation::Override, 10 * UNIT);
    low.priority = ModifierPriority::low();
    let high = AttributeModifier::new_override_modifier("shield", 20 * UNIT);

    attribute.add_modifier(&high);
    attribute.add_modifier(&low);
    assert_eq!(20 * UNIT, attribute.get_current_value());

    attribute.remove_modifier(&high);
    assert_eq!(10 * UNIT, attribute.get_current_value());

    attribute.remove_modifier(&low);
    assert_eq!(35 * UNIT, attribute.get_current_value());
}

#[test]
fn equal_priority_overrides_first_added_wins() {
    let mut attribute = Attribute::default();
    attribute.add_modifier(&AttributeModifier::new_override_modifier("a", 4 * UNIT));
    attribute.add_modifier(&AttributeModifier::new_override_modifier("b", 9 * UNIT));
    assert_eq!(4 * UNIT, attribute.get_current_value());
}

#[test]
fn adding_then_removing_restores_value() {
    let mut attribute = Attribute::default();
    attribute.set_base_value(7 * UNIT);
    attribute.add_modifier(&modifier(ModifierOperation::Percentage, UNIT));
    let before = attribute.get_current_value();

    let extra = modifier(ModifierOperation::Absolute, 5 * UNIT);
    attribute.add_modifier(&extra);
    assert_eq!(before + 5 * UNIT, attribute.get_current_value());
    attribute.remove_modifier(&extra);
    assert_eq!(before, attribute.get_current_value());
    assert_eq!(14 * UNIT, before);
}

#[test]
fn adding_the_same_modifier_twice_counts_once() {
    let mut attribute = Attribute::default();
    let m = modifier(ModifierOperation::Absolute, 2 * UNIT);
    attribute.add_modifier(&m);
    attribute.add_modifier(&m.duplicate());
    assert_eq!(2 * UNIT, attribute.get_current_value());
}

#[test]
fn removing_an_absent_modifier_changes_nothing() {
    let mut attribute = Attribute::default();
    attribute.set_base_value(3 * UNIT);
    attribute.set_current_value(UNIT);
    attribute.remove_modifier(&modifier(ModifierOperation::Absolute, 2 * UNIT));
    assert_eq!(UNIT, attribute.get_current_value());
}

#[test]
fn negative_value_policy_raises_to_zero() {
    let mut attribute = Attribute::default();
    attribute.can_be_negative = false;
    attribute.set_base_value(0);
    attribute.add_modifier(&modifier(ModifierOperation::Absolute, -5 * UNIT));
    assert_eq!(0, attribute.get_current_value());
}

#[test]
fn negative_values_pass_when_allowed() {
    let mut attribute = Attribute::default();
    attribute.add_modifier(&modifier(ModifierOperation::Absolute, -5 * UNIT));
    assert_eq!(-5 * UNIT, attribute.get_current_value());
}

#[test]
fn override_is_clamped_to_range() {
    let mut attribute = Attribute::default();
    attribute.min_value = 0;
    attribute.max_value = 100 * UNIT;
    attribute.add_modifier(&AttributeModifier::new_override_modifier("boost", 500 * UNIT));
    assert_eq!(100 * UNIT, attribute.get_current_value());
}

#[test]
fn set_current_value_clamps_both_ends() {
    let mut attribute = Attribute::default();
    attribute.min_value = -UNIT;
    attribute.max_value = UNIT;
    attribute.set_current_value(-2 * UNIT);
    assert_eq!(-UNIT, attribute.get_current_value());
    attribute.set_current_value(2 * UNIT);
    assert_eq!(UNIT, attribute.get_current_value());
    attribute.set_current_value(UNIT / 2);
    assert_eq!(UNIT / 2, attribute.get_current_value());
}

#[test]
fn percentage_rounds_toward_zero() {
    let mut attribute = Attribute::default();
    attribute.set_base_value(3);
    attribute.add_modifier(&modifier(ModifierOperation::Percentage, UNIT / 2));
    assert_eq!(4, attribute.get_current_value());

    attribute.set_base_value(-3);
    assert_eq!(-4, attribute.get_current_value());
}

#[test]
fn percentage_is_taken_of_the_base() {
    let mut attribute = Attribute::default();
    attribute.set_base_value(10 * UNIT);
    attribute.add_modifier(&modifier(ModifierOperation::Absolute, 90 * UNIT));
    attribute.add_modifier(&modifier(ModifierOperation::Percentage, UNIT / 10));
    attribute.add_modifier(&modifier(ModifierOperation::Percentage, UNIT / 10));
    assert_eq!(102 * UNIT, attribute.get_current_value());
}

#[test]
fn sums_saturate() {
    let mut attribute = Attribute::default();
    attribute.set_base_value(i64::MAX);
    attribute.add_modifier(&modifier(ModifierOperation::Absolute, 1));
    assert_eq!(i64::MAX, attribute.get_current_value());
    attribute.add_modifier(&modifier(ModifierOperation::Percentage, 2 * UNIT));
    assert_eq!(i64::MAX, attribute.get_current_value());
}

#[test]
fn insert_modifier_replaces_by_source() {
    let mut attribute = Attribute::default();
    attribute.set_base_value(UNIT);
    let mut first = modifier(ModifierOperation::Absolute, 5 * UNIT);
    first.source_id = "buff".to_string();
    let mut second = modifier(ModifierOperation::Absolute, 7 * UNIT);
    second.source_id = "buff".to_string();
    let mut other = modifier(ModifierOperation::Absolute, 2 * UNIT);
    other.source_id = "aura".to_string();

    attribute.insert_modifier(&first);
    assert_eq!(6 * UNIT, attribute.get_current_value());
    attribute.insert_modifier(&other);
    attribute.insert_modifier(&second);
    assert_eq!(10 * UNIT, attribute.get_current_value());
}

#[test]
fn keyed_override_competes_with_listed_ones() {
    let mut attribute = Attribute::default();
    let mut listed = AttributeModifier::new_override_modifier("a", 3 * UNIT);
    listed.priority = ModifierPriority::low();
    attribute.add_modifier(&listed);
    attribute.insert_modifier(&AttributeModifier::new_override_modifier("b", 6 * UNIT));
    assert_eq!(6 * UNIT, attribute.get_current_value());
}

#[test]
fn new_override_modifier_fields() {
    let m = AttributeModifier::new_override_modifier("skill", 42);
    assert_eq!(ModifierOperation::Override, m.operation);
    assert_eq!(42, m.value);
    assert_eq!("skill", m.source_id);
    assert_eq!(ModifierPriority::normal(), m.priority);
    assert_eq!(ModifierPriority::default(), ModifierPriority::normal());
    assert!(ModifierPriority::low() < ModifierPriority::normal());
}

#[test]
fn modifiers_are_equal_by_identity() {
    let a = AttributeModifier::empty();
    let b = AttributeModifier::empty();
    assert!(a == a.duplicate());
    assert!(a != b);
}

#[test]
fn default_attribute() {
    let attribute = Attribute::default();
    assert_eq!(0, attribute.get_base_value());
    assert_eq!(0, attribute.get_current_value());
    assert_eq!(i64::MIN, attribute.min_value);
    assert_eq!(i64::MAX, attribute.max_value);
    assert!(attribute.can_be_negative);
    assert_eq!("power", Attribute::named("power").name());
}

#[test]
fn setters_recalculate() {
    let mut attribute = Attribute::default();
    attribute.add_modifier(&modifier(ModifierOperation::Absolute, -5 * UNIT));
    assert_eq!(-5 * UNIT, attribute.get_current_value());
    attribute.set_can_be_negative(false);
    assert_eq!(0, attribute.get_current_value());
    attribute.set_can_be_negative(true);
    attribute.set_range(-2 * UNIT, 100 * UNIT);
    assert_eq!(-2 * UNIT, attribute.get_current_value());
    assert_eq!(-2 * UNIT, attribute.min_value);
    assert_eq!(100 * UNIT, attribute.max_value);
}

#[test]
fn override_is_clamped_by_set_range() {
    let mut attribute = Attribute::default();
    attribute.set_range(0, 100 * UNIT);
    attribute.add_modifier(&AttributeModifier::new_override_modifier("src", 500 * UNIT));
    assert_eq!(100 * UNIT, attribute.get_current_value());
}
