use bevy::platform::collections::HashMap;
use turn_base_demo::attribute::{Attribute, UNIT};
use turn_base_demo::attribute_set::AttributeSet;
use turn_base_demo::skill::{
    new_damage_skill_effect_result, DamageSkillEffectProcessor, Skill, SkillComponent,
    SkillContext, SkillEffect, SkillEffectProcessor, SkillEffectProcessorContainer,
    SkillEffectResult, SkillProperty,
};
use turn_base_demo::skill_attribute_set::SkillAttributeSet;

fn get_test_skill_attribute_set() -> SkillAttributeSet {
    let mut set = SkillAttributeSet::default();

    let mut health = Attribute::default();
    health.attribute_name = SkillAttributeSet::HEALTH.to_string();

    set.get_attribute_set_mut().insert_attribute(health);

    let mut max_health = Attribute::default();
    max_health.attribute_name = SkillAttributeSet::MAX_HEALTH.to_string();

    max_health.set_base_value(10 * UNIT);

    set.get_attribute_set_mut().insert_attribute(max_health);

    set
}

fn current(set: &SkillAttributeSet, name: &str) -> i64 {
    set.get_attribute_set().get(name).unwrap().get_current_value()
}

#[test]
fn test_skill_attribute_set() {
    let mut set = get_test_skill_attribute_set();

    set.update_attribute_current_value(SkillAttributeSet::HEALTH, 20 * UNIT);

    let current_value = current(&set, SkillAttributeSet::HEALTH);

    assert_eq!(current_value, 10 * UNIT);

    set.update_attribute_base_value(SkillAttributeSet::HEALTH, 20 * UNIT);

    let current_value = current(&set, SkillAttributeSet::HEALTH);

    assert_eq!(current_value, 10 * UNIT);
}

#[test]
fn skill_health_never_goes_below_zero() {
    let mut set = get_test_skill_attribute_set();
    set.update_attribute_current_value(SkillAttributeSet::HEALTH, -3 * UNIT);
    assert_eq!(0, current(&set, SkillAttributeSet::HEALTH));
}

#[test]
fn lowering_max_health_lowers_health() {
    let mut set = get_test_skill_attribute_set();
    set.update_attribute_current_value(SkillAttributeSet::HEALTH, 8 * UNIT);
    assert_eq!(8 * UNIT, current(&set, SkillAttributeSet::HEALTH));
    set.update_attribute_base_value(SkillAttributeSet::MAX_HEALTH, 5 * UNIT);
    assert_eq!(5 * UNIT, current(&set, SkillAttributeSet::MAX_HEALTH));
    assert_eq!(5 * UNIT, current(&set, SkillAttributeSet::HEALTH));
    set.update_attribute_base_value(SkillAttributeSet::MAX_HEALTH, 9 * UNIT);
    assert_eq!(5 * UNIT, current(&set, SkillAttributeSet::HEALTH));
}

#[test]
fn uncapped_power_is_free() {
    let mut set = SkillAttributeSet::default();
    let mut power = Attribute::default();
    power.attribute_name = SkillAttributeSet::POWER.to_string();
    set.get_attribute_set_mut().insert_attribute(power);
    set.update_attribute_current_value(SkillAttributeSet::POWER, 70 * UNIT);
    assert_eq!(70 * UNIT, current(&set, SkillAttributeSet::POWER));
    assert_eq!(
        70 * UNIT,
        set.get_target_attribute_current_value_with_max_attribute_name("max_power", 70 * UNIT)
    );
    assert_eq!(
        10 * UNIT,
        get_test_skill_attribute_set()
            .get_target_attribute_current_value_with_max_attribute_name("max_health", 70 * UNIT)
    );
}

fn component() -> SkillComponent {
    SkillComponent { attribute_set: AttributeSet::default() }
}

fn effect(name: &str) -> SkillEffect {
    SkillEffect { skill_effect_name: name.to_string(), payload: HashMap::default() }
}

#[test]
fn damage_result_payload() {
    let res = new_damage_skill_effect_result();
    assert_eq!(Some(SkillProperty::Number(0)), res.get_value("damage"));
    assert_eq!(Some(SkillProperty::Flag(false)), res.get_value("hit"));
    assert_eq!(None, res.get_value("crit"));
    assert_eq!("damage_skill_effect", DamageSkillEffectProcessor::name());
}

#[test]
fn set_value_replaces_by_name() {
    let mut res = SkillEffectResult::default();
    res.set_value("damage", SkillProperty::Number(3));
    res.set_value("damage", SkillProperty::Number(5));
    assert_eq!(1, res.payload.len());
    assert_eq!(Some(SkillProperty::Number(5)), res.get_value("damage"));
}

#[test]
fn execute_runs_registered_effects() {
    let container = SkillEffectProcessorContainer::new();
    let skill = Skill {
        skill_name: "strike".to_string(),
        display_name: "Strike".to_string(),
        effcts: vec![effect("damage_skill_effect"), effect("unknown"), effect("damage_skill_effect")],
    };
    let context = match container.execute(&component(), &component(), &skill) {
        Ok(c) => c,
        Err(_) => panic!("the damage effect does not fail"),
    };
    assert_eq!(1, context.results.len());
    let damage = context.results.get("damage_skill_effect").unwrap();
    assert_eq!(Some(SkillProperty::Number(0)), damage.get_value("damage"));
}

#[test]
fn execute_without_processors_collects_nothing() {
    let container = SkillEffectProcessorContainer::<DamageSkillEffectProcessor>::empty();
    let skill = Skill {
        skill_name: "strike".to_string(),
        display_name: "Strike".to_string(),
        effcts: vec![effect("damage_skill_effect")],
    };
    match container.execute(&component(), &component(), &skill) {
        Ok(c) => assert!(c.results.is_empty()),
        Err(_) => panic!("nothing ran"),
    }
}

#[test]
fn insert_result_replaces_by_name() {
    let mut context = SkillContext::default();
    context.insert_result("a".to_string(), SkillEffectResult::new());
    context.insert_result("a".to_string(), new_damage_skill_effect_result());
    assert_eq!(1, context.results.len());
    assert_eq!(2, context.results.get("a").unwrap().payload.len());
}
