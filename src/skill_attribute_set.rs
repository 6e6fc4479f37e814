use vstd::prelude::*;

use crate::attribute::{clamp, Attribute};
use crate::attribute_set::AttributeSet;

verus! {

/// The attribute that caps `name` under the skill rules: "max_health" caps
/// "health" and "max_power" caps "power".
pub open spec fn cap_of(name: Seq<char>) -> Option<Seq<char>> {
    if name == "health"@ {
        Some("max_health"@)
    } else if name == "power"@ {
        Some("max_power"@)
    } else {
        None
    }
}

/// The attribute that `name` caps under the skill rules.
pub open spec fn capped_by(name: Seq<char>) -> Option<Seq<char>> {
    if name == "max_health"@ {
        Some("health"@)
    } else if name == "max_power"@ {
        Some("power"@)
    } else {
        None
    }
}

/// `value` clamped into `[0, current value of the attribute max_name]`
/// (checked against 0 first); `value` when there is no such attribute.
pub open spec fn capped_value(
    attrs: Map<Seq<char>, Attribute>,
    max_name: Seq<char>,
    value: i64,
) -> i64 {
    if attrs.contains_key(max_name) {
        clamp(value as int, 0, attrs[max_name].current_spec()) as i64
    } else {
        value
    }
}

/// The pre-update rule: a proposal for a capped attribute is clamped by its cap.
pub open spec fn skill_proposal(
    attrs: Map<Seq<char>, Attribute>,
    name: Seq<char>,
    value: i64,
) -> i64 {
    match cap_of(name) {
        Some(max_name) => capped_value(attrs, max_name, value),
        None => value,
    }
}

/// The post-update rule: when a cap settled on `value`, the attribute it caps
/// keeps at most `value`.
pub open spec fn skill_cascade(
    attrs: Map<Seq<char>, Attribute>,
    name: Seq<char>,
    value: i64,
) -> Map<Seq<char>, Attribute> {
    match capped_by(name) {
        Some(target) => if attrs.contains_key(target) {
            let current = attrs[target].current_spec();
            attrs.insert(
                target,
                attrs[target].with_current(
                    if value < current {
                        value as int
                    } else {
                        current
                    },
                ),
            )
        } else {
            attrs
        },
        None => attrs,
    }
}

/// A current value `value` for `name` under the skill rules: clamped by its
/// cap, stored, and passed on to what it caps.
pub open spec fn skill_update(
    attrs: Map<Seq<char>, Attribute>,
    name: Seq<char>,
    value: i64,
) -> Map<Seq<char>, Attribute> {
    if attrs.contains_key(name) {
        let stored = attrs.insert(
            name,
            attrs[name].with_current(skill_proposal(attrs, name, value) as int),
        );
        skill_cascade(stored, name, stored[name].current_spec() as i64)
    } else {
        attrs
    }
}

/// An attribute set under fixed skill rules: health within `[0, max_health]`
/// and power within `[0, max_power]`.
pub struct SkillAttributeSet(AttributeSet);

impl Default for SkillAttributeSet {
    fn default() -> (r: Self)
        ensures
            r.attributes_spec() == Map::<Seq<char>, Attribute>::empty(),
    {
        SkillAttributeSet(AttributeSet::default())
    }
}

impl SkillAttributeSet {
    pub const HEALTH: &'static str = "health";

    pub const MAX_HEALTH: &'static str = "max_health";

    pub const POWER: &'static str = "power";

    pub const MAX_POWER: &'static str = "max_power";

    pub closed spec fn attributes_spec(&self) -> Map<Seq<char>, Attribute> {
        self.0.attributes_spec()
    }

    pub fn get_attribute_set(&self) -> (r: &AttributeSet)
        ensures
            r.attributes_spec() == self.attributes_spec(),
    {
        &self.0
    }

    pub fn get_attribute_set_mut(&mut self) -> (r: &mut AttributeSet)
        ensures
            r.attributes_spec() == old(self).attributes_spec(),
            final(self).attributes_spec() == final(r).attributes_spec(),
    {
        &mut self.0
    }

    /// `value` clamped into `[0, current value of max_attribute_name]`, or
    /// `value` when there is no such attribute.
    pub fn get_target_attribute_current_value_with_max_attribute_name(
        &self,
        max_attribute_name: &str,
        value: i64,
    ) -> (r: i64)
        ensures
            r == capped_value(self.attributes_spec(), max_attribute_name@, value),
    {
        match self.0.get(max_attribute_name) {
            Some(attribute) => {
                let max = attribute.get_current_value();
                if value < 0 {
                    0
                } else if value > max {
                    max
                } else {
                    value
                }
            },
            None => value,
        }
    }

    /// The pre-update rule for a proposed current value of `attribute_name`.
    pub fn on_before_update_attribute_current_value(&self, attribute_name: &str, value: i64) -> (r:
        i64)
        ensures
            r == skill_proposal(self.attributes_spec(), attribute_name@, value),
    {
        proof {
            reveal_strlit("health");
            reveal_strlit("max_health");
            reveal_strlit("power");
            reveal_strlit("max_power");
        }
        if text_is(attribute_name, Self::HEALTH) {
            self.get_target_attribute_current_value_with_max_attribute_name(Self::MAX_HEALTH, value)
        } else if text_is(attribute_name, Self::POWER) {
            self.get_target_attribute_current_value_with_max_attribute_name(Self::MAX_POWER, value)
        } else {
            value
        }
    }

    /// The post-update rule after `attribute_name` settled on `value`.
    pub fn on_after_update_attribute_current_value(&mut self, attribute_name: &str, value: i64)
        ensures
            final(self).attributes_spec() == skill_cascade(
                old(self).attributes_spec(),
                attribute_name@,
                value,
            ),
    {
        proof {
            reveal_strlit("health");
            reveal_strlit("max_health");
            reveal_strlit("power");
            reveal_strlit("max_power");
        }
        let target = if text_is(attribute_name, Self::MAX_HEALTH) {
            Self::HEALTH
        } else if text_is(attribute_name, Self::MAX_POWER) {
            Self::POWER
        } else {
            return ;
        };
        if let Some(attribute) = self.0.get(target) {
            let current = attribute.get_current_value();
            let bounded = if value < current {
                value
            } else {
                current
            };
            self.0.store_current_value(target, bounded);
        }
    }

    /// Brings a current value for `attribute_name` through the skill rules;
    /// an unknown name changes nothing.
    pub fn update_attribute_current_value(&mut self, attribute_name: &str, value: i64)
        ensures
            final(self).attributes_spec() == skill_update(
                old(self).attributes_spec(),
                attribute_name@,
                value,
            ),
    {
        let adjusted = self.on_before_update_attribute_current_value(attribute_name, value);
        if let Some(settled) = self.0.store_current_value(attribute_name, adjusted) {
            self.on_after_update_attribute_current_value(attribute_name, settled);
        }
    }

    /// Sets the base value of `attribute_name` and brings the new current
    /// value through the skill rules; an unknown name changes nothing.
    pub fn update_attribute_base_value(&mut self, attribute_name: &str, value: i64)
        ensures
            ({
                let attrs = old(self).attributes_spec();
                let rebased = attrs.insert(attribute_name@, attrs[attribute_name@].with_base(value));
                &&& !attrs.contains_key(attribute_name@) ==> final(self).attributes_spec() == attrs
                &&& attrs.contains_key(attribute_name@) ==> final(self).attributes_spec()
                    == skill_update(
                    rebased,
                    attribute_name@,
                    rebased[attribute_name@].current_spec() as i64,
                )
            }),
    {
        if let Some(current) = self.0.store_base_value(attribute_name, value) {
            self.update_attribute_current_value(attribute_name, current);
        }
    }
}

fn text_is(a: &str, b: &str) -> (r: bool)
    ensures
        r == (a@ == b@),
{
    let owned = a.to_owned();
    let other = b.to_owned();
    owned == other
}

} // verus!
