use vstd::prelude::*;


use crate::attribute::{Attribute, AttributeModifier, UNIT};
use crate::attribute_set::AttributeSet;
use crate::maps::{
    empty_payload, empty_result_map, payload_entries, payload_get, payload_insert, result_entries,
    result_insert, Payload, ResultMap,
};
use crate::constraint::{registered, AttributeConstraint};

verus! {

/// Ready-made attribute sets for skill users.
pub struct AttributeUtils;

impl AttributeUtils {
    /// "power" with base value 10 and "max_power" with base value 30, where
    /// "max_power" bounds "power" under the "max" rule.
    pub fn new_skill_attribute_set() -> (r: AttributeSet)
        ensures
            r.attributes_spec().dom() =~= set!["power"@, "max_power"@],
            r.attributes_spec()["power"@].name_spec() == "power"@,
            r.attributes_spec()["power"@].base_spec() == 10 * UNIT,
            r.attributes_spec()["power"@].current_spec() == 10 * UNIT,
            r.attributes_spec()["power"@].active_modifiers() == Seq::<AttributeModifier>::empty(),
            r.attributes_spec()["power"@].min_spec() == i64::MIN,
            r.attributes_spec()["power"@].max_spec() == i64::MAX,
            r.attributes_spec()["power"@].negative_allowed(),
            r.attributes_spec()["max_power"@].name_spec() == "max_power"@,
            r.attributes_spec()["max_power"@].base_spec() == 30 * UNIT,
            r.attributes_spec()["max_power"@].current_spec() == 30 * UNIT,
            r.attributes_spec()["max_power"@].active_modifiers() == Seq::<AttributeModifier>::empty(),
            r.attributes_spec()["max_power"@].min_spec() == i64::MIN,
            r.attributes_spec()["max_power"@].max_spec() == i64::MAX,
            r.attributes_spec()["max_power"@].negative_allowed(),
            r.constraints_spec().len() == 1,
            r.constraints_spec()[0].attribute_name@ == "max_power"@,
            r.constraints_spec()[0].target_attribute_name@ == "power"@,
            r.constraints_spec()[0].constraint_name@ == "max"@,
    {
        let mut set = AttributeSet::default();

        let mut power = Attribute::named("power");
        power.set_base_value(10 * UNIT);
        set.insert_attribute(power);

        let mut max_power = Attribute::named("max_power");
        max_power.set_base_value(30 * UNIT);
        set.insert_attribute(max_power);

        set.insert_constraint(
            AttributeConstraint {
                attribute_name: "max_power".to_owned(),
                target_attribute_name: "power".to_owned(),
                constraint_name: "max".to_owned(),
            },
        );
        proof {
            reveal_strlit("power");
            reveal_strlit("max_power");
            assert("power"@ != "max_power"@) by {
                assert("power"@[1] != "max_power"@[1]);
            }
        }
        set
    }
}

} // verus!

verus! {

/// Why running an effect failed; what failed is the processor's own affair.
#[derive(Debug, Clone, Copy, PartialEq, Eq, Structural)]
pub enum SkillError {
    ProcessorFailed,
}

/// A value carried by an effect or its result.
#[derive(Debug, Clone, Copy, PartialEq, Eq, Structural)]
pub enum SkillProperty {
    Number(i64),
    Flag(bool),
}

pub struct Skill {
    pub skill_name: String,
    pub display_name: String,
    pub effcts: Vec<SkillEffect>,
}

/// What a skill works on: the attributes of its caster or of its target.
pub struct SkillComponent {
    pub attribute_set: AttributeSet,
}

/// One effect of a skill, named after the processor that runs it.
pub struct SkillEffect {
    pub skill_effect_name: String,
    pub payload: Payload,
}

/// The values that running one effect produced, by name.
pub struct SkillEffectResult {
    pub payload: Payload,
}

impl SkillEffectResult {
    pub open spec fn view_payload(&self) -> Map<Seq<char>, SkillProperty> {
        payload_entries(self.payload)
    }

    pub fn new() -> (r: Self)
        ensures
            r.view_payload() == Map::<Seq<char>, SkillProperty>::empty(),
    {
        SkillEffectResult { payload: empty_payload() }
    }

    /// Puts `value` under `name`, in place of an earlier value of that name.
    pub fn set_value(&mut self, name: &str, value: SkillProperty)
        ensures
            final(self).view_payload() == old(self).view_payload().insert(name@, value),
    {
        payload_insert(&mut self.payload, name.to_owned(), value);
    }

    pub fn get_value(&self, name: &str) -> (r: Option<SkillProperty>)
        ensures
            r == if self.view_payload().contains_key(name@) {
                Some(self.view_payload()[name@])
            } else {
                None
            },
    {
        payload_get(&self.payload, name)
    }
}

impl Default for SkillEffectResult {
    fn default() -> (r: Self)
        ensures
            r.view_payload() == Map::<Seq<char>, SkillProperty>::empty(),
    {
        Self::new()
    }
}

/// The results of the effects run so far, by processor name.
pub struct SkillContext {
    pub results: ResultMap,
}

/// The payloads of results kept by name.
pub open spec fn results_view(m: ResultMap) -> Map<Seq<char>, Map<Seq<char>, SkillProperty>> {
    result_entries(m).map_values(|r: SkillEffectResult| r.view_payload())
}

impl SkillContext {
    pub open spec fn view_results(&self) -> Map<Seq<char>, Map<Seq<char>, SkillProperty>> {
        results_view(self.results)
    }

    /// Puts `result` under `name`, in place of an earlier result of that name.
    pub fn insert_result(&mut self, name: String, result: SkillEffectResult)
        ensures
            final(self).view_results() == old(self).view_results().insert(
                name@,
                result.view_payload(),
            ),
    {
        let ghost k = name@;
        let ghost r = result;
        result_insert(&mut self.results, name, result);
        assert(self.view_results() =~= results_view(old(self).results).insert(k, r.view_payload()));
    }
}

impl Default for SkillContext {
    fn default() -> (r: Self)
        ensures
            r.view_results() == Map::<Seq<char>, Map<Seq<char>, SkillProperty>>::empty(),
    {
        let r = SkillContext { results: empty_result_map() };
        assert(r.view_results() =~= Map::<Seq<char>, Map<Seq<char>, SkillProperty>>::empty());
        r
    }
}

/// The behaviour of one kind of skill effect.
pub trait SkillEffectProcessor {
    spec fn name_spec() -> Seq<char>;

    /// The payload of the result of running `effect`, given the results so
    /// far, or the error that stops the skill.
    spec fn outcome(
        &self,
        caster: SkillComponent,
        target: SkillComponent,
        effect: SkillEffect,
        results: Map<Seq<char>, Map<Seq<char>, SkillProperty>>,
    ) -> Result<Map<Seq<char>, SkillProperty>, SkillError>;

    /// The name under which the processor is registered and its results kept.
    fn name() -> (r: String)
        ensures
            r@ == Self::name_spec(),
    ;

    fn process(
        &self,
        caster: &SkillComponent,
        target: &SkillComponent,
        skill_effect: &SkillEffect,
        context: &SkillContext,
    ) -> (r: Result<SkillEffectResult, SkillError>)
        ensures
            match r {
                Ok(res) => self.outcome(*caster, *target, *skill_effect, context.view_results())
                    == Ok::<Map<Seq<char>, SkillProperty>, SkillError>(res.view_payload()),
                Err(e) => self.outcome(*caster, *target, *skill_effect, context.view_results())
                    == Err::<Map<Seq<char>, SkillProperty>, SkillError>(e),
            },
    ;
}

/// The payload of a fresh damage result: no damage, no hit.
pub open spec fn damage_payload() -> Map<Seq<char>, SkillProperty> {
    Map::<Seq<char>, SkillProperty>::empty().insert("damage"@, SkillProperty::Number(0)).insert(
        "hit"@,
        SkillProperty::Flag(false),
    )
}

/// A damage result with no damage and no hit.
pub fn new_damage_skill_effect_result() -> (r: SkillEffectResult)
    ensures
        r.view_payload() == damage_payload(),
{
    let mut res = SkillEffectResult::new();
    res.set_value("damage", SkillProperty::Number(0));
    res.set_value("hit", SkillProperty::Flag(false));
    res
}

pub struct DamageSkillEffectProcessor;

impl SkillEffectProcessor for DamageSkillEffectProcessor {
    open spec fn name_spec() -> Seq<char> {
        "damage_skill_effect"@
    }

    open spec fn outcome(
        &self,
        caster: SkillComponent,
        target: SkillComponent,
        effect: SkillEffect,
        results: Map<Seq<char>, Map<Seq<char>, SkillProperty>>,
    ) -> Result<Map<Seq<char>, SkillProperty>, SkillError> {
        Ok(damage_payload())
    }

    fn name() -> (r: String) {
        "damage_skill_effect".to_owned()
    }

    fn process(
        &self,
        caster: &SkillComponent,
        target: &SkillComponent,
        skill_effect: &SkillEffect,
        context: &SkillContext,
    ) -> (r: Result<SkillEffectResult, SkillError>) {
        Ok(new_damage_skill_effect_result())
    }
}

/// Runs `effects` in order on the results `results`: each effect whose name
/// has a processor adds that processor's result under the processor's name;
/// the first error stops the run.
pub open spec fn run_effects<Pr: SkillEffectProcessor>(
    processors: Seq<(String, Pr)>,
    caster: SkillComponent,
    target: SkillComponent,
    effects: Seq<SkillEffect>,
    results: Map<Seq<char>, Map<Seq<char>, SkillProperty>>,
) -> Result<Map<Seq<char>, Map<Seq<char>, SkillProperty>>, SkillError>
    decreases effects.len(),
{
    if effects.len() == 0 {
        Ok(results)
    } else {
        match run_effects(processors, caster, target, effects.drop_last(), results) {
            Err(e) => Err(e),
            Ok(so_far) => match registered(processors, effects.last().skill_effect_name@) {
                None => Ok(so_far),
                Some(p) => match p.outcome(caster, target, effects.last(), so_far) {
                    Err(e) => Err(e),
                    Ok(payload) => Ok(so_far.insert(Pr::name_spec(), payload)),
                },
            },
        }
    }
}

/// Once an effect fails, running further effects fails the same way.
proof fn lemma_failure_stays<Pr: SkillEffectProcessor>(
    processors: Seq<(String, Pr)>,
    caster: SkillComponent,
    target: SkillComponent,
    effects: Seq<SkillEffect>,
    k: int,
    n: int,
    e: SkillError,
)
    requires
        0 <= k <= n <= effects.len(),
        run_effects(processors, caster, target, effects.take(k), Map::empty()) == Err::<
            Map<Seq<char>, Map<Seq<char>, SkillProperty>>,
            SkillError,
        >(e),
    ensures
        run_effects(processors, caster, target, effects.take(n), Map::empty()) == Err::<
            Map<Seq<char>, Map<Seq<char>, SkillProperty>>,
            SkillError,
        >(e),
    decreases n - k,
{
    if n > k {
        lemma_failure_stays(processors, caster, target, effects, k, n - 1, e);
        assert(effects.take(n).drop_last() =~= effects.take(n - 1));
    }
}

/// Effect processors by name; a later registration under a name replaces
/// the earlier one.
pub struct SkillEffectProcessorContainer<Pr> {
    processors: Vec<(String, Pr)>,
}

impl<Pr: SkillEffectProcessor> SkillEffectProcessorContainer<Pr> {
    pub closed spec fn entries(&self) -> Seq<(String, Pr)> {
        self.processors@
    }

    pub fn empty() -> (r: Self)
        ensures
            r.entries() == Seq::<(String, Pr)>::empty(),
    {
        SkillEffectProcessorContainer { processors: Vec::new() }
    }

    /// Registers `value` under its processor name.
    pub fn register_skill_effect_processor(&mut self, value: Pr)
        ensures
            final(self).entries().len() == old(self).entries().len() + 1,
            final(self).entries().drop_last() == old(self).entries(),
            final(self).entries().last().0@ == Pr::name_spec(),
            final(self).entries().last().1 == value,
    {
        self.processors.push((Pr::name(), value));
        assert(self.processors@.drop_last() =~= old(self).processors@);
    }

    fn find(&self, name: &String) -> (r: Option<&Pr>)
        ensures
            match r {
                Some(p) => registered(self.processors@, name@) == Some(*p),
                None => registered(self.processors@, name@) is None,
            },
    {
        let mut i: usize = self.processors.len();
        assert(self.processors@.take(i as int) =~= self.processors@);
        while i > 0
            invariant
                i <= self.processors@.len(),
                registered(self.processors@, name@) == registered(
                    self.processors@.take(i as int),
                    name@,
                ),
            decreases i,
        {
            proof {
                assert(self.processors@.take(i as int).drop_last() =~= self.processors@.take(
                    i as int - 1,
                ));
            }
            if self.processors[i - 1].0 == *name {
                return Some(&self.processors[i - 1].1);
            }
            i = i - 1;
        }
        None
    }

    /// Runs the effects of `skill` in order with the registered processors,
    /// collecting their results; the first error stops the run.
    pub fn execute(&self, caster: &SkillComponent, target: &SkillComponent, skill: &Skill) -> (r:
        Result<SkillContext, SkillError>)
        ensures
            match r {
                Ok(c) => run_effects(
                    self.entries(),
                    *caster,
                    *target,
                    skill.effcts@,
                    Map::empty(),
                ) == Ok::<_, SkillError>(c.view_results()),
                Err(e) => run_effects(
                    self.entries(),
                    *caster,
                    *target,
                    skill.effcts@,
                    Map::empty(),
                ) == Err::<Map<Seq<char>, Map<Seq<char>, SkillProperty>>, _>(e),
            },
    {
        let mut skill_context = SkillContext::default();
        let mut i: usize = 0;
        assert(skill.effcts@.take(0) =~= Seq::<SkillEffect>::empty());
        while i < skill.effcts.len()
            invariant
                i <= skill.effcts@.len(),
                run_effects(
                    self.processors@,
                    *caster,
                    *target,
                    skill.effcts@.take(i as int),
                    Map::empty(),
                ) == Ok::<_, SkillError>(skill_context.view_results()),
            decreases skill.effcts@.len() - i,
        {
            let skill_effect = &skill.effcts[i];
            proof {
                assert(skill.effcts@.take(i as int + 1).drop_last() =~= skill.effcts@.take(
                    i as int,
                ));
                assert(skill.effcts@.take(i as int + 1).last() == skill.effcts@[i as int]);
            }
            if let Some(processor) = self.find(&skill_effect.skill_effect_name) {
                match processor.process(caster, target, skill_effect, &skill_context) {
                    Err(e) => {
                        proof {
                            lemma_failure_stays(
                                self.processors@,
                                *caster,
                                *target,
                                skill.effcts@,
                                i as int + 1,
                                skill.effcts@.len() as int,
                                e,
                            );
                            assert(skill.effcts@.take(skill.effcts@.len() as int) =~= skill.effcts@);
                        }
                        return Err(e);
                    },
                    Ok(result) => {
                        skill_context.insert_result(Pr::name(), result);
                    },
                }
            }
            i = i + 1;
        }
        assert(skill.effcts@.take(skill.effcts@.len() as int) =~= skill.effcts@);
        Ok(skill_context)
    }
}

impl SkillEffectProcessorContainer<DamageSkillEffectProcessor> {
    /// A container with the damage processor.
    pub fn new() -> (r: Self)
        ensures
            r.entries().len() == 1,
            r.entries()[0].0@ == "damage_skill_effect"@,
    {
        let mut container = Self::empty();
        container.register_skill_effect_processor(DamageSkillEffectProcessor);
        container
    }
}

impl Default for SkillEffectProcessorContainer<DamageSkillEffectProcessor> {
    fn default() -> (r: Self)
        ensures
            r.entries().len() == 1,
            r.entries()[0].0@ == "damage_skill_effect"@,
    {
        Self::new()
    }
}

} // verus!
