use vstd::prelude::*;

use crate::attribute::{clamp, Attribute};

verus! {

/// A rule under which the current value of the attribute `attribute_name`
/// bounds the current value of the attribute `target_attribute_name`; the
/// rule's behaviour is the processor registered as `constraint_name`.
#[derive(Debug, Clone, Hash)]
pub struct AttributeConstraint {
    pub attribute_name: String,
    pub target_attribute_name: String,
    pub constraint_name: String,
}

/// Constraints are equal when all three names are.
pub open spec fn same_constraint(a: AttributeConstraint, b: AttributeConstraint) -> bool {
    a.attribute_name@ == b.attribute_name@ && a.target_attribute_name@ == b.target_attribute_name@
        && a.constraint_name@ == b.constraint_name@
}

impl PartialEq for AttributeConstraint {
    fn eq(&self, other: &Self) -> (r: bool)
        ensures
            r == same_constraint(*self, *other),
    {
        self.attribute_name == other.attribute_name && self.target_attribute_name
            == other.target_attribute_name && self.constraint_name == other.constraint_name
    }
}

impl vstd::std_specs::cmp::PartialEqSpecImpl for AttributeConstraint {
    open spec fn obeys_eq_spec() -> bool {
        true
    }

    open spec fn eq_spec(&self, other: &AttributeConstraint) -> bool {
        same_constraint(*self, *other)
    }
}

impl Eq for AttributeConstraint {

}

/// The behaviour of one kind of constraint, in two hooks.
pub trait AttributeConstraintProcessor {
    /// The proposal for the bounded attribute's current value, adjusted by
    /// the state of the attribute that bounds it.
    spec fn adjusted_proposal(
        &self,
        bounding: Attribute,
        value: i64,
        constraint: AttributeConstraint,
    ) -> i64;

    /// The bounded attribute after the bounding one settled on `value`.
    spec fn corrected(&self, target: Attribute, value: i64, constraint: AttributeConstraint) -> Attribute;

    /// Called before an attribute's current value changes, with the attribute
    /// that bounds it.
    fn on_before_update_attribute_current_value(
        &self,
        attribute: &Attribute,
        value: i64,
        constraint: &AttributeConstraint,
    ) -> (r: i64)
        ensures
            r == self.adjusted_proposal(*attribute, value, *constraint),
    ;

    /// Called after the bounding attribute's current value settled on `value`,
    /// with the attribute that it bounds.
    fn on_after_update_attribute_current_value(
        &self,
        attribute: &mut Attribute,
        value: i64,
        constraint: &AttributeConstraint,
    )
        ensures
            *final(attribute) == self.corrected(*old(attribute), value, *constraint),
    ;
}

/// The "max" rule: the bounded attribute never exceeds the bounding one.
pub struct MaxAttributeConstraintProcessor;

impl AttributeConstraintProcessor for MaxAttributeConstraintProcessor {
    open spec fn adjusted_proposal(
        &self,
        bounding: Attribute,
        value: i64,
        constraint: AttributeConstraint,
    ) -> i64 {
        if bounding.current_spec() < value {
            bounding.current_spec() as i64
        } else {
            value
        }
    }

    open spec fn corrected(&self, target: Attribute, value: i64, constraint: AttributeConstraint) -> Attribute {
        target.recalculated().with_current(clamp(target.derived(), 0, value as int))
    }

    /// The proposal, lowered to the bounding attribute's current value.
    fn on_before_update_attribute_current_value(
        &self,
        attribute: &Attribute,
        value: i64,
        constraint: &AttributeConstraint,
    ) -> (r: i64) {
        let bound = attribute.get_current_value();
        if bound < value {
            bound
        } else {
            value
        }
    }

    /// Recalculates the bounded attribute, then stores its value clamped into
    /// `[0, value]` (checked against 0 first).
    fn on_after_update_attribute_current_value(
        &self,
        attribute: &mut Attribute,
        value: i64,
        constraint: &AttributeConstraint,
    ) {
        attribute.recalculate_current_value();
        let current = attribute.get_current_value();
        let bounded = if current < 0 {
            0
        } else if current > value {
            value
        } else {
            current
        };
        attribute.set_current_value(bounded);
    }
}

/// The processor registered last under `name` among `entries`.
pub open spec fn registered<P>(entries: Seq<(String, P)>, name: Seq<char>) -> Option<P>
    decreases entries.len(),
{
    if entries.len() == 0 {
        None
    } else if entries.last().0@ == name {
        Some(entries.last().1)
    } else {
        registered(entries.drop_last(), name)
    }
}

/// Registry of constraint processors by name; a later registration under a
/// name replaces the earlier one.
pub struct AttributeConstraintProcessorContainer<P> {
    processors: Vec<(String, P)>,
}

impl<P: AttributeConstraintProcessor> AttributeConstraintProcessorContainer<P> {
    /// The processor registered under `name`, if any.
    pub closed spec fn lookup(&self, name: Seq<char>) -> Option<P> {
        registered(self.processors@, name)
    }

    pub fn empty() -> (r: Self)
        ensures
            forall|n: Seq<char>| #[trigger] r.lookup(n) is None,
    {
        AttributeConstraintProcessorContainer { processors: Vec::new() }
    }

    pub fn add_processor(&mut self, name: &str, value: P)
        ensures
            forall|n: Seq<char>| #[trigger]
                final(self).lookup(n) == if n == name@ {
                    Some(value)
                } else {
                    old(self).lookup(n)
                },
    {
        self.processors.push((name.to_owned(), value));
        assert forall|n: Seq<char>| #[trigger]
            self.lookup(n) == if n == name@ {
                Some(value)
            } else {
                old(self).lookup(n)
            } by {
            assert(self.processors@.drop_last() =~= old(self).processors@);
        }
    }

    pub fn get_processor(&self, name: &str) -> (r: Option<&P>)
        ensures
            match r {
                Some(p) => self.lookup(name@) == Some(*p),
                None => self.lookup(name@) is None,
            },
    {
        let key = name.to_owned();
        let mut i: usize = self.processors.len();
        assert(self.processors@.take(i as int) =~= self.processors@);
        while i > 0
            invariant
                i <= self.processors@.len(),
                registered(self.processors@, name@) == registered(
                    self.processors@.take(i as int),
                    name@,
                ),
                key@ == name@,
            decreases i,
        {
            proof {
                assert(self.processors@.take(i as int).drop_last() =~= self.processors@.take(
                    i as int - 1,
                ));
            }
            if self.processors[i - 1].0 == key {
                return Some(&self.processors[i - 1].1);
            }
            i = i - 1;
        }
        None
    }
}

impl AttributeConstraintProcessorContainer<MaxAttributeConstraintProcessor> {
    /// A registry with the "max" processor.
    pub fn new() -> (r: Self)
        ensures
            r.lookup("max"@) == Some(MaxAttributeConstraintProcessor),
            forall|n: Seq<char>| n != "max"@ ==> #[trigger] r.lookup(n) is None,
    {
        let mut container = Self::empty();
        container.add_processor("max", MaxAttributeConstraintProcessor);
        container
    }
}

impl Default for AttributeConstraintProcessorContainer<MaxAttributeConstraintProcessor> {
    fn default() -> (r: Self)
        ensures
            r.lookup("max"@) == Some(MaxAttributeConstraintProcessor),
            forall|n: Seq<char>| n != "max"@ ==> #[trigger] r.lookup(n) is None,
    {
        Self::new()
    }
}

} // verus!
