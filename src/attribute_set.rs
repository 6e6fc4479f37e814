use vstd::prelude::*;

use crate::attribute::Attribute;
use crate::maps::{
    attribute_entries, attribute_get, attribute_insert, attribute_remove, empty_attribute_map,
    AttributeMap,
};
use crate::constraint::{
    same_constraint, AttributeConstraint, AttributeConstraintProcessor,
    AttributeConstraintProcessorContainer,
};

verus! {

/// Position of the first constraint at or after `k` that bounds `name`, or -1.
pub open spec fn bounding_position(cs: Seq<AttributeConstraint>, name: Seq<char>, k: int) -> int
    decreases cs.len() - k,
{
    if k < 0 || k >= cs.len() {
        -1
    } else if cs[k].target_attribute_name@ == name {
        k
    } else {
        bounding_position(cs, name, k + 1)
    }
}

/// A proposed current value for `name` after the pre-update clamp: the first
/// constraint that bounds `name` adjusts it, through its processor and the
/// attribute that drives it; without all three the proposal stands.
pub open spec fn clamped_proposal<P: AttributeConstraintProcessor>(
    attrs: Map<Seq<char>, Attribute>,
    cs: Seq<AttributeConstraint>,
    name: Seq<char>,
    value: i64,
    registry: AttributeConstraintProcessorContainer<P>,
) -> i64 {
    let ci = bounding_position(cs, name, 0);
    if ci < 0 {
        value
    } else {
        let c = cs[ci];
        match registry.lookup(c.constraint_name@) {
            Some(p) => if attrs.contains_key(c.attribute_name@) {
                p.adjusted_proposal(attrs[c.attribute_name@], value, c)
            } else {
                value
            },
            None => value,
        }
    }
}

/// The post-update cascade: every constraint driven by `name`, in order,
/// corrects its target through its processor with the driving value `value`.
pub open spec fn cascade<P: AttributeConstraintProcessor>(
    attrs: Map<Seq<char>, Attribute>,
    cs: Seq<AttributeConstraint>,
    name: Seq<char>,
    value: i64,
    registry: AttributeConstraintProcessorContainer<P>,
) -> Map<Seq<char>, Attribute>
    decreases cs.len(),
{
    if cs.len() == 0 {
        attrs
    } else {
        let prev = cascade(attrs, cs.drop_last(), name, value, registry);
        let c = cs.last();
        let t = c.target_attribute_name@;
        if c.attribute_name@ == name && prev.contains_key(t) {
            match registry.lookup(c.constraint_name@) {
                Some(p) => prev.insert(t, p.corrected(prev[t], value, c)),
                None => prev,
            }
        } else {
            prev
        }
    }
}

/// `attrs` with `v` stored as current value of the attribute `name`.
pub open spec fn committed(attrs: Map<Seq<char>, Attribute>, name: Seq<char>, v: i64) -> Map<
    Seq<char>,
    Attribute,
> {
    if attrs.contains_key(name) {
        attrs.insert(name, attrs[name].with_current(v as int))
    } else {
        attrs
    }
}

/// The cascade from the attribute `name` with its current value in `attrs`.
pub open spec fn cascade_from<P: AttributeConstraintProcessor>(
    attrs: Map<Seq<char>, Attribute>,
    cs: Seq<AttributeConstraint>,
    name: Seq<char>,
    registry: AttributeConstraintProcessorContainer<P>,
) -> Map<Seq<char>, Attribute> {
    if attrs.contains_key(name) {
        cascade(attrs, cs, name, attrs[name].current_spec() as i64, registry)
    } else {
        attrs
    }
}

/// A current value `value` of `name` brought through the constraints: the
/// pre-update clamp, the store of the clamped value when the clamp changed
/// it, and the cascade from what was stored.
pub open spec fn propagated<P: AttributeConstraintProcessor>(
    attrs: Map<Seq<char>, Attribute>,
    cs: Seq<AttributeConstraint>,
    name: Seq<char>,
    value: i64,
    registry: AttributeConstraintProcessorContainer<P>,
) -> Map<Seq<char>, Attribute> {
    let adjusted = clamped_proposal(attrs, cs, name, value, registry);
    let stored = if adjusted != value {
        committed(attrs, name, adjusted)
    } else {
        attrs
    };
    cascade_from(stored, cs, name, registry)
}


/// The attributes of one entity, keyed by name, and the constraints between them.
pub struct AttributeSet {
    attributes: AttributeMap,
    constraints: Vec<AttributeConstraint>,
}

impl Default for AttributeSet {
    fn default() -> (r: Self)
        ensures
            r.attributes_spec() == Map::<Seq<char>, Attribute>::empty(),
            r.constraints_spec() == Seq::<AttributeConstraint>::empty(),
    {
        AttributeSet { attributes: empty_attribute_map(), constraints: Vec::new() }
    }
}

fn same_text(a: &String, b: &str) -> (r: bool)
    ensures
        r == (a@ == b@),
{
    let owned = b.to_owned();
    *a == owned
}

fn find_bounding(cs: &Vec<AttributeConstraint>, name: &str) -> (r: Option<usize>)
    ensures
        match r {
            Some(i) => bounding_position(cs@, name@, 0) == i && i < cs@.len(),
            None => bounding_position(cs@, name@, 0) < 0,
        },
{
    let mut i: usize = 0;
    while i < cs.len()
        invariant
            i <= cs@.len(),
            bounding_position(cs@, name@, 0) == bounding_position(cs@, name@, i as int),
        decreases cs@.len() - i,
    {
        if same_text(&cs[i].target_attribute_name, name) {
            return Some(i);
        }
        i = i + 1;
    }
    None
}

impl AttributeSet {
    pub closed spec fn attributes_spec(&self) -> Map<Seq<char>, Attribute> {
        attribute_entries(self.attributes)
    }

    pub closed spec fn constraints_spec(&self) -> Seq<AttributeConstraint> {
        self.constraints@
    }

    /// Adds `constraint` unless an equal one is present.
    pub fn insert_constraint(&mut self, constraint: AttributeConstraint)
        ensures
            final(self).attributes_spec() == old(self).attributes_spec(),
            (exists|i: int|
                0 <= i < old(self).constraints_spec().len() && same_constraint(
                    old(self).constraints_spec()[i],
                    constraint,
                )) ==> final(self).constraints_spec() == old(self).constraints_spec(),
            !(exists|i: int|
                0 <= i < old(self).constraints_spec().len() && same_constraint(
                    old(self).constraints_spec()[i],
                    constraint,
                )) ==> final(self).constraints_spec() == old(self).constraints_spec().push(
                constraint,
            ),
    {
        let mut i: usize = 0;
        while i < self.constraints.len()
            invariant
                i <= self.constraints@.len(),
                self.constraints@ == old(self).constraints@,
                self.attributes == old(self).attributes,
                forall|j: int|
                    0 <= j < i ==> !same_constraint(#[trigger] self.constraints@[j], constraint),
            decreases self.constraints@.len() - i,
        {
            if self.constraints[i] == constraint {
                return ;
            }
            i = i + 1;
        }
        self.constraints.push(constraint);
    }

    /// Adds `attribute` under its name, in place of an attribute of the same name.
    pub fn insert_attribute(&mut self, attribute: Attribute)
        ensures
            final(self).constraints_spec() == old(self).constraints_spec(),
            final(self).attributes_spec() == old(self).attributes_spec().insert(
                attribute.name_spec(),
                attribute,
            ),
    {
        let key = attribute.name().to_owned();
        attribute_insert(&mut self.attributes, key, attribute);
    }

    /// The attribute named `name`, if any.
    pub fn get(&self, name: &str) -> (r: Option<&Attribute>)
        ensures
            match r {
                Some(a) => self.attributes_spec().contains_key(name@) && *a
                    == self.attributes_spec()[name@],
                None => !self.attributes_spec().contains_key(name@),
            },
    {
        attribute_get(&self.attributes, name)
    }

    /// Stores `value` as current value of the attribute `name`, range-clamped,
    /// and gives the stored value; None for an unknown name.
    pub(crate) fn store_current_value(&mut self, name: &str, value: i64) -> (r: Option<i64>)
        ensures
            final(self).constraints_spec() == old(self).constraints_spec(),
            final(self).attributes_spec() == committed(old(self).attributes_spec(), name@, value),
            match r {
                Some(v) => old(self).attributes_spec().contains_key(name@) && v
                    == final(self).attributes_spec()[name@].current_spec(),
                None => !old(self).attributes_spec().contains_key(name@),
            },
    {
        match attribute_remove(&mut self.attributes, name) {
            None => None,
            Some(mut a) => {
                a.set_current_value(value);
                let v = a.get_current_value();
                attribute_insert(&mut self.attributes, name.to_owned(), a);
                assert(self.attributes_spec() =~= committed(
                    old(self).attributes_spec(),
                    name@,
                    value,
                ));
                Some(v)
            },
        }
    }

    /// Sets the base value of the attribute `name` and gives its new current
    /// value; None for an unknown name.
    pub(crate) fn store_base_value(&mut self, name: &str, value: i64) -> (r: Option<i64>)
        ensures
            final(self).constraints_spec() == old(self).constraints_spec(),
            old(self).attributes_spec().contains_key(name@) ==> final(self).attributes_spec()
                == old(self).attributes_spec().insert(
                name@,
                old(self).attributes_spec()[name@].with_base(value),
            ),
            !old(self).attributes_spec().contains_key(name@) ==> final(self).attributes_spec()
                == old(self).attributes_spec(),
            match r {
                Some(v) => old(self).attributes_spec().contains_key(name@) && v
                    == final(self).attributes_spec()[name@].current_spec(),
                None => !old(self).attributes_spec().contains_key(name@),
            },
    {
        match attribute_remove(&mut self.attributes, name) {
            None => {
                assert(self.attributes_spec() =~= old(self).attributes_spec());
                None
            },
            Some(mut a) => {
                a.set_base_value(value);
                let v = a.get_current_value();
                attribute_insert(&mut self.attributes, name.to_owned(), a);
                assert(self.attributes_spec() =~= old(self).attributes_spec().insert(
                    name@,
                    old(self).attributes_spec()[name@].with_base(value),
                ));
                Some(v)
            },
        }
    }

    /// The pre-update clamp of a proposed current value for `name`.
    fn on_before_update_attribute_current_value<P: AttributeConstraintProcessor>(
        &self,
        name: &str,
        value: i64,
        container: &AttributeConstraintProcessorContainer<P>,
    ) -> (r: i64)
        ensures
            r == clamped_proposal(
                self.attributes_spec(),
                self.constraints@,
                name@,
                value,
                *container,
            ),
    {
        match find_bounding(&self.constraints, name) {
            None => value,
            Some(ci) => {
                let c = &self.constraints[ci];
                match container.get_processor(c.constraint_name.as_str()) {
                    None => value,
                    Some(p) => match attribute_get(&self.attributes, c.attribute_name.as_str()) {
                        None => value,
                        Some(bounding) => p.on_before_update_attribute_current_value(
                            bounding,
                            value,
                            c,
                        ),
                    },
                }
            },
        }
    }

    /// The post-update cascade from `name`, which settled on `value`.
    fn on_after_update_attribute_current_value<P: AttributeConstraintProcessor>(
        &mut self,
        name: &str,
        value: i64,
        container: &AttributeConstraintProcessorContainer<P>,
    )
        ensures
            final(self).attributes_spec() == cascade(
                old(self).attributes_spec(),
                old(self).constraints@,
                name@,
                value,
                *container,
            ),
            final(self).constraints@ == old(self).constraints@,
    {
        let mut i: usize = 0;
        assert(self.constraints@.take(0) =~= Seq::<AttributeConstraint>::empty());
        while i < self.constraints.len()
            invariant
                i <= self.constraints@.len(),
                self.constraints@ == old(self).constraints@,
                self.attributes_spec() == cascade(
                    old(self).attributes_spec(),
                    self.constraints@.take(i as int),
                    name@,
                    value,
                    *container,
                ),
            decreases self.constraints@.len() - i,
        {
            proof {
                assert(self.constraints@.take(i as int + 1).drop_last() =~= self.constraints@.take(
                    i as int,
                ));
                assert(self.constraints@.take(i as int + 1).last() == self.constraints@[i as int]);
            }
            let c = &self.constraints[i];
            if same_text(&c.attribute_name, name) {
                if let Some(p) = container.get_processor(c.constraint_name.as_str()) {
                    let ghost prev = self.attributes_spec();
                    let target_name = c.target_attribute_name.as_str();
                    if let Some(mut target) = attribute_remove(&mut self.attributes, target_name) {
                        p.on_after_update_attribute_current_value(&mut target, value, c);
                        attribute_insert(&mut self.attributes, target_name.to_owned(), target);
                        assert(self.attributes_spec() =~= prev.insert(target_name@, target));
                    } else {
                        assert(self.attributes_spec() =~= prev);
                    }
                }
            }
            i = i + 1;
        }
        assert(self.constraints@.take(self.constraints@.len() as int) =~= self.constraints@);
    }

    /// Stores `adjusted`, the clamped proposal `value` for `name`, when the
    /// clamp changed it, then runs the cascade from the stored current value.
    fn store_and_cascade<P: AttributeConstraintProcessor>(
        &mut self,
        name: &str,
        value: i64,
        adjusted: i64,
        container: &AttributeConstraintProcessorContainer<P>,
    )
        requires
            adjusted == clamped_proposal(
                old(self).attributes_spec(),
                old(self).constraints@,
                name@,
                value,
                *container,
            ),
        ensures
            final(self).attributes_spec() == propagated(
                old(self).attributes_spec(),
                old(self).constraints@,
                name@,
                value,
                *container,
            ),
            final(self).constraints@ == old(self).constraints@,
    {
        if adjusted != value {
            self.store_current_value(name, adjusted);
        }
        let settled = match attribute_get(&self.attributes, name) {
            Some(a) => a.get_current_value(),
            None => {
                return ;
            },
        };
        self.on_after_update_attribute_current_value(name, settled, container);
    }

    /// Brings a proposed current value for `name` through the constraints.
    /// When the pre-update clamp leaves the proposal as it is, nothing changes
    /// and no cascade runs; otherwise the clamped value is stored and the
    /// cascade runs from it.
    pub fn update_attribute_current_value<P: AttributeConstraintProcessor>(
        &mut self,
        name: &str,
        value: i64,
        container: &AttributeConstraintProcessorContainer<P>,
    )
        ensures
            clamped_proposal(
                old(self).attributes_spec(),
                old(self).constraints_spec(),
                name@,
                value,
                *container,
            ) == value ==> *final(self) == *old(self),
            clamped_proposal(
                old(self).attributes_spec(),
                old(self).constraints_spec(),
                name@,
                value,
                *container,
            ) != value ==> final(self).attributes_spec() == propagated(
                old(self).attributes_spec(),
                old(self).constraints_spec(),
                name@,
                value,
                *container,
            ),
            final(self).constraints_spec() == old(self).constraints_spec(),
    {
        let adjusted = self.on_before_update_attribute_current_value(name, value, container);
        if adjusted == value {
            return ;
        }
        self.store_and_cascade(name, value, adjusted, container);
    }

    /// Sets the base value of `name`; when that changes its current value,
    /// brings the new current value through the constraints. An unknown name
    /// changes nothing.
    pub fn update_attribute_base_value<P: AttributeConstraintProcessor>(
        &mut self,
        name: &str,
        value: i64,
        container: &AttributeConstraintProcessorContainer<P>,
    )
        ensures
            final(self).constraints_spec() == old(self).constraints_spec(),
            ({
                let attrs = old(self).attributes_spec();
                let rebased = attrs.insert(name@, attrs[name@].with_base(value));
                let after = rebased[name@].current_spec();
                let changed = after != attrs[name@].current_spec();
                let result = final(self).attributes_spec();
                &&& !attrs.contains_key(name@) ==> result == attrs
                &&& attrs.contains_key(name@) && !changed ==> result == rebased
                &&& attrs.contains_key(name@) && changed ==> result == propagated(
                    rebased,
                    old(self).constraints_spec(),
                    name@,
                    after as i64,
                    *container,
                )
            }),
    {
        let before = match attribute_get(&self.attributes, name) {
            Some(a) => a.get_current_value(),
            None => {
                return ;
            },
        };
        let after = match self.store_base_value(name, value) {
            Some(v) => v,
            None => {
                return ;
            },
        };
        if after != before {
            let adjusted = self.on_before_update_attribute_current_value(name, after, container);
            self.store_and_cascade(name, after, adjusted, container);
        }
    }
}

} // verus!
