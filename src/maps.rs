use vstd::prelude::*;

use bevy::platform::collections::HashMap;

use crate::attribute::Attribute;
use crate::skill::{SkillEffectResult, SkillProperty};

verus! {

#[verifier::external_type_specification]
#[verifier::external_body]
#[verifier::reject_recursive_types(K)]
#[verifier::reject_recursive_types(V)]
#[verifier::reject_recursive_types(S)]
pub struct ExHashMap<K, V, S>(HashMap<K, V, S>);

#[verifier::external_type_specification]
#[verifier::external_body]
pub struct ExFixedHasher(bevy::platform::hash::FixedHasher);

/// Named values carried by an effect or its result.
pub type Payload = HashMap<String, SkillProperty>;

/// What a payload map holds: values by key.
pub uninterp spec fn payload_entries(m: Payload) -> Map<Seq<char>, SkillProperty>;

/// Relies on bevy's HashMap::default: a map with no entries.
#[verifier::external_body]
pub(crate) fn empty_payload() -> (r: Payload)
    ensures
        payload_entries(r) =~= Map::empty(),
{
    HashMap::default()
}

/// Relies on bevy's HashMap::insert: `key` then holds `value`, every other
/// key what it held.
#[verifier::external_body]
pub(crate) fn payload_insert(m: &mut Payload, key: String, value: SkillProperty)
    ensures
        payload_entries(*final(m)) == payload_entries(*old(m)).insert(key@, value),
{
    m.insert(key, value);
}

/// Relies on bevy's HashMap::get: the value that `key` holds, if any.
#[verifier::external_body]
pub(crate) fn payload_get(m: &Payload, key: &str) -> (r: Option<SkillProperty>)
    ensures
        r == if payload_entries(*m).contains_key(key@) {
            Some(payload_entries(*m)[key@])
        } else {
            None
        },
{
    m.get(key).copied()
}


/// Attributes by name.
pub type AttributeMap = HashMap<String, Attribute>;

/// What an attribute map holds: attributes by key.
pub uninterp spec fn attribute_entries(m: AttributeMap) -> Map<Seq<char>, Attribute>;

/// Relies on bevy's HashMap::default: a map with no entries.
#[verifier::external_body]
pub(crate) fn empty_attribute_map() -> (r: AttributeMap)
    ensures
        attribute_entries(r) =~= Map::empty(),
{
    HashMap::default()
}

/// Relies on bevy's HashMap::insert: `key` then holds `value`, every other
/// key what it held.
#[verifier::external_body]
pub(crate) fn attribute_insert(m: &mut AttributeMap, key: String, value: Attribute)
    ensures
        attribute_entries(*final(m)) == attribute_entries(*old(m)).insert(key@, value),
{
    m.insert(key, value);
}

/// Relies on bevy's HashMap::remove: the value that `key` held, if any, and
/// the key no longer held.
#[verifier::external_body]
pub(crate) fn attribute_remove(m: &mut AttributeMap, key: &str) -> (r: Option<Attribute>)
    ensures
        r == if attribute_entries(*old(m)).contains_key(key@) {
            Some(attribute_entries(*old(m))[key@])
        } else {
            None
        },
        attribute_entries(*final(m)) == attribute_entries(*old(m)).remove(key@),
{
    m.remove(key)
}

/// Relies on bevy's HashMap::get: the value that `key` holds, if any.
#[verifier::external_body]
pub(crate) fn attribute_get<'a>(m: &'a AttributeMap, key: &str) -> (r: Option<&'a Attribute>)
    ensures
        match r {
            Some(a) => attribute_entries(*m).contains_key(key@) && *a == attribute_entries(*m)[key@],
            None => !attribute_entries(*m).contains_key(key@),
        },
{
    m.get(key)
}


/// Effect results by processor name.
pub type ResultMap = HashMap<String, SkillEffectResult>;

/// What a result map holds: results by key.
pub uninterp spec fn result_entries(m: ResultMap) -> Map<Seq<char>, SkillEffectResult>;

/// Relies on bevy's HashMap::default: a map with no entries.
#[verifier::external_body]
pub(crate) fn empty_result_map() -> (r: ResultMap)
    ensures
        result_entries(r) =~= Map::empty(),
{
    HashMap::default()
}

/// Relies on bevy's HashMap::insert: `key` then holds `value`, every other
/// key what it held.
#[verifier::external_body]
pub(crate) fn result_insert(m: &mut ResultMap, key: String, value: SkillEffectResult)
    ensures
        result_entries(*final(m)) == result_entries(*old(m)).insert(key@, value),
{
    m.insert(key, value);
}

} // verus!
