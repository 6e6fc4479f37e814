//! A derived-value attribute engine: attributes whose current value follows
//! from a base value and a list of modifiers, and constraints through which one
//! attribute's current value bounds another's.

pub mod attribute;
pub mod constraint;
pub mod attribute_set;
pub mod number_generator;
pub mod skill;
pub mod skill_attribute_set;
pub mod maps;
