//! The pre-resolution input values the procedures consume and the resolved
//! output values construction produces.

use vstd::prelude::*;

use crate::assets::AssetHandle;
use crate::assets::ProtoAsset;

verus! {

/// A plain value that passes through the core unchanged or feeds a
/// user-supplied conversion.
#[derive(Debug, PartialEq, Eq)]
pub enum PlainValue {
    Int(i64),
    Bool(bool),
    Text(String),
}

/// Value equality on plain values, comparing text by its characters.
pub open spec fn plain_eq(a: PlainValue, b: PlainValue) -> bool {
    match (a, b) {
        (PlainValue::Int(x), PlainValue::Int(y)) => x == y,
        (PlainValue::Bool(x), PlainValue::Bool(y)) => x == y,
        (PlainValue::Text(x), PlainValue::Text(y)) => x@ == y@,
        _ => false,
    }
}

impl PlainValue {
    /// Decides [`plain_eq`] on two plain values.
    pub fn matches_value(&self, other: &PlainValue) -> (r: bool)
        ensures
            r == plain_eq(*self, *other),
    {
        match (self, other) {
            (PlainValue::Int(x), PlainValue::Int(y)) => x == y,
            (PlainValue::Bool(x), PlainValue::Bool(y)) => x == y,
            (PlainValue::Text(x), PlainValue::Text(y)) => *x == *y,
            _ => false,
        }
    }

    /// Produces a value equal to this one.
    pub fn duplicate(&self) -> (r: PlainValue)
        ensures
            r == *self,
    {
        match self {
            PlainValue::Int(x) => PlainValue::Int(*x),
            PlainValue::Bool(x) => PlainValue::Bool(*x),
            PlainValue::Text(x) => PlainValue::Text(x.clone()),
        }
    }
}

/// An entity access descriptor: the address under which a live entity is
/// looked up in the spawn context.
#[derive(Debug, PartialEq, Eq)]
pub struct EntityAccess {
    /// The path addressing the entity.
    pub path: String,
}

impl EntityAccess {
    /// Builds an access descriptor from a path.
    pub fn from_path(path: String) -> (r: Self)
        ensures
            r.path == path,
    {
        EntityAccess { path }
    }

    /// Produces an access descriptor equal to this one.
    pub fn duplicate(&self) -> (r: Self)
        ensures
            r == *self,
    {
        EntityAccess { path: self.path.clone() }
    }
}

/// One field of an input value. A slot whose field carries a literal source in
/// the schema is never read; [`FieldValue::Ignored`] stands there, so every
/// declared field is bound or explicitly discarded and no destructuring can
/// ever mismatch.
#[derive(Debug, PartialEq, Eq)]
pub enum FieldValue {
    /// A plain value, for a passthrough or user-conversion field.
    Plain(PlainValue),
    /// A runtime asset reference, for a resource field resolved at runtime.
    Resource(ProtoAsset),
    /// A runtime entity access, for an entity field resolved at runtime.
    Entity(EntityAccess),
    /// Placeholder for a slot the procedures bind but never read.
    Ignored,
}

/// One pre-resolution instance of a variant: the variant's tag and one value
/// slot per declared field, in declaration order.
#[derive(Debug, PartialEq, Eq)]
pub struct InputValue {
    pub tag: String,
    pub fields: Vec<FieldValue>,
}

/// One resolved field of an output value.
#[derive(Debug, PartialEq, Eq)]
pub enum OutputFieldValue {
    /// A plain value, passed through or produced by a user conversion.
    Plain(PlainValue),
    /// A resolved asset handle.
    Handle(AssetHandle),
    /// The identity of a live entity found in the spawn context.
    Entity(u64),
}

/// The fully resolved counterpart of an [`InputValue`]: the same tag and one
/// resolved value per declared field, in declaration order.
#[derive(Debug, PartialEq, Eq)]
pub struct OutputValue {
    pub tag: String,
    pub fields: Vec<OutputFieldValue>,
}

} // verus!
