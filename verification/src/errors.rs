//! Structured failures: definition-time rejections of a schema, and the fatal
//! runtime failures of the two procedures.

use vstd::prelude::*;

use crate::schema::Address;
use crate::values::EntityAccess;
use crate::values::PlainValue;

verus! {

/// A fatal failure of `preload` or `construct`. Each variant carries the
/// structured cause, so the embedding system can decide whether to abort,
/// skip one instance, or surface the failure to an operator.
#[derive(Debug, PartialEq, Eq)]
pub enum SchematicError {
    /// The procedure was invoked with an input carrying another variant's tag.
    WrongVariant { expected: String, found: String },
    /// The input carries a different number of slots than the variant
    /// declares fields.
    FieldCountMismatch { variant: String, declared: usize, found: usize },
    /// The input slot of a field contradicts what its policy expects: how the
    /// schema was declared and how data was supplied disagree.
    ResolutionMismatch { variant: String, address: Address, ty: u64 },
    /// No entity exists at the attempted address; the access is carried for
    /// diagnostics and never silently defaulted.
    MissingEntity { variant: String, address: Address, access: EntityAccess },
    /// The caller-supplied conversion capability failed; the offending value
    /// is propagated verbatim.
    ConversionFailed { variant: String, address: Address, conversion: u64, value: PlainValue },
    /// No variant of the schema carries the input's tag.
    UnknownVariant { tag: String },
}

/// A rejection at schema-definition time; never deferred to runtime.
#[derive(Debug, PartialEq, Eq)]
pub enum DefinitionError {
    /// A field declares more than one replacement attribute.
    ConflictingAttributes { address: Address },
    /// The declared field addresses do not fit the variant's structural kind.
    ShapeMismatch { variant: String },
    /// A named variant declares two fields under one name.
    DuplicateField { variant: String, name: String },
    /// Two variants of one schema share a name.
    DuplicateVariant { name: String },
    /// A field defers to a conversion capability the registry does not hold.
    MissingConversion { variant: String, address: Address, conversion: u64 },
}

} // verus!
