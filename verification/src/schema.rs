//! The schema model: variants, fields and field policies, with the
//! well-formedness every procedure relies on.

use vstd::prelude::*;

verus! {

/// The address of a field within its variant: an ordinal position for a
/// positional shape, a name for a named shape. The address is the stable
/// internal name both procedures use for the field.
#[derive(Debug, PartialEq, Eq)]
pub enum Address {
    Ordinal(usize),
    Name(String),
}

impl Address {
    /// Produces an address equal to this one.
    pub fn duplicate(&self) -> (r: Self)
        ensures
            r == *self,
    {
        match self {
            Address::Ordinal(i) => Address::Ordinal(*i),
            Address::Name(n) => Address::Name(n.clone()),
        }
    }
}

/// Where a resource field finds the path or identifier it resolves.
#[derive(Debug, PartialEq, Eq)]
pub enum ResourceSource {
    /// A path fixed at schema-definition time; the input slot is ignored.
    LiteralPath(String),
    /// The input slot carries a runtime path-or-identifier union.
    Runtime,
}

/// Where an entity field finds the address it looks up.
#[derive(Debug, PartialEq, Eq)]
pub enum EntitySource {
    /// A path fixed at schema-definition time; the input slot is ignored.
    LiteralPath(String),
    /// The input slot carries a runtime entity access descriptor.
    Runtime,
}

/// The replacement strategy of one field, governing both its discovery
/// contribution and its construction rule.
#[derive(Debug, PartialEq, Eq)]
pub enum FieldPolicy {
    /// The output field equals the input field unchanged.
    Passthrough,
    /// The field resolves to an asset handle; discovery registers its path.
    ResourceReference { source: ResourceSource },
    /// The field resolves to a live entity found in the spawn context.
    EntityReference { source: EntitySource },
    /// The output is produced by the caller-supplied conversion capability
    /// registered under this identifier.
    UserConversion { conversion: u64 },
}

/// One field of a variant: its address, the tag of its declared output type,
/// and its policy.
#[derive(Debug, PartialEq, Eq)]
pub struct Field {
    pub address: Address,
    pub ty: u64,
    pub policy: FieldPolicy,
}

/// The structural kind of a variant.
#[derive(Debug, PartialEq, Eq)]
pub enum ShapeKind {
    /// No fields.
    Unit,
    /// Ordered, unnamed fields, addressed by position.
    Positional,
    /// Named fields, addressed by name.
    Named,
}

/// One alternative of a tagged-union schema: a name, a structural kind, and
/// the single field enumeration both procedures walk.
#[derive(Debug, PartialEq, Eq)]
pub struct SchematicVariant {
    pub name: String,
    pub kind: ShapeKind,
    pub fields: Vec<Field>,
}

/// A whole schema: the closed set of variants an input value can carry.
#[derive(Debug, PartialEq, Eq)]
pub struct Schema {
    pub variants: Vec<SchematicVariant>,
}

impl SchematicVariant {
    /// The addresses the variant declares, in declaration order.
    pub open spec fn declared_addresses(&self) -> Seq<Address> {
        self.fields@.map_values(|f: Field| f.address)
    }

    /// The declared addresses as a row, in declaration order: the single
    /// enumeration both procedures and every pattern are derived from.
    pub fn field_addresses(&self) -> (r: Vec<Address>)
        ensures
            r@ == self.declared_addresses(),
    {
        let n = self.fields.len();
        let mut addresses: Vec<Address> = Vec::new();
        for i in 0..n
            invariant
                n == self.fields@.len(),
                addresses@.len() == i,
                forall|k: int| 0 <= k < i ==> addresses@[k] == self.fields@[k].address,
        {
            addresses.push(self.fields[i].address.duplicate());
        }
        proof {
            assert(addresses@ =~= self.declared_addresses());
        }
        addresses
    }

    /// Structural well-formedness: a unit variant has no fields, a positional
    /// variant's addresses are exactly the ordinals in order, and a named
    /// variant's addresses are distinct names.
    pub open spec fn wf(&self) -> bool {
        match self.kind {
            ShapeKind::Unit => self.fields@.len() == 0,
            ShapeKind::Positional => forall|i: int|
                0 <= i < self.fields@.len() ==> (#[trigger] self.fields@[i]).address
                    == Address::Ordinal(i as usize),
            ShapeKind::Named => {
                &&& forall|i: int|
                    0 <= i < self.fields@.len() ==> (#[trigger] self.fields@[i]).address is Name
                &&& forall|i: int, j: int|
                    0 <= i < j < self.fields@.len()
                        ==> (#[trigger] self.fields@[i]).address->Name_0@
                        != (#[trigger] self.fields@[j]).address->Name_0@
            },
        }
    }
}

impl Schema {
    /// Well-formedness: every variant is well formed and variant names are
    /// distinct, so dispatch by tag is unambiguous.
    pub open spec fn wf(&self) -> bool {
        &&& forall|i: int| 0 <= i < self.variants@.len() ==> (#[trigger] self.variants@[i]).wf()
        &&& forall|i: int, j: int|
            0 <= i < j < self.variants@.len() ==> (#[trigger] self.variants@[i]).name@
                != (#[trigger] self.variants@[j]).name@
    }
}

} // verus!
