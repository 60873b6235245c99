//! Schema definition time: resolving declared field attributes into policies,
//! validating a variant's declared shape, and the per-variant assertion
//! checks. Every malformed declaration is rejected here, with an error
//! identifying the field; nothing is deferred to runtime.

use vstd::prelude::*;

use crate::context::ConversionRegistry;
use crate::context::spec_find_conversion;
use crate::errors::DefinitionError;
use crate::schema::Address;
use crate::schema::EntitySource;
use crate::schema::Field;
use crate::schema::FieldPolicy;
use crate::schema::ResourceSource;
use crate::schema::Schema;
use crate::schema::SchematicVariant;
use crate::schema::ShapeKind;

verus! {

/// One replacement attribute as declared on a field, before resolution.
#[derive(Debug, PartialEq, Eq)]
pub enum PolicyAttr {
    /// The field is an asset reference; with a literal path, or resolved from
    /// the runtime slot when no path is declared.
    Asset { path: Option<String> },
    /// The field is an entity reference; with a literal path, or resolved
    /// from the runtime slot when no path is declared.
    Entity { path: Option<String> },
    /// The field defers to the conversion capability with this identifier.
    Convert { conversion: u64 },
}

/// One field as declared: its address, its declared output type tag, and the
/// replacement attributes written on it.
#[derive(Debug, PartialEq, Eq)]
pub struct FieldDecl {
    pub address: Address,
    pub ty: u64,
    pub attrs: Vec<PolicyAttr>,
}

/// The policy a declaration resolves to: passthrough without attributes, the
/// attribute's strategy with exactly one, and a rejection identifying the
/// field with more.
pub open spec fn spec_resolve_policy(decl: FieldDecl) -> Result<FieldPolicy, DefinitionError> {
    if decl.attrs@.len() == 0 {
        Ok(FieldPolicy::Passthrough)
    } else if decl.attrs@.len() == 1 {
        Ok(
            match decl.attrs@[0] {
                PolicyAttr::Asset { path: Some(p) } => FieldPolicy::ResourceReference {
                    source: ResourceSource::LiteralPath(p),
                },
                PolicyAttr::Asset { path: None } => FieldPolicy::ResourceReference {
                    source: ResourceSource::Runtime,
                },
                PolicyAttr::Entity { path: Some(p) } => FieldPolicy::EntityReference {
                    source: EntitySource::LiteralPath(p),
                },
                PolicyAttr::Entity { path: None } => FieldPolicy::EntityReference {
                    source: EntitySource::Runtime,
                },
                PolicyAttr::Convert { conversion } => FieldPolicy::UserConversion { conversion },
            },
        )
    } else {
        Err(DefinitionError::ConflictingAttributes { address: decl.address })
    }
}

impl Field {
    /// Resolves one declared field into its field: deterministic, stateless,
    /// and the only place a conflicting declaration can be rejected.
    pub fn resolve(decl: &FieldDecl) -> (r: Result<Field, DefinitionError>)
        ensures
            match spec_resolve_policy(*decl) {
                Ok(p) => r matches Ok(f) && f.address == decl.address && f.ty == decl.ty
                    && f.policy == p,
                Err(e) => r == Err::<Field, DefinitionError>(e),
            },
    {
        if decl.attrs.len() == 0 {
            Ok(
                Field {
                    address: decl.address.duplicate(),
                    ty: decl.ty,
                    policy: FieldPolicy::Passthrough,
                },
            )
        } else if decl.attrs.len() == 1 {
            let policy = match &decl.attrs[0] {
                PolicyAttr::Asset { path: Some(p) } => FieldPolicy::ResourceReference {
                    source: ResourceSource::LiteralPath(p.clone()),
                },
                PolicyAttr::Asset { path: None } => FieldPolicy::ResourceReference {
                    source: ResourceSource::Runtime,
                },
                PolicyAttr::Entity { path: Some(p) } => FieldPolicy::EntityReference {
                    source: EntitySource::LiteralPath(p.clone()),
                },
                PolicyAttr::Entity { path: None } => FieldPolicy::EntityReference {
                    source: EntitySource::Runtime,
                },
                PolicyAttr::Convert { conversion } => FieldPolicy::UserConversion {
                    conversion: *conversion,
                },
            };
            Ok(Field { address: decl.address.duplicate(), ty: decl.ty, policy })
        } else {
            Err(DefinitionError::ConflictingAttributes { address: decl.address.duplicate() })
        }
    }
}

/// The declared addresses fit the structural kind: none for a unit shape, the
/// ordinals in order for a positional shape, names for a named shape.
pub open spec fn spec_shape_ok(kind: ShapeKind, decls: Seq<FieldDecl>) -> bool {
    match kind {
        ShapeKind::Unit => decls.len() == 0,
        ShapeKind::Positional => forall|i: int|
            0 <= i < decls.len() ==> (#[trigger] decls[i]).address == Address::Ordinal(i as usize),
        ShapeKind::Named => forall|i: int|
            0 <= i < decls.len() ==> (#[trigger] decls[i]).address is Name,
    }
}

/// No two fields of a named shape share a name.
pub open spec fn spec_names_distinct(kind: ShapeKind, decls: Seq<FieldDecl>) -> bool {
    kind is Named ==> forall|i: int, j: int|
        0 <= i < j < decls.len() ==> (#[trigger] decls[i]).address->Name_0@
            != (#[trigger] decls[j]).address->Name_0@
}

/// The row of fields a row of declarations resolves to, or the rejection of
/// the first declaration that does not resolve.
pub open spec fn spec_resolve_fields(decls: Seq<FieldDecl>) -> Result<Seq<Field>, DefinitionError>
    decreases decls.len(),
{
    if decls.len() == 0 {
        Ok(Seq::empty())
    } else {
        match spec_resolve_fields(decls.drop_last()) {
            Ok(prefix) => match spec_resolve_policy(decls.last()) {
                Ok(p) => Ok(
                    prefix.push(
                        Field {
                            address: decls.last().address,
                            ty: decls.last().ty,
                            policy: p,
                        },
                    ),
                ),
                Err(e) => Err(e),
            },
            Err(e) => Err(e),
        }
    }
}

/// Resolution is pointwise: each resolved field sits at its declaration's
/// position, with the declaration's address and type.
proof fn lemma_resolve_fields_pointwise(decls: Seq<FieldDecl>)
    ensures
        spec_resolve_fields(decls) matches Ok(fs) ==> {
            &&& fs.len() == decls.len()
            &&& forall|i: int|
                0 <= i < decls.len() ==> (#[trigger] fs[i]).address == decls[i].address && fs[i].ty
                    == decls[i].ty
        },
    decreases decls.len(),
{
    if decls.len() > 0 {
        lemma_resolve_fields_pointwise(decls.drop_last());
    }
}

/// A failed prefix decides the whole row of declarations.
proof fn lemma_resolve_error_extends(decls: Seq<FieldDecl>, i: int)
    requires
        0 <= i <= decls.len(),
        spec_resolve_fields(decls.take(i)) is Err,
    ensures
        spec_resolve_fields(decls) == spec_resolve_fields(decls.take(i)),
    decreases decls.len() - i,
{
    if i == decls.len() {
        assert(decls.take(i) =~= decls);
    } else {
        assert(decls.take(i + 1).drop_last() =~= decls.take(i));
        lemma_resolve_error_extends(decls, i + 1);
    }
}

impl SchematicVariant {
    /// Defines a variant from its declared name, kind and fields, rejecting a
    /// declaration whose addresses do not fit the kind, a named shape with two
    /// fields under one name, and a field with conflicting attributes — in
    /// that order. A defined variant is well formed.
    pub fn define(name: String, kind: ShapeKind, decls: Vec<FieldDecl>) -> (r: Result<
        SchematicVariant,
        DefinitionError,
    >)
        ensures
            r is Ok <==> (spec_shape_ok(kind, decls@) && spec_names_distinct(kind, decls@)
                && spec_resolve_fields(decls@) is Ok),
            r matches Ok(v) ==> {
                &&& v.name == name
                &&& v.kind == kind
                &&& spec_resolve_fields(decls@) matches Ok(fs) && v.fields@ == fs
                &&& v.wf()
            },
            r matches Err(e) ==> match e {
                DefinitionError::ShapeMismatch { variant } => variant == name && !spec_shape_ok(
                    kind,
                    decls@,
                ),
                DefinitionError::DuplicateField { variant, name: dup } => {
                    &&& variant == name
                    &&& spec_shape_ok(kind, decls@)
                    &&& exists|i: int, j: int|
                        0 <= i < j < decls@.len() && (#[trigger] decls@[i]).address->Name_0@
                            == (#[trigger] decls@[j]).address->Name_0@ && decls@[j].address->Name_0@
                            == dup@
                },
                DefinitionError::ConflictingAttributes { .. } => {
                    &&& spec_shape_ok(kind, decls@)
                    &&& spec_names_distinct(kind, decls@)
                    &&& spec_resolve_fields(decls@) == Err::<Seq<Field>, DefinitionError>(e)
                },
                _ => false,
            },
    {
        let n = decls.len();
        match kind {
            ShapeKind::Unit => {
                if n != 0 {
                    return Err(DefinitionError::ShapeMismatch { variant: name });
                }
            },
            ShapeKind::Positional => {
                for i in 0..n
                    invariant
                        n == decls@.len(),
                        kind == ShapeKind::Positional,
                        forall|k: int|
                            0 <= k < i ==> (#[trigger] decls@[k]).address == Address::Ordinal(
                                k as usize,
                            ),
                {
                    match &decls[i].address {
                        Address::Ordinal(k) => {
                            if *k != i {
                                proof {
                                    assert(kind == ShapeKind::Positional);
                                    assert(spec_shape_ok(kind, decls@) ==> decls@[i as int].address
                                        == Address::Ordinal(i as usize));
                                }
                                return Err(DefinitionError::ShapeMismatch { variant: name });
                            }
                        },
                        Address::Name(_) => {
                            proof {
                                assert(kind == ShapeKind::Positional);
                                assert(spec_shape_ok(kind, decls@) ==> decls@[i as int].address
                                    == Address::Ordinal(i as usize));
                            }
                            return Err(DefinitionError::ShapeMismatch { variant: name });
                        },
                    }
                }
            },
            ShapeKind::Named => {
                for j in 0..n
                    invariant
                        n == decls@.len(),
                        kind == ShapeKind::Named,
                        forall|k: int| 0 <= k < j ==> (#[trigger] decls@[k]).address is Name,
                {
                    match &decls[j].address {
                        Address::Name(_) => {},
                        Address::Ordinal(_) => {
                            proof {
                                assert(kind == ShapeKind::Named);
                                assert(spec_shape_ok(kind, decls@) ==> decls@[j as int].address
                                    is Name);
                            }
                            return Err(DefinitionError::ShapeMismatch { variant: name });
                        },
                    }
                }
                for j in 0..n
                    invariant
                        n == decls@.len(),
                        kind == ShapeKind::Named,
                        spec_shape_ok(kind, decls@),
                        forall|a: int, b: int|
                            0 <= a < b < j ==> (#[trigger] decls@[a]).address->Name_0@
                                != (#[trigger] decls@[b]).address->Name_0@,
                {
                    let nj = match &decls[j].address {
                        Address::Name(s) => s,
                        Address::Ordinal(_) => {
                            proof {
                                assert(false);
                            }
                            return Err(DefinitionError::ShapeMismatch { variant: name });
                        },
                    };
                    for a in 0..j
                        invariant
                            n == decls@.len(),
                            j < n,
                            kind == ShapeKind::Named,
                            spec_shape_ok(kind, decls@),
                            decls@[j as int].address matches Address::Name(s) && s == nj,
                            forall|a2: int, b: int|
                                0 <= a2 < b < j ==> (#[trigger] decls@[a2]).address->Name_0@
                                    != (#[trigger] decls@[b]).address->Name_0@,
                            forall|k: int|
                                0 <= k < a ==> (#[trigger] decls@[k]).address->Name_0@ != nj@,
                    {
                        let na = match &decls[a].address {
                            Address::Name(s) => s,
                            Address::Ordinal(_) => {
                                proof {
                                    assert(false);
                                }
                                return Err(DefinitionError::ShapeMismatch { variant: name });
                            },
                        };
                        if *na == *nj {
                            proof {
                                assert(decls@[a as int].address->Name_0@
                                    == decls@[j as int].address->Name_0@);
                                assert(!spec_names_distinct(kind, decls@));
                            }
                            return Err(
                                DefinitionError::DuplicateField { variant: name, name: nj.clone() },
                            );
                        }
                    }
                }
            },
        }
        let mut fields: Vec<Field> = Vec::new();
        proof {
            assert(decls@.take(0) =~= Seq::<FieldDecl>::empty());
        }
        for i in 0..n
            invariant
                n == decls@.len(),
                spec_shape_ok(kind, decls@),
                spec_names_distinct(kind, decls@),
                spec_resolve_fields(decls@.take(i as int)) == Ok::<Seq<Field>, DefinitionError>(
                    fields@,
                ),
        {
            proof {
                assert(decls@.take(i + 1).drop_last() =~= decls@.take(i as int));
                assert(decls@.take(i + 1).last() == decls@[i as int]);
            }
            match Field::resolve(&decls[i]) {
                Ok(f) => {
                    fields.push(f);
                },
                Err(e) => {
                    proof {
                        lemma_resolve_error_extends(decls@, i + 1);
                    }
                    return Err(e);
                },
            }
        }
        proof {
            assert(decls@.take(n as int) =~= decls@);
            lemma_resolve_fields_pointwise(decls@);
        }
        Ok(SchematicVariant { name, kind, fields })
    }
}

/// One definition-time check a variant requires: the conversion capability
/// `conversion` must be registered for the field at `address`, whose declared
/// output type is `ty`.
#[derive(Debug, PartialEq, Eq)]
pub struct Assertion {
    pub variant: String,
    pub address: Address,
    pub conversion: u64,
    pub ty: u64,
}

/// The checks a row of fields requires: one per user-conversion field, in
/// address order.
pub open spec fn spec_assertions(name: String, fields: Seq<Field>) -> Seq<Assertion>
    decreases fields.len(),
{
    if fields.len() == 0 {
        Seq::empty()
    } else {
        let prefix = spec_assertions(name, fields.drop_last());
        match fields.last().policy {
            FieldPolicy::UserConversion { conversion } => prefix.push(
                Assertion {
                    variant: name,
                    address: fields.last().address,
                    conversion,
                    ty: fields.last().ty,
                },
            ),
            _ => prefix,
        }
    }
}

impl SchematicVariant {
    /// The definition-time checks this variant requires, if it requires any:
    /// one per field that defers to a conversion capability.
    pub fn assertions(&self) -> (r: Option<Vec<Assertion>>)
        ensures
            match r {
                Some(list) => list@ == spec_assertions(self.name, self.fields@) && list@.len() > 0,
                None => spec_assertions(self.name, self.fields@).len() == 0,
            },
    {
        let n = self.fields.len();
        let mut list: Vec<Assertion> = Vec::new();
        proof {
            assert(self.fields@.take(0) =~= Seq::<Field>::empty());
        }
        for i in 0..n
            invariant
                n == self.fields@.len(),
                spec_assertions(self.name, self.fields@.take(i as int)) == list@,
        {
            proof {
                assert(self.fields@.take(i + 1).drop_last() =~= self.fields@.take(i as int));
                assert(self.fields@.take(i + 1).last() == self.fields@[i as int]);
            }
            match &self.fields[i].policy {
                FieldPolicy::UserConversion { conversion } => {
                    list.push(
                        Assertion {
                            variant: self.name.clone(),
                            address: self.fields[i].address.duplicate(),
                            conversion: *conversion,
                            ty: self.fields[i].ty,
                        },
                    );
                },
                _ => {},
            }
        }
        proof {
            assert(self.fields@.take(n as int) =~= self.fields@);
        }
        if list.len() == 0 {
            None
        } else {
            Some(list)
        }
    }
}

impl Schema {
    /// Defines a schema from its variants, rejecting two variants under one
    /// name: dispatch by tag must be unambiguous. A schema defined from well
    /// formed variants is well formed.
    pub fn define(variants: Vec<SchematicVariant>) -> (r: Result<Schema, DefinitionError>)
        ensures
            r is Ok <==> forall|i: int, j: int|
                0 <= i < j < variants@.len() ==> (#[trigger] variants@[i]).name@
                    != (#[trigger] variants@[j]).name@,
            r matches Ok(s) ==> s.variants@ == variants@ && ((forall|i: int|
                0 <= i < variants@.len() ==> (#[trigger] variants@[i]).wf()) ==> s.wf()),
            r matches Err(e) ==> e matches DefinitionError::DuplicateVariant { name }
                && exists|i: int, j: int|
                0 <= i < j < variants@.len() && (#[trigger] variants@[i]).name@
                    == (#[trigger] variants@[j]).name@ && variants@[j].name@ == name@,
    {
        let n = variants.len();
        for j in 0..n
            invariant
                n == variants@.len(),
                forall|a: int, b: int|
                    0 <= a < b < j ==> (#[trigger] variants@[a]).name@
                        != (#[trigger] variants@[b]).name@,
        {
            for a in 0..j
                invariant
                    n == variants@.len(),
                    j < n,
                    forall|a2: int, b: int|
                        0 <= a2 < b < j ==> (#[trigger] variants@[a2]).name@
                            != (#[trigger] variants@[b]).name@,
                    forall|k: int| 0 <= k < a ==> (#[trigger] variants@[k]).name@
                        != variants@[j as int].name@,
            {
                if variants[a].name == variants[j].name {
                    return Err(
                        DefinitionError::DuplicateVariant { name: variants[j].name.clone() },
                    );
                }
            }
        }
        Ok(Schema { variants })
    }
}

/// Every user-conversion field of every variant names a capability the
/// registry holds.
pub open spec fn spec_conversions_available(
    variants: Seq<SchematicVariant>,
    registry: ConversionRegistry,
) -> bool {
    forall|i: int, j: int|
        (0 <= i < variants.len() && 0 <= j < variants[i].fields@.len()) ==> ((#[trigger] variants[i].fields@[j]).policy matches FieldPolicy::UserConversion {
            conversion,
        } ==> spec_find_conversion(registry.conversions@, conversion) is Some)
}

impl Schema {
    /// Runs the definition-time assertion checks of every variant against the
    /// registry: succeeds exactly when every conversion rule's capability is
    /// registered, and otherwise rejects with a field whose capability is
    /// missing.
    pub fn validate(&self, registry: &ConversionRegistry) -> (r: Result<(), DefinitionError>)
        ensures
            r is Ok <==> spec_conversions_available(self.variants@, *registry),
            r matches Err(e) ==> e matches DefinitionError::MissingConversion {
                variant,
                address,
                conversion,
            } && exists|i: int, j: int|
                {
                    &&& 0 <= i < self.variants@.len()
                    &&& 0 <= j < self.variants@[i].fields@.len()
                    &&& (#[trigger] self.variants@[i].fields@[j]).policy
                        == (FieldPolicy::UserConversion { conversion })
                    &&& self.variants@[i].name == variant
                    &&& self.variants@[i].fields@[j].address == address
                    &&& spec_find_conversion(registry.conversions@, conversion) is None
                },
    {
        let n = self.variants.len();
        for i in 0..n
            invariant
                n == self.variants@.len(),
                forall|a: int, b: int|
                    (0 <= a < i && 0 <= b < self.variants@[a].fields@.len()) ==> ((#[trigger] self
                        .variants@[a].fields@[b]).policy matches FieldPolicy::UserConversion {
                        conversion,
                    } ==> spec_find_conversion(registry.conversions@, conversion) is Some),
        {
            let m = self.variants[i].fields.len();
            for j in 0..m
                invariant
                    n == self.variants@.len(),
                    i < n,
                    m == self.variants@[i as int].fields@.len(),
                    forall|a: int, b: int|
                        (0 <= a < i && 0 <= b < self.variants@[a].fields@.len()) ==> ((#[trigger] self
                            .variants@[a].fields@[b]).policy matches FieldPolicy::UserConversion {
                            conversion,
                        } ==> spec_find_conversion(registry.conversions@, conversion) is Some),
                    forall|b: int|
                        (0 <= b < j) ==> ((#[trigger] self.variants@[i as int].fields@[b]).policy
                            matches FieldPolicy::UserConversion { conversion }
                            ==> spec_find_conversion(registry.conversions@, conversion) is Some),
            {
                match &self.variants[i].fields[j].policy {
                    FieldPolicy::UserConversion { conversion } => {
                        if !registry.has_conversion(*conversion) {
                            return Err(
                                DefinitionError::MissingConversion {
                                    variant: self.variants[i].name.clone(),
                                    address: self.variants[i].fields[j].address.duplicate(),
                                    conversion: *conversion,
                                },
                            );
                        }
                    },
                    _ => {},
                }
            }
        }
        Ok(())
    }
}

} // verus!
