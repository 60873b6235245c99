//! The two procedures a variant exposes: dependency discovery (`preload`) and
//! construction (`construct`), with the specification functions that pin down
//! what each returns.
//!
//! Both walk the variant's single field enumeration in address order, so the
//! set of addresses discovery reads is by construction a subset of the set
//! construction resolves, and neither can skip a declared field.

use vstd::prelude::*;

use crate::assets::AssetHandle;
use crate::assets::ProtoAsset;
use crate::assets::path_id;
use crate::assets::spec_handle_id;
use crate::context::Context;
use crate::context::spec_find_entity;
use crate::errors::SchematicError;
use crate::schema::EntitySource;
use crate::schema::Field;
use crate::schema::FieldPolicy;
use crate::schema::ResourceSource;
use crate::schema::Schema;
use crate::schema::SchematicVariant;
use crate::tracker::DependencyTracker;
use crate::tracker::Registration;
use crate::values::EntityAccess;
use crate::values::FieldValue;
use crate::values::InputValue;
use crate::values::OutputFieldValue;
use crate::values::OutputValue;

verus! {

/// The failure reported when the input slot of a field contradicts what the
/// field's policy expects.
pub open spec fn mismatch_of(variant_name: String, field: Field) -> SchematicError {
    SchematicError::ResolutionMismatch {
        variant: variant_name,
        address: field.address,
        ty: field.ty,
    }
}

/// What constructing one field yields: the resolved output value, or the
/// fatal failure of this field.
pub open spec fn spec_convert_field(
    variant_name: String,
    field: Field,
    value: FieldValue,
    ctx: Context,
) -> Result<OutputFieldValue, SchematicError> {
    match field.policy {
        FieldPolicy::Passthrough => match value {
            FieldValue::Plain(v) => Ok(OutputFieldValue::Plain(v)),
            _ => Err(mismatch_of(variant_name, field)),
        },
        FieldPolicy::ResourceReference { source: ResourceSource::LiteralPath(p) } => Ok(
            OutputFieldValue::Handle(
                AssetHandle::Loaded { id: spec_handle_id(p@), path: p, ty: field.ty },
            ),
        ),
        FieldPolicy::ResourceReference { source: ResourceSource::Runtime } => match value {
            FieldValue::Resource(ProtoAsset::AssetPath(p)) => Ok(
                OutputFieldValue::Handle(
                    AssetHandle::Loaded { id: spec_handle_id(p@), path: p, ty: field.ty },
                ),
            ),
            FieldValue::Resource(ProtoAsset::HandleId(h)) => Ok(
                OutputFieldValue::Handle(AssetHandle::Existing { id: h, ty: field.ty }),
            ),
            _ => Err(mismatch_of(variant_name, field)),
        },
        FieldPolicy::EntityReference { source: EntitySource::LiteralPath(p) } => match
        spec_find_entity(ctx.entities.entries@, p@) {
            Some(id) => Ok(OutputFieldValue::Entity(id)),
            None => Err(
                SchematicError::MissingEntity {
                    variant: variant_name,
                    address: field.address,
                    access: EntityAccess { path: p },
                },
            ),
        },
        FieldPolicy::EntityReference { source: EntitySource::Runtime } => match value {
            FieldValue::Entity(access) => match spec_find_entity(
                ctx.entities.entries@,
                access.path@,
            ) {
                Some(id) => Ok(OutputFieldValue::Entity(id)),
                None => Err(
                    SchematicError::MissingEntity {
                        variant: variant_name,
                        address: field.address,
                        access,
                    },
                ),
            },
            _ => Err(mismatch_of(variant_name, field)),
        },
        FieldPolicy::UserConversion { conversion } => match value {
            FieldValue::Plain(v) => match ctx.conversions.spec_convert(conversion, v) {
                Some(w) => Ok(OutputFieldValue::Plain(w)),
                None => Err(
                    SchematicError::ConversionFailed {
                        variant: variant_name,
                        address: field.address,
                        conversion,
                        value: v,
                    },
                ),
            },
            _ => Err(mismatch_of(variant_name, field)),
        },
    }
}

/// What constructing a row of fields yields: the resolved values in address
/// order, or the failure of the first field that fails.
pub open spec fn spec_convert_fields(
    variant_name: String,
    fields: Seq<Field>,
    values: Seq<FieldValue>,
    ctx: Context,
) -> Result<Seq<OutputFieldValue>, SchematicError>
    decreases fields.len(),
{
    if fields.len() == 0 {
        Ok(Seq::empty())
    } else {
        match spec_convert_fields(variant_name, fields.drop_last(), values.drop_last(), ctx) {
            Ok(prefix) => match spec_convert_field(variant_name, fields.last(), values.last(),
            ctx) {
                Ok(v) => Ok(prefix.push(v)),
                Err(e) => Err(e),
            },
            Err(e) => Err(e),
        }
    }
}

/// What constructing a whole variant instance yields: the resolved field row,
/// or the first fatal failure. The tag and the slot count are checked first;
/// an input shaped for another variant is a programmer error and is rejected,
/// never defaulted.
pub open spec fn spec_construct(v: SchematicVariant, input: InputValue, ctx: Context) -> Result<
    Seq<OutputFieldValue>,
    SchematicError,
> {
    if input.tag@ != v.name@ {
        Err(SchematicError::WrongVariant { expected: v.name, found: input.tag })
    } else if input.fields@.len() != v.fields@.len() {
        Err(
            SchematicError::FieldCountMismatch {
                variant: v.name,
                declared: v.fields@.len() as usize,
                found: input.fields@.len() as usize,
            },
        )
    } else {
        spec_convert_fields(v.name, v.fields@, input.fields@, ctx)
    }
}

/// The discovery contribution of one field: the registration it makes, if
/// any, or the fatal failure of reading its slot. Only a resource field
/// contributes; every other policy is bound-but-ignored here.
pub open spec fn spec_field_registration(
    variant_name: String,
    field: Field,
    value: FieldValue,
) -> Result<Option<Registration>, SchematicError> {
    match field.policy {
        FieldPolicy::ResourceReference { source: ResourceSource::LiteralPath(p) } => Ok(
            Some(Registration { path: p, ty: field.ty }),
        ),
        FieldPolicy::ResourceReference { source: ResourceSource::Runtime } => match value {
            FieldValue::Resource(ProtoAsset::AssetPath(p)) => Ok(
                Some(Registration { path: p, ty: field.ty }),
            ),
            FieldValue::Resource(ProtoAsset::HandleId(_)) => Ok(None),
            _ => Err(mismatch_of(variant_name, field)),
        },
        _ => Ok(None),
    }
}

/// The discovery contributions of a row of fields, in address order, or the
/// failure of the first field whose slot cannot be read.
pub open spec fn spec_field_registrations(
    variant_name: String,
    fields: Seq<Field>,
    values: Seq<FieldValue>,
) -> Result<Seq<Registration>, SchematicError>
    decreases fields.len(),
{
    if fields.len() == 0 {
        Ok(Seq::empty())
    } else {
        match spec_field_registrations(variant_name, fields.drop_last(), values.drop_last()) {
            Ok(prefix) => match spec_field_registration(variant_name, fields.last(),
            values.last()) {
                Ok(Some(r)) => Ok(prefix.push(r)),
                Ok(None) => Ok(prefix),
                Err(e) => Err(e),
            },
            Err(e) => Err(e),
        }
    }
}

/// What discovery on a whole variant instance registers, in address order, or
/// the first fatal failure.
pub open spec fn spec_preload(v: SchematicVariant, input: InputValue) -> Result<
    Seq<Registration>,
    SchematicError,
> {
    if input.tag@ != v.name@ {
        Err(SchematicError::WrongVariant { expected: v.name, found: input.tag })
    } else if input.fields@.len() != v.fields@.len() {
        Err(
            SchematicError::FieldCountMismatch {
                variant: v.name,
                declared: v.fields@.len() as usize,
                found: input.fields@.len() as usize,
            },
        )
    } else {
        spec_field_registrations(v.name, v.fields@, input.fields@)
    }
}

/// A failed prefix decides the whole row: once the fields up to some index
/// fail, the full row fails with that same error.
proof fn lemma_convert_error_extends(
    variant_name: String,
    fields: Seq<Field>,
    values: Seq<FieldValue>,
    ctx: Context,
    i: int,
)
    requires
        0 <= i <= fields.len(),
        values.len() == fields.len(),
        spec_convert_fields(variant_name, fields.take(i), values.take(i), ctx) is Err,
    ensures
        spec_convert_fields(variant_name, fields, values, ctx) == spec_convert_fields(
            variant_name,
            fields.take(i),
            values.take(i),
            ctx,
        ),
    decreases fields.len() - i,
{
    if i == fields.len() {
        assert(fields.take(i) =~= fields);
        assert(values.take(i) =~= values);
    } else {
        assert(fields.take(i + 1).drop_last() =~= fields.take(i));
        assert(values.take(i + 1).drop_last() =~= values.take(i));
        lemma_convert_error_extends(variant_name, fields, values, ctx, i + 1);
    }
}

/// The discovery counterpart of [`lemma_convert_error_extends`].
proof fn lemma_registration_error_extends(
    variant_name: String,
    fields: Seq<Field>,
    values: Seq<FieldValue>,
    i: int,
)
    requires
        0 <= i <= fields.len(),
        values.len() == fields.len(),
        spec_field_registrations(variant_name, fields.take(i), values.take(i)) is Err,
    ensures
        spec_field_registrations(variant_name, fields, values) == spec_field_registrations(
            variant_name,
            fields.take(i),
            values.take(i),
        ),
    decreases fields.len() - i,
{
    if i == fields.len() {
        assert(fields.take(i) =~= fields);
        assert(values.take(i) =~= values);
    } else {
        assert(fields.take(i + 1).drop_last() =~= fields.take(i));
        assert(values.take(i + 1).drop_last() =~= values.take(i));
        lemma_registration_error_extends(variant_name, fields, values, i + 1);
    }
}

/// Builds the failure [`mismatch_of`] describes.
fn mismatch_error(variant_name: &String, field: &Field) -> (r: SchematicError)
    ensures
        r == mismatch_of(*variant_name, *field),
{
    SchematicError::ResolutionMismatch {
        variant: variant_name.clone(),
        address: field.address.duplicate(),
        ty: field.ty,
    }
}

/// Resolves one field of `variant_name` through its policy: a passthrough
/// value is kept, a resource reference becomes a handle, an entity reference
/// becomes the identity the spawn context binds to the address, and a
/// user-conversion field defers to the registered capability.
pub fn convert_field(
    variant_name: &String,
    field: &Field,
    value: &FieldValue,
    ctx: &Context,
) -> (r: Result<OutputFieldValue, SchematicError>)
    ensures
        r == spec_convert_field(*variant_name, *field, *value, *ctx),
{
    match &field.policy {
        FieldPolicy::Passthrough => match value {
            FieldValue::Plain(v) => Ok(OutputFieldValue::Plain(v.duplicate())),
            _ => Err(mismatch_error(variant_name, field)),
        },
        FieldPolicy::ResourceReference { source } => match source {
            ResourceSource::LiteralPath(p) => {
                let id = path_id(p.as_str());
                Ok(
                    OutputFieldValue::Handle(
                        AssetHandle::Loaded { id, path: p.clone(), ty: field.ty },
                    ),
                )
            },
            ResourceSource::Runtime => match value {
                FieldValue::Resource(ProtoAsset::AssetPath(p)) => {
                    let id = path_id(p.as_str());
                    Ok(
                        OutputFieldValue::Handle(
                            AssetHandle::Loaded { id, path: p.clone(), ty: field.ty },
                        ),
                    )
                },
                FieldValue::Resource(ProtoAsset::HandleId(h)) => Ok(
                    OutputFieldValue::Handle(AssetHandle::Existing { id: *h, ty: field.ty }),
                ),
                _ => Err(mismatch_error(variant_name, field)),
            },
        },
        FieldPolicy::EntityReference { source } => match source {
            EntitySource::LiteralPath(p) => {
                let access = EntityAccess::from_path(p.clone());
                match ctx.entities.find_entity(&access) {
                    Some(id) => Ok(OutputFieldValue::Entity(id)),
                    None => Err(
                        SchematicError::MissingEntity {
                            variant: variant_name.clone(),
                            address: field.address.duplicate(),
                            access,
                        },
                    ),
                }
            },
            EntitySource::Runtime => match value {
                FieldValue::Entity(access) => match ctx.entities.find_entity(access) {
                    Some(id) => Ok(OutputFieldValue::Entity(id)),
                    None => Err(
                        SchematicError::MissingEntity {
                            variant: variant_name.clone(),
                            address: field.address.duplicate(),
                            access: access.duplicate(),
                        },
                    ),
                },
                _ => Err(mismatch_error(variant_name, field)),
            },
        },
        FieldPolicy::UserConversion { conversion } => match value {
            FieldValue::Plain(v) => match ctx.conversions.convert(*conversion, v) {
                Some(w) => Ok(OutputFieldValue::Plain(w)),
                None => Err(
                    SchematicError::ConversionFailed {
                        variant: variant_name.clone(),
                        address: field.address.duplicate(),
                        conversion: *conversion,
                        value: v.duplicate(),
                    },
                ),
            },
            _ => Err(mismatch_error(variant_name, field)),
        },
    }
}

/// The discovery step of one field: registers nothing for a policy without a
/// discovery contribution, the literal path unconditionally, and the path of
/// a runtime asset reference only on its path arm.
pub fn field_registration(variant_name: &String, field: &Field, value: &FieldValue) -> (r: Result<
    Option<Registration>,
    SchematicError,
>)
    ensures
        r == spec_field_registration(*variant_name, *field, *value),
{
    match &field.policy {
        FieldPolicy::ResourceReference { source } => match source {
            ResourceSource::LiteralPath(p) => Ok(
                Some(Registration { path: p.clone(), ty: field.ty }),
            ),
            ResourceSource::Runtime => match value {
                FieldValue::Resource(ProtoAsset::AssetPath(p)) => Ok(
                    Some(Registration { path: p.clone(), ty: field.ty }),
                ),
                FieldValue::Resource(ProtoAsset::HandleId(_)) => Ok(None),
                _ => Err(mismatch_error(variant_name, field)),
            },
        },
        _ => Ok(None),
    }
}

impl SchematicVariant {
    /// Constructs the resolved output instance for this variant from `input`,
    /// resolving every declared field in address order through its policy
    /// against `ctx`. All or nothing: the first failing field aborts the
    /// construction and no partial output is observable.
    pub fn construct(&self, input: &InputValue, ctx: &Context) -> (r: Result<
        OutputValue,
        SchematicError,
    >)
        ensures
            match spec_construct(*self, *input, *ctx) {
                Ok(outs) => r matches Ok(out) && out.tag == input.tag && out.fields@ == outs,
                Err(e) => r == Err::<OutputValue, SchematicError>(e),
            },
    {
        if !(self.name == input.tag) {
            return Err(
                SchematicError::WrongVariant {
                    expected: self.name.clone(),
                    found: input.tag.clone(),
                },
            );
        }
        let n = self.fields.len();
        if input.fields.len() != n {
            return Err(
                SchematicError::FieldCountMismatch {
                    variant: self.name.clone(),
                    declared: n,
                    found: input.fields.len(),
                },
            );
        }
        let mut out_fields: Vec<OutputFieldValue> = Vec::new();
        proof {
            assert(self.fields@.take(0) =~= Seq::<Field>::empty());
            assert(input.fields@.take(0) =~= Seq::<FieldValue>::empty());
        }
        for i in 0..n
            invariant
                n == self.fields@.len(),
                n == input.fields@.len(),
                input.tag@ == self.name@,
                spec_convert_fields(
                    self.name,
                    self.fields@.take(i as int),
                    input.fields@.take(i as int),
                    *ctx,
                ) == Ok::<Seq<OutputFieldValue>, SchematicError>(out_fields@),
        {
            proof {
                assert(self.fields@.take(i + 1).drop_last() =~= self.fields@.take(i as int));
                assert(input.fields@.take(i + 1).drop_last() =~= input.fields@.take(i as int));
                assert(self.fields@.take(i + 1).last() == self.fields@[i as int]);
                assert(input.fields@.take(i + 1).last() == input.fields@[i as int]);
            }
            match convert_field(&self.name, &self.fields[i], &input.fields[i], ctx) {
                Ok(o) => {
                    out_fields.push(o);
                },
                Err(e) => {
                    proof {
                        lemma_convert_error_extends(
                            self.name,
                            self.fields@,
                            input.fields@,
                            *ctx,
                            i + 1,
                        );
                    }
                    return Err(e);
                },
            }
        }
        proof {
            assert(self.fields@.take(n as int) =~= self.fields@);
            assert(input.fields@.take(n as int) =~= input.fields@);
        }
        Ok(OutputValue { tag: input.tag.clone(), fields: out_fields })
    }

    /// Runs dependency discovery for this variant on `input`: scans the
    /// fields whose policy contributes a registration and records each
    /// discovered dependency with `tracker`, in address order. On failure the
    /// tracker is left exactly as it was.
    pub fn preload(&self, input: &InputValue, tracker: &mut DependencyTracker) -> (r: Result<
        (),
        SchematicError,
    >)
        ensures
            match spec_preload(*self, *input) {
                Ok(regs) => r is Ok && final(tracker).registrations@ == old(
                    tracker,
                ).registrations@ + regs,
                Err(e) => r == Err::<(), SchematicError>(e) && *final(tracker) == *old(tracker),
            },
    {
        if !(self.name == input.tag) {
            return Err(
                SchematicError::WrongVariant {
                    expected: self.name.clone(),
                    found: input.tag.clone(),
                },
            );
        }
        let n = self.fields.len();
        if input.fields.len() != n {
            return Err(
                SchematicError::FieldCountMismatch {
                    variant: self.name.clone(),
                    declared: n,
                    found: input.fields.len(),
                },
            );
        }
        let mut found: Vec<Registration> = Vec::new();
        proof {
            assert(self.fields@.take(0) =~= Seq::<Field>::empty());
            assert(input.fields@.take(0) =~= Seq::<FieldValue>::empty());
        }
        for i in 0..n
            invariant
                n == self.fields@.len(),
                n == input.fields@.len(),
                input.tag@ == self.name@,
                spec_field_registrations(
                    self.name,
                    self.fields@.take(i as int),
                    input.fields@.take(i as int),
                ) == Ok::<Seq<Registration>, SchematicError>(found@),
        {
            proof {
                assert(self.fields@.take(i + 1).drop_last() =~= self.fields@.take(i as int));
                assert(input.fields@.take(i + 1).drop_last() =~= input.fields@.take(i as int));
                assert(self.fields@.take(i + 1).last() == self.fields@[i as int]);
                assert(input.fields@.take(i + 1).last() == input.fields@[i as int]);
            }
            match field_registration(&self.name, &self.fields[i], &input.fields[i]) {
                Ok(Some(reg)) => {
                    found.push(reg);
                },
                Ok(None) => {},
                Err(e) => {
                    proof {
                        lemma_registration_error_extends(self.name, self.fields@, input.fields@,
                        i + 1);
                    }
                    return Err(e);
                },
            }
        }
        proof {
            assert(self.fields@.take(n as int) =~= self.fields@);
            assert(input.fields@.take(n as int) =~= input.fields@);
        }
        let ghost regs = found@;
        tracker.registrations.append(&mut found);
        proof {
            assert(final(tracker).registrations@ == old(tracker).registrations@ + regs);
        }
        Ok(())
    }
}

/// The first variant of the row carrying `tag`, if any does.
pub open spec fn spec_dispatch(variants: Seq<SchematicVariant>, tag: Seq<char>) -> Option<
    SchematicVariant,
>
    decreases variants.len(),
{
    if variants.len() == 0 {
        None
    } else if variants[0].name@ == tag {
        Some(variants[0])
    } else {
        spec_dispatch(variants.drop_first(), tag)
    }
}

impl Schema {
    /// Dispatches `input` by tag to its variant and constructs through it.
    pub fn construct(&self, input: &InputValue, ctx: &Context) -> (r: Result<
        OutputValue,
        SchematicError,
    >)
        ensures
            match spec_dispatch(self.variants@, input.tag@) {
                Some(v) => match spec_construct(v, *input, *ctx) {
                    Ok(outs) => r matches Ok(out) && out.tag == input.tag && out.fields@ == outs,
                    Err(e) => r == Err::<OutputValue, SchematicError>(e),
                },
                None => r == Err::<OutputValue, SchematicError>(
                    SchematicError::UnknownVariant { tag: input.tag },
                ),
            },
    {
        let n = self.variants.len();
        proof {
            assert(self.variants@.skip(0) =~= self.variants@);
        }
        for i in 0..n
            invariant
                n == self.variants@.len(),
                spec_dispatch(self.variants@.skip(i as int), input.tag@) == spec_dispatch(
                    self.variants@,
                    input.tag@,
                ),
        {
            proof {
                assert(self.variants@.skip(i as int)[0] == self.variants@[i as int]);
                assert(self.variants@.skip(i as int).drop_first() =~= self.variants@.skip(
                    i as int + 1,
                ));
            }
            if self.variants[i].name == input.tag {
                return self.variants[i].construct(input, ctx);
            }
        }
        proof {
            assert(self.variants@.skip(n as int) =~= Seq::<SchematicVariant>::empty());
        }
        Err(SchematicError::UnknownVariant { tag: input.tag.clone() })
    }

    /// Dispatches `input` by tag to its variant and runs discovery through
    /// it. On failure the tracker is left exactly as it was.
    pub fn preload(&self, input: &InputValue, tracker: &mut DependencyTracker) -> (r: Result<
        (),
        SchematicError,
    >)
        ensures
            match spec_dispatch(self.variants@, input.tag@) {
                Some(v) => match spec_preload(v, *input) {
                    Ok(regs) => r is Ok && final(tracker).registrations@ == old(
                        tracker,
                    ).registrations@ + regs,
                    Err(e) => r == Err::<(), SchematicError>(e) && *final(tracker) == *old(
                        tracker,
                    ),
                },
                None => r == Err::<(), SchematicError>(
                    SchematicError::UnknownVariant { tag: input.tag },
                ) && *final(tracker) == *old(tracker),
            },
    {
        let n = self.variants.len();
        proof {
            assert(self.variants@.skip(0) =~= self.variants@);
        }
        for i in 0..n
            invariant
                n == self.variants@.len(),
                spec_dispatch(self.variants@.skip(i as int), input.tag@) == spec_dispatch(
                    self.variants@,
                    input.tag@,
                ),
                *tracker == *old(tracker),
        {
            proof {
                assert(self.variants@.skip(i as int)[0] == self.variants@[i as int]);
                assert(self.variants@.skip(i as int).drop_first() =~= self.variants@.skip(
                    i as int + 1,
                ));
            }
            if self.variants[i].name == input.tag {
                return self.variants[i].preload(input, tracker);
            }
        }
        proof {
            assert(self.variants@.skip(n as int) =~= Seq::<SchematicVariant>::empty());
        }
        Err(SchematicError::UnknownVariant { tag: input.tag.clone() })
    }
}

} // verus!
