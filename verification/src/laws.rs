//! The guarantees that hold across the two procedures, stated over the same
//! specification functions their contracts use.

use vstd::prelude::*;

use crate::assets::AssetHandle;
use crate::assets::ProtoAsset;
use crate::assets::spec_handle_id;
use crate::context::Context;
use crate::context::lemma_find_entity_present;
use crate::context::spec_find_entity;
use crate::errors::SchematicError;
use crate::phases::spec_construct;
use crate::phases::spec_dispatch;
use crate::phases::spec_convert_field;
use crate::phases::spec_convert_fields;
use crate::phases::spec_field_registration;
use crate::phases::spec_field_registrations;
use crate::phases::spec_preload;
use crate::schema::Address;
use crate::schema::EntitySource;
use crate::schema::Field;
use crate::schema::FieldPolicy;
use crate::schema::ResourceSource;
use crate::schema::SchematicVariant;
use crate::tracker::Registration;
use crate::values::EntityAccess;
use crate::values::FieldValue;
use crate::values::InputValue;
use crate::values::OutputFieldValue;

verus! {

impl SchematicVariant {
    /// The addresses construction resolves: every declared field.
    pub open spec fn construct_addresses(&self) -> Set<Address> {
        Set::new(
            |a: Address|
                exists|i: int|
                    0 <= i < self.fields@.len() && (#[trigger] self.fields@[i]).address == a,
        )
    }

    /// The addresses discovery draws a registration from: the declared fields
    /// whose policy is a resource reference.
    pub open spec fn preload_addresses(&self) -> Set<Address> {
        Set::new(
            |a: Address|
                exists|i: int|
                    0 <= i < self.fields@.len() && (#[trigger] self.fields@[i]).address == a
                        && self.fields@[i].policy is ResourceReference,
        )
    }
}

/// A unit-shaped variant constructs to the bare tag and discovers nothing:
/// the output field row is empty and the tracker gains no registration.
pub proof fn lemma_unit_shape(v: SchematicVariant, input: InputValue, ctx: Context)
    requires
        v.wf(),
        v.kind is Unit,
        input.tag@ == v.name@,
        input.fields@.len() == 0,
    ensures
        spec_construct(v, input, ctx) == Ok::<Seq<OutputFieldValue>, SchematicError>(
            Seq::<OutputFieldValue>::empty(),
        ),
        spec_preload(v, input) == Ok::<Seq<Registration>, SchematicError>(
            Seq::<Registration>::empty(),
        ),
{
}

/// Both procedures draw their field addresses from the variant's single field
/// enumeration: the addresses discovery reads are a subset of the addresses
/// construction resolves, and the latter are exactly the declared ones.
pub proof fn lemma_address_coverage(v: SchematicVariant)
    ensures
        v.preload_addresses().subset_of(v.construct_addresses()),
        forall|a: Address| #[trigger]
            v.construct_addresses().contains(a) <==> v.declared_addresses().contains(a),
{
    assert forall|a: Address| #[trigger] v.construct_addresses().contains(a) implies
    v.declared_addresses().contains(a) by {
        let i = choose|i: int|
            0 <= i < v.fields@.len() && (#[trigger] v.fields@[i]).address == a;
        assert(v.declared_addresses()[i] == a);
    }
    assert forall|a: Address| #[trigger] v.declared_addresses().contains(a) implies
    v.construct_addresses().contains(a) by {
        let i = choose|i: int|
            0 <= i < v.declared_addresses().len() && v.declared_addresses()[i] == a;
        assert(v.fields@[i].address == a);
    }
}

/// Construction skips no declared field: when it succeeds, the output row has
/// exactly one resolved value per declared field, at the field's position.
pub proof fn lemma_construct_covers_all_fields(
    variant_name: String,
    fields: Seq<Field>,
    values: Seq<FieldValue>,
    ctx: Context,
)
    requires
        values.len() == fields.len(),
    ensures
        spec_convert_fields(variant_name, fields, values, ctx) matches Ok(outs) ==> {
            &&& outs.len() == fields.len()
            &&& forall|i: int|
                0 <= i < fields.len() ==> spec_convert_field(variant_name, fields[i], values[i],
                ctx) == Ok::<OutputFieldValue, SchematicError>(#[trigger] outs[i])
        },
    decreases fields.len(),
{
    if fields.len() > 0 {
        lemma_construct_covers_all_fields(
            variant_name,
            fields.drop_last(),
            values.drop_last(),
            ctx,
        );
    }
}

/// Discovery reads only the slots of runtime resource fields: two inputs that
/// agree on those slots discover exactly the same registrations, whatever
/// their other slots hold.
pub proof fn lemma_preload_reads_subset(
    variant_name: String,
    fields: Seq<Field>,
    xs: Seq<FieldValue>,
    ys: Seq<FieldValue>,
)
    requires
        xs.len() == fields.len(),
        ys.len() == fields.len(),
        forall|i: int|
            (0 <= i < fields.len() && (#[trigger] fields[i]).policy matches
                FieldPolicy::ResourceReference {
                source: ResourceSource::Runtime,
            }) ==> xs[i] == ys[i],
    ensures
        spec_field_registrations(variant_name, fields, xs) == spec_field_registrations(
            variant_name,
            fields,
            ys,
        ),
    decreases fields.len(),
{
    if fields.len() > 0 {
        lemma_preload_reads_subset(
            variant_name,
            fields.drop_last(),
            xs.drop_last(),
            ys.drop_last(),
        );
    }
}

/// Dispatch by tag finds a variant exactly when one carries the tag, and
/// under distinct variant names it finds the variant: the input's tag alone
/// decides which construction and discovery rules apply.
pub proof fn lemma_dispatch_unique(variants: Seq<SchematicVariant>, tag: Seq<char>, i: int)
    requires
        forall|a: int, b: int|
            0 <= a < b < variants.len() ==> (#[trigger] variants[a]).name@
                != (#[trigger] variants[b]).name@,
        0 <= i < variants.len(),
        variants[i].name@ == tag,
    ensures
        spec_dispatch(variants, tag) == Some(variants[i]),
    decreases variants.len(),
{
    if i > 0 {
        assert forall|a: int, b: int|
            0 <= a < b < variants.drop_first().len() implies (#[trigger] variants.drop_first()[
            a]).name@ != (#[trigger] variants.drop_first()[b]).name@ by {
            assert(variants.drop_first()[a] == variants[a + 1]);
            assert(variants.drop_first()[b] == variants[b + 1]);
        }
        assert(variants.drop_first()[i - 1] == variants[i]);
        lemma_dispatch_unique(variants.drop_first(), tag, i - 1);
    }
}

/// Dispatch fails exactly when no variant carries the tag.
pub proof fn lemma_dispatch_absent(variants: Seq<SchematicVariant>, tag: Seq<char>)
    ensures
        (spec_dispatch(variants, tag) is Some) <==> exists|i: int|
            0 <= i < variants.len() && (#[trigger] variants[i]).name@ == tag,
    decreases variants.len(),
{
    if variants.len() > 0 && variants[0].name@ != tag {
        lemma_dispatch_absent(variants.drop_first(), tag);
        assert forall|i: int|
            0 <= i < variants.len() && (#[trigger] variants[i]).name@ == tag implies exists|j: int|
            0 <= j < variants.drop_first().len() && (#[trigger] variants.drop_first()[j]).name@
                == tag by {
            assert(variants.drop_first()[i - 1] == variants[i]);
        }
    }
}

/// A resource field with a literal path registers exactly that path with the
/// field's declared type, and constructs a fresh load of that same path with
/// that same type — for every input value, the slot being ignored.
pub proof fn lemma_literal_resource_agreement(
    variant_name: String,
    field: Field,
    value: FieldValue,
    ctx: Context,
    path: String,
)
    requires
        field.policy == (FieldPolicy::ResourceReference {
            source: ResourceSource::LiteralPath(path),
        }),
    ensures
        spec_field_registration(variant_name, field, value) == Ok::<
            Option<Registration>,
            SchematicError,
        >(Some(Registration { path, ty: field.ty })),
        spec_convert_field(variant_name, field, value, ctx) == Ok::<
            OutputFieldValue,
            SchematicError,
        >(
            OutputFieldValue::Handle(
                AssetHandle::Loaded { id: spec_handle_id(path@), path, ty: field.ty },
            ),
        ),
{
}

/// A resource field carrying the runtime union: on the path arm, discovery
/// registers the path and construction loads it fresh; on the identifier arm,
/// discovery registers nothing and construction retrieves the existing handle
/// — never a fresh load.
pub proof fn lemma_runtime_resource_union(
    variant_name: String,
    field: Field,
    ctx: Context,
    path: String,
    id: u64,
)
    requires
        field.policy == (FieldPolicy::ResourceReference { source: ResourceSource::Runtime }),
    ensures
        spec_field_registration(
            variant_name,
            field,
            FieldValue::Resource(ProtoAsset::AssetPath(path)),
        ) == Ok::<Option<Registration>, SchematicError>(
            Some(Registration { path, ty: field.ty }),
        ),
        spec_convert_field(
            variant_name,
            field,
            FieldValue::Resource(ProtoAsset::AssetPath(path)),
            ctx,
        ) == Ok::<OutputFieldValue, SchematicError>(
            OutputFieldValue::Handle(
                AssetHandle::Loaded { id: spec_handle_id(path@), path, ty: field.ty },
            ),
        ),
        spec_field_registration(
            variant_name,
            field,
            FieldValue::Resource(ProtoAsset::HandleId(id)),
        ) == Ok::<Option<Registration>, SchematicError>(None),
        spec_convert_field(
            variant_name,
            field,
            FieldValue::Resource(ProtoAsset::HandleId(id)),
            ctx,
        ) == Ok::<OutputFieldValue, SchematicError>(
            OutputFieldValue::Handle(AssetHandle::Existing { id, ty: field.ty }),
        ),
{
}

/// Discovery keeps every registration a field makes: when the whole row
/// succeeds, the registration of each contributing field is in the result.
pub proof fn lemma_preload_keeps_registrations(
    variant_name: String,
    fields: Seq<Field>,
    values: Seq<FieldValue>,
    i: int,
)
    requires
        values.len() == fields.len(),
        0 <= i < fields.len(),
        spec_field_registrations(variant_name, fields, values) is Ok,
        spec_field_registration(variant_name, fields[i], values[i]) matches Ok(Some(_)),
    ensures
        spec_field_registrations(variant_name, fields, values) matches Ok(regs) &&
        spec_field_registration(variant_name, fields[i], values[i]) matches Ok(Some(r)) &&
        regs.contains(r),
    decreases fields.len(),
{
    let regs = spec_field_registrations(variant_name, fields, values)->Ok_0;
    let r = spec_field_registration(variant_name, fields[i], values[i])->Ok_0->Some_0;
    if i == fields.len() - 1 {
        assert(fields.last() == fields[i]);
        assert(values.last() == values[i]);
        assert(regs.last() == r);
    } else {
        lemma_preload_keeps_registrations(
            variant_name,
            fields.drop_last(),
            values.drop_last(),
            i,
        );
        let prefix = spec_field_registrations(
            variant_name,
            fields.drop_last(),
            values.drop_last(),
        )->Ok_0;
        assert(prefix.contains(r));
        let j = choose|j: int| 0 <= j < prefix.len() && prefix[j] == r;
        assert(regs[j] == r);
    }
}

/// The round trip of a literal-path resource field, for every input value the
/// variant accepts: whenever discovery succeeds it registered exactly the
/// declared path with the declared type, and whenever construction succeeds it
/// requested a load of that same path with that same type.
pub proof fn lemma_variant_literal_round_trip(
    v: SchematicVariant,
    input: InputValue,
    ctx: Context,
    i: int,
    path: String,
)
    requires
        0 <= i < v.fields@.len(),
        v.fields@[i].policy == (FieldPolicy::ResourceReference {
            source: ResourceSource::LiteralPath(path),
        }),
    ensures
        spec_preload(v, input) matches Ok(regs) ==> regs.contains(
            Registration { path, ty: v.fields@[i].ty },
        ),
        spec_construct(v, input, ctx) matches Ok(outs) ==> outs[i] == OutputFieldValue::Handle(
            AssetHandle::Loaded { id: spec_handle_id(path@), path, ty: v.fields@[i].ty },
        ),
{
    if input.tag@ == v.name@ && input.fields@.len() == v.fields@.len() {
        if spec_preload(v, input) is Ok {
            lemma_preload_keeps_registrations(v.name, v.fields@, input.fields@, i);
        }
        lemma_construct_covers_all_fields(v.name, v.fields@, input.fields@, ctx);
    }
}

/// A reference rebuilt from a resolved handle is the identifier variant on
/// both arms, carrying the handle's identifier exactly and never the path
/// variant. Fed back into a runtime resource slot, it therefore registers
/// nothing during discovery, and construction retrieves the existing handle
/// rather than loading afresh.
pub proof fn lemma_handle_reference_round_trip(
    variant_name: String,
    field: Field,
    h: AssetHandle,
    ctx: Context,
)
    requires
        field.policy == (FieldPolicy::ResourceReference { source: ResourceSource::Runtime }),
    ensures
        ({
            let r = <ProtoAsset as vstd::std_specs::convert::FromSpec<AssetHandle>>::from_spec(h);
            let id = match h {
                AssetHandle::Loaded { id, .. } => id,
                AssetHandle::Existing { id, .. } => id,
            };
            &&& r == ProtoAsset::HandleId(id)
            &&& spec_field_registration(variant_name, field, FieldValue::Resource(r)) == Ok::<
                Option<Registration>,
                SchematicError,
            >(None)
            &&& spec_convert_field(variant_name, field, FieldValue::Resource(r), ctx) == Ok::<
                OutputFieldValue,
                SchematicError,
            >(OutputFieldValue::Handle(AssetHandle::Existing { id, ty: field.ty }))
        }),
{
}

/// An entity field resolves through the spawn context: an address some entry
/// carries constructs to the identity bound first to it, and an address no
/// entry carries fails fatally with that very address in the failure.
pub proof fn lemma_entity_reference(
    variant_name: String,
    field: Field,
    ctx: Context,
    access: EntityAccess,
)
    requires
        field.policy == (FieldPolicy::EntityReference { source: EntitySource::Runtime }),
    ensures
        ctx.entities.contains_path(access.path@) <==> spec_find_entity(
            ctx.entities.entries@,
            access.path@,
        ) is Some,
        spec_convert_field(variant_name, field, FieldValue::Entity(access), ctx) == (match
        spec_find_entity(ctx.entities.entries@, access.path@) {
            Some(id) => Ok::<OutputFieldValue, SchematicError>(OutputFieldValue::Entity(id)),
            None => Err(
                SchematicError::MissingEntity {
                    variant: variant_name,
                    address: field.address,
                    access,
                },
            ),
        }),
{
    lemma_find_entity_present(ctx.entities.entries@, access.path@);
}

/// The literal-path counterpart of [`lemma_entity_reference`]: the slot is
/// ignored and the declared path is the attempted address.
pub proof fn lemma_literal_entity_reference(
    variant_name: String,
    field: Field,
    value: FieldValue,
    ctx: Context,
    path: String,
)
    requires
        field.policy == (FieldPolicy::EntityReference {
            source: EntitySource::LiteralPath(path),
        }),
    ensures
        ctx.entities.contains_path(path@) <==> spec_find_entity(
            ctx.entities.entries@,
            path@,
        ) is Some,
        spec_convert_field(variant_name, field, value, ctx) == (match spec_find_entity(
            ctx.entities.entries@,
            path@,
        ) {
            Some(id) => Ok::<OutputFieldValue, SchematicError>(OutputFieldValue::Entity(id)),
            None => Err(
                SchematicError::MissingEntity {
                    variant: variant_name,
                    address: field.address,
                    access: EntityAccess { path },
                },
            ),
        }),
{
    lemma_find_entity_present(ctx.entities.entries@, path@);
}

} // verus!
