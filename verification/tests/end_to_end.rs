use schematics::assets::AssetHandle;
use schematics::assets::ProtoAsset;
use schematics::assets::path_id;
use schematics::context::Context;
use schematics::context::Conversion;
use schematics::context::ConversionRegistry;
use schematics::context::ConversionRule;
use schematics::context::SpawnContext;
use schematics::errors::SchematicError;
use schematics::schema::Address;
use schematics::schema::Field;
use schematics::schema::FieldPolicy;
use schematics::schema::ResourceSource;
use schematics::schema::EntitySource;
use schematics::schema::Schema;
use schematics::schema::SchematicVariant;
use schematics::schema::ShapeKind;
use schematics::tracker::DependencyTracker;
use schematics::tracker::Registration;
use schematics::values::EntityAccess;
use schematics::values::FieldValue;
use schematics::values::InputValue;
use schematics::values::OutputFieldValue;
use schematics::values::PlainValue;

const IMAGE_TYPE: u64 = 11;

fn shape_schema() -> Schema {
    Schema {
        variants: vec![
            SchematicVariant {
                name: String::from("Circle"),
                kind: ShapeKind::Positional,
                fields: vec![Field {
                    address: Address::Ordinal(0),
                    ty: 1,
                    policy: FieldPolicy::Passthrough,
                }],
            },
            SchematicVariant {
                name: String::from("Sprite"),
                kind: ShapeKind::Positional,
                fields: vec![Field {
                    address: Address::Ordinal(0),
                    ty: IMAGE_TYPE,
                    policy: FieldPolicy::ResourceReference { source: ResourceSource::Runtime },
                }],
            },
        ],
    }
}

#[test]
fn circle_passthrough() {
    let schema = shape_schema();
    let ctx = Context::new();
    let mut tracker = DependencyTracker::new();
    let input = InputValue {
        tag: String::from("Circle"),
        fields: vec![FieldValue::Plain(PlainValue::Int(5))],
    };
    assert_eq!(schema.preload(&input, &mut tracker), Ok(()));
    assert_eq!(tracker.len(), 0);
    let out = schema.construct(&input, &ctx).unwrap();
    assert_eq!(out.tag, String::from("Circle"));
    assert_eq!(out.fields, vec![OutputFieldValue::Plain(PlainValue::Int(5))]);
}

#[test]
fn sprite_runtime_path_registers_and_loads() {
    let schema = shape_schema();
    let ctx = Context::new();
    let mut tracker = DependencyTracker::new();
    let input = InputValue {
        tag: String::from("Sprite"),
        fields: vec![FieldValue::Resource(ProtoAsset::AssetPath(String::from("tex.png")))],
    };
    assert_eq!(schema.preload(&input, &mut tracker), Ok(()));
    assert_eq!(
        tracker.registrations,
        vec![Registration { path: String::from("tex.png"), ty: IMAGE_TYPE }]
    );
    let out = schema.construct(&input, &ctx).unwrap();
    assert_eq!(out.tag, String::from("Sprite"));
    assert_eq!(
        out.fields,
        vec![OutputFieldValue::Handle(AssetHandle::Loaded {
            id: path_id("tex.png"),
            path: String::from("tex.png"),
            ty: IMAGE_TYPE,
        })]
    );
}

#[test]
fn sprite_runtime_identifier_registers_nothing_and_retrieves() {
    let schema = shape_schema();
    let ctx = Context::new();
    let mut tracker = DependencyTracker::new();
    let input = InputValue {
        tag: String::from("Sprite"),
        fields: vec![FieldValue::Resource(ProtoAsset::HandleId(7))],
    };
    assert_eq!(schema.preload(&input, &mut tracker), Ok(()));
    assert_eq!(tracker.len(), 0);
    let out = schema.construct(&input, &ctx).unwrap();
    assert_eq!(
        out.fields,
        vec![OutputFieldValue::Handle(AssetHandle::Existing { id: 7, ty: IMAGE_TYPE })]
    );
}

#[test]
fn unit_variant_constructs_to_bare_tag_and_preloads_nothing() {
    let variant = SchematicVariant {
        name: String::from("Empty"),
        kind: ShapeKind::Unit,
        fields: vec![],
    };
    let ctx = Context::new();
    let mut tracker = DependencyTracker::new();
    tracker.register(String::from("pre.png"), 3);
    let input = InputValue { tag: String::from("Empty"), fields: vec![] };
    assert_eq!(variant.preload(&input, &mut tracker), Ok(()));
    assert_eq!(
        tracker.registrations,
        vec![Registration { path: String::from("pre.png"), ty: 3 }]
    );
    let out = variant.construct(&input, &ctx).unwrap();
    assert_eq!(out.tag, String::from("Empty"));
    assert!(out.fields.is_empty());
}

#[test]
fn literal_path_registers_for_every_input() {
    let variant = SchematicVariant {
        name: String::from("Backdrop"),
        kind: ShapeKind::Named,
        fields: vec![Field {
            address: Address::Name(String::from("image")),
            ty: IMAGE_TYPE,
            policy: FieldPolicy::ResourceReference {
                source: ResourceSource::LiteralPath(String::from("bg.png")),
            },
        }],
    };
    let ctx = Context::new();
    let mut tracker = DependencyTracker::new();
    // The slot is bound but ignored: the literal path wins for every input.
    let input = InputValue { tag: String::from("Backdrop"), fields: vec![FieldValue::Ignored] };
    assert_eq!(variant.preload(&input, &mut tracker), Ok(()));
    assert_eq!(
        tracker.registrations,
        vec![Registration { path: String::from("bg.png"), ty: IMAGE_TYPE }]
    );
    let out = variant.construct(&input, &ctx).unwrap();
    assert_eq!(
        out.fields,
        vec![OutputFieldValue::Handle(AssetHandle::Loaded {
            id: path_id("bg.png"),
            path: String::from("bg.png"),
            ty: IMAGE_TYPE,
        })]
    );
}

fn entity_variant() -> SchematicVariant {
    SchematicVariant {
        name: String::from("Rig"),
        kind: ShapeKind::Named,
        fields: vec![Field {
            address: Address::Name(String::from("target")),
            ty: 2,
            policy: FieldPolicy::EntityReference { source: EntitySource::Runtime },
        }],
    }
}

#[test]
fn entity_present_resolves_to_its_identity() {
    let variant = entity_variant();
    let mut ctx = Context::new();
    ctx.entities.insert(EntityAccess::from_path(String::from("root/arm")), 42);
    let input = InputValue {
        tag: String::from("Rig"),
        fields: vec![FieldValue::Entity(EntityAccess::from_path(String::from("root/arm")))],
    };
    let out = variant.construct(&input, &ctx).unwrap();
    assert_eq!(out.fields, vec![OutputFieldValue::Entity(42)]);
}

#[test]
fn entity_absent_fails_with_the_attempted_address() {
    let variant = entity_variant();
    let ctx = Context::new();
    let input = InputValue {
        tag: String::from("Rig"),
        fields: vec![FieldValue::Entity(EntityAccess::from_path(String::from("root/leg")))],
    };
    let err = variant.construct(&input, &ctx).unwrap_err();
    assert_eq!(
        err,
        SchematicError::MissingEntity {
            variant: String::from("Rig"),
            address: Address::Name(String::from("target")),
            access: EntityAccess::from_path(String::from("root/leg")),
        }
    );
}

#[test]
fn first_spawn_entry_wins() {
    let mut ctx = SpawnContext::new();
    ctx.insert(EntityAccess::from_path(String::from("a")), 1);
    ctx.insert(EntityAccess::from_path(String::from("a")), 2);
    assert_eq!(ctx.find_entity(&EntityAccess::from_path(String::from("a"))), Some(1));
    assert_eq!(ctx.find_entity(&EntityAccess::from_path(String::from("b"))), None);
}

fn doubling_registry() -> ConversionRegistry {
    ConversionRegistry {
        conversions: vec![Conversion {
            id: 9,
            rules: vec![
                ConversionRule {
                    input: PlainValue::Int(2),
                    output: PlainValue::Int(4),
                },
                ConversionRule {
                    input: PlainValue::Int(2),
                    output: PlainValue::Int(0),
                },
            ],
        }],
    }
}

fn conversion_variant() -> SchematicVariant {
    SchematicVariant {
        name: String::from("Scaled"),
        kind: ShapeKind::Positional,
        fields: vec![Field {
            address: Address::Ordinal(0),
            ty: 5,
            policy: FieldPolicy::UserConversion { conversion: 9 },
        }],
    }
}

#[test]
fn user_conversion_applies_first_matching_rule() {
    let variant = conversion_variant();
    let ctx = Context { entities: SpawnContext::new(), conversions: doubling_registry() };
    let input = InputValue {
        tag: String::from("Scaled"),
        fields: vec![FieldValue::Plain(PlainValue::Int(2))],
    };
    let out = variant.construct(&input, &ctx).unwrap();
    assert_eq!(out.fields, vec![OutputFieldValue::Plain(PlainValue::Int(4))]);
}

#[test]
fn user_conversion_failure_carries_the_value() {
    let variant = conversion_variant();
    let ctx = Context { entities: SpawnContext::new(), conversions: doubling_registry() };
    let input = InputValue {
        tag: String::from("Scaled"),
        fields: vec![FieldValue::Plain(PlainValue::Int(3))],
    };
    let err = variant.construct(&input, &ctx).unwrap_err();
    assert_eq!(
        err,
        SchematicError::ConversionFailed {
            variant: String::from("Scaled"),
            address: Address::Ordinal(0),
            conversion: 9,
            value: PlainValue::Int(3),
        }
    );
}

#[test]
fn mismatched_slot_is_a_resolution_mismatch() {
    let schema = shape_schema();
    let ctx = Context::new();
    // A passthrough field handed a resource value: programmer error, rejected.
    let input = InputValue {
        tag: String::from("Circle"),
        fields: vec![FieldValue::Resource(ProtoAsset::HandleId(1))],
    };
    let err = schema.construct(&input, &ctx).unwrap_err();
    assert_eq!(
        err,
        SchematicError::ResolutionMismatch {
            variant: String::from("Circle"),
            address: Address::Ordinal(0),
            ty: 1,
        }
    );
}

#[test]
fn preload_mismatch_leaves_the_tracker_unchanged() {
    let variant = SchematicVariant {
        name: String::from("Pair"),
        kind: ShapeKind::Positional,
        fields: vec![
            Field {
                address: Address::Ordinal(0),
                ty: IMAGE_TYPE,
                policy: FieldPolicy::ResourceReference {
                    source: ResourceSource::LiteralPath(String::from("a.png")),
                },
            },
            Field {
                address: Address::Ordinal(1),
                ty: IMAGE_TYPE,
                policy: FieldPolicy::ResourceReference { source: ResourceSource::Runtime },
            },
        ],
    };
    let mut tracker = DependencyTracker::new();
    // The second slot should carry the runtime union; a plain value is a
    // mismatch, and not even the first field's literal path may be recorded.
    let input = InputValue {
        tag: String::from("Pair"),
        fields: vec![FieldValue::Ignored, FieldValue::Plain(PlainValue::Bool(true))],
    };
    let err = variant.preload(&input, &mut tracker).unwrap_err();
    assert_eq!(
        err,
        SchematicError::ResolutionMismatch {
            variant: String::from("Pair"),
            address: Address::Ordinal(1),
            ty: IMAGE_TYPE,
        }
    );
    assert_eq!(tracker.len(), 0);
}

#[test]
fn unknown_tag_and_wrong_arity_are_rejected() {
    let schema = shape_schema();
    let ctx = Context::new();
    let mut tracker = DependencyTracker::new();
    let stranger = InputValue { tag: String::from("Square"), fields: vec![] };
    assert_eq!(
        schema.construct(&stranger, &ctx).unwrap_err(),
        SchematicError::UnknownVariant { tag: String::from("Square") }
    );
    assert_eq!(
        schema.preload(&stranger, &mut tracker).unwrap_err(),
        SchematicError::UnknownVariant { tag: String::from("Square") }
    );
    let too_many = InputValue {
        tag: String::from("Circle"),
        fields: vec![
            FieldValue::Plain(PlainValue::Int(1)),
            FieldValue::Plain(PlainValue::Int(2)),
        ],
    };
    assert_eq!(
        schema.construct(&too_many, &ctx).unwrap_err(),
        SchematicError::FieldCountMismatch {
            variant: String::from("Circle"),
            declared: 1,
            found: 2,
        }
    );
    let wrong_tag = InputValue { tag: String::from("Sprite"), fields: vec![] };
    let circle = &schema.variants[0];
    assert_eq!(
        circle.construct(&wrong_tag, &ctx).unwrap_err(),
        SchematicError::WrongVariant {
            expected: String::from("Circle"),
            found: String::from("Sprite"),
        }
    );
}
