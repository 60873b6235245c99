use schematics::context::Conversion;
use schematics::context::ConversionRegistry;
use schematics::definition::Assertion;
use schematics::definition::FieldDecl;
use schematics::definition::PolicyAttr;
use schematics::errors::DefinitionError;
use schematics::schema::Address;
use schematics::schema::Field;
use schematics::schema::FieldPolicy;
use schematics::schema::EntitySource;
use schematics::schema::ResourceSource;
use schematics::schema::Schema;
use schematics::schema::SchematicVariant;
use schematics::schema::ShapeKind;

fn decl(address: Address, ty: u64, attrs: Vec<PolicyAttr>) -> FieldDecl {
    FieldDecl { address, ty, attrs }
}

#[test]
fn bare_declaration_resolves_to_passthrough() {
    let d = decl(Address::Ordinal(0), 1, vec![]);
    let f = Field::resolve(&d).unwrap();
    assert_eq!(f.policy, FieldPolicy::Passthrough);
    assert_eq!(f.address, Address::Ordinal(0));
    assert_eq!(f.ty, 1);
}

#[test]
fn each_attribute_resolves_to_its_policy() {
    let asset_literal = decl(
        Address::Ordinal(0),
        2,
        vec![PolicyAttr::Asset { path: Some(String::from("a.png")) }],
    );
    assert_eq!(
        Field::resolve(&asset_literal).unwrap().policy,
        FieldPolicy::ResourceReference {
            source: ResourceSource::LiteralPath(String::from("a.png")),
        }
    );
    let asset_runtime = decl(Address::Ordinal(0), 2, vec![PolicyAttr::Asset { path: None }]);
    assert_eq!(
        Field::resolve(&asset_runtime).unwrap().policy,
        FieldPolicy::ResourceReference { source: ResourceSource::Runtime }
    );
    let entity_literal = decl(
        Address::Ordinal(0),
        2,
        vec![PolicyAttr::Entity { path: Some(String::from("root")) }],
    );
    assert_eq!(
        Field::resolve(&entity_literal).unwrap().policy,
        FieldPolicy::EntityReference { source: EntitySource::LiteralPath(String::from("root")) }
    );
    let entity_runtime = decl(Address::Ordinal(0), 2, vec![PolicyAttr::Entity { path: None }]);
    assert_eq!(
        Field::resolve(&entity_runtime).unwrap().policy,
        FieldPolicy::EntityReference { source: EntitySource::Runtime }
    );
    let convert = decl(Address::Ordinal(0), 2, vec![PolicyAttr::Convert { conversion: 8 }]);
    assert_eq!(
        Field::resolve(&convert).unwrap().policy,
        FieldPolicy::UserConversion { conversion: 8 }
    );
}

#[test]
fn conflicting_attributes_identify_the_field() {
    let d = decl(
        Address::Name(String::from("image")),
        2,
        vec![PolicyAttr::Asset { path: None }, PolicyAttr::Entity { path: None }],
    );
    assert_eq!(
        Field::resolve(&d).unwrap_err(),
        DefinitionError::ConflictingAttributes { address: Address::Name(String::from("image")) }
    );
}

#[test]
fn define_accepts_a_well_formed_positional_variant() {
    let v = SchematicVariant::define(
        String::from("Pair"),
        ShapeKind::Positional,
        vec![
            decl(Address::Ordinal(0), 1, vec![]),
            decl(Address::Ordinal(1), 2, vec![PolicyAttr::Asset { path: None }]),
        ],
    )
    .unwrap();
    assert_eq!(v.name, String::from("Pair"));
    assert_eq!(v.kind, ShapeKind::Positional);
    assert_eq!(v.fields.len(), 2);
    assert_eq!(v.fields[1].policy, FieldPolicy::ResourceReference {
        source: ResourceSource::Runtime,
    });
    assert_eq!(
        v.field_addresses(),
        vec![Address::Ordinal(0), Address::Ordinal(1)]
    );
}

#[test]
fn define_rejects_addresses_that_do_not_fit_the_kind() {
    assert_eq!(
        SchematicVariant::define(
            String::from("Empty"),
            ShapeKind::Unit,
            vec![decl(Address::Ordinal(0), 1, vec![])],
        )
        .unwrap_err(),
        DefinitionError::ShapeMismatch { variant: String::from("Empty") }
    );
    assert_eq!(
        SchematicVariant::define(
            String::from("Pair"),
            ShapeKind::Positional,
            vec![decl(Address::Ordinal(1), 1, vec![])],
        )
        .unwrap_err(),
        DefinitionError::ShapeMismatch { variant: String::from("Pair") }
    );
    assert_eq!(
        SchematicVariant::define(
            String::from("Point"),
            ShapeKind::Named,
            vec![decl(Address::Ordinal(0), 1, vec![])],
        )
        .unwrap_err(),
        DefinitionError::ShapeMismatch { variant: String::from("Point") }
    );
}

#[test]
fn define_rejects_a_duplicated_field_name() {
    assert_eq!(
        SchematicVariant::define(
            String::from("Point"),
            ShapeKind::Named,
            vec![
                decl(Address::Name(String::from("x")), 1, vec![]),
                decl(Address::Name(String::from("x")), 1, vec![]),
            ],
        )
        .unwrap_err(),
        DefinitionError::DuplicateField {
            variant: String::from("Point"),
            name: String::from("x"),
        }
    );
}

#[test]
fn define_reports_the_first_conflicting_declaration() {
    assert_eq!(
        SchematicVariant::define(
            String::from("Pair"),
            ShapeKind::Positional,
            vec![
                decl(Address::Ordinal(0), 1, vec![]),
                decl(
                    Address::Ordinal(1),
                    2,
                    vec![
                        PolicyAttr::Convert { conversion: 1 },
                        PolicyAttr::Asset { path: None },
                    ],
                ),
            ],
        )
        .unwrap_err(),
        DefinitionError::ConflictingAttributes { address: Address::Ordinal(1) }
    );
}

#[test]
fn schema_define_rejects_a_duplicated_variant_name() {
    let unit = |name: &str| SchematicVariant {
        name: String::from(name),
        kind: ShapeKind::Unit,
        fields: vec![],
    };
    let ok = Schema::define(vec![unit("A"), unit("B")]).unwrap();
    assert_eq!(ok.variants.len(), 2);
    assert_eq!(
        Schema::define(vec![unit("A"), unit("B"), unit("A")]).unwrap_err(),
        DefinitionError::DuplicateVariant { name: String::from("A") }
    );
}

fn conversion_variant(name: &str, conversion: u64) -> SchematicVariant {
    SchematicVariant {
        name: String::from(name),
        kind: ShapeKind::Named,
        fields: vec![Field {
            address: Address::Name(String::from("value")),
            ty: 4,
            policy: FieldPolicy::UserConversion { conversion },
        }],
    }
}

#[test]
fn assertions_list_every_conversion_field() {
    let v = conversion_variant("Scaled", 9);
    assert_eq!(
        v.assertions(),
        Some(vec![Assertion {
            variant: String::from("Scaled"),
            address: Address::Name(String::from("value")),
            conversion: 9,
            ty: 4,
        }])
    );
    let unit = SchematicVariant {
        name: String::from("Empty"),
        kind: ShapeKind::Unit,
        fields: vec![],
    };
    assert_eq!(unit.assertions(), None);
}

#[test]
fn validate_checks_every_assertion_against_the_registry() {
    let schema = Schema { variants: vec![conversion_variant("Scaled", 9)] };
    let with_capability = ConversionRegistry {
        conversions: vec![Conversion { id: 9, rules: vec![] }],
    };
    assert_eq!(schema.validate(&with_capability), Ok(()));
    let empty = ConversionRegistry::new();
    assert_eq!(
        schema.validate(&empty).unwrap_err(),
        DefinitionError::MissingConversion {
            variant: String::from("Scaled"),
            address: Address::Name(String::from("value")),
            conversion: 9,
        }
    );
}
