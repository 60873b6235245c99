use schematics::assets::AssetHandle;
use schematics::assets::DEFAULT_HANDLE_ID;
use schematics::assets::PATH_ID_SEED;
use schematics::assets::ProtoAsset;
use schematics::assets::path_id;
use schematics::phases::field_registration;
use schematics::schema::Address;
use schematics::schema::Field;
use schematics::schema::FieldPolicy;
use schematics::schema::ResourceSource;
use schematics::tracker::DependencyTracker;
use schematics::tracker::Registration;
use schematics::values::FieldValue;
use schematics::values::PlainValue;

#[test]
fn to_asset_path_returns_the_path_arm_only() {
    let by_path = ProtoAsset::AssetPath(String::from("tex.png"));
    assert_eq!(by_path.to_asset_path(), Some(&String::from("tex.png")));
    let by_id = ProtoAsset::HandleId(7);
    assert_eq!(by_id.to_asset_path(), None);
}

#[test]
fn default_handle_id_carries_the_default_identifier() {
    assert_eq!(ProtoAsset::default_handle_id(), ProtoAsset::HandleId(DEFAULT_HANDLE_ID));
}

#[test]
fn a_handle_turns_back_into_its_identifier_reference() {
    // Both arms yield the identifier variant, preserving the identifier
    // exactly; the path variant is never produced.
    let loaded = AssetHandle::Loaded { id: 5, path: String::from("tex.png"), ty: 3 };
    assert_eq!(ProtoAsset::from(loaded), ProtoAsset::HandleId(5));
    let existing = AssetHandle::Existing { id: 7, ty: 3 };
    assert_eq!(ProtoAsset::from(existing), ProtoAsset::HandleId(7));
}

#[test]
fn a_reference_rebuilt_from_a_handle_never_retriggers_registration() {
    let loaded = AssetHandle::Loaded { id: path_id("tex.png"), path: String::from("tex.png"), ty: 3 };
    let reference = ProtoAsset::from(loaded);
    assert_eq!(reference.to_asset_path(), None);
    let field = Field {
        address: Address::Ordinal(0),
        ty: 3,
        policy: FieldPolicy::ResourceReference { source: ResourceSource::Runtime },
    };
    let contribution = field_registration(
        &String::from("Sprite"),
        &field,
        &FieldValue::Resource(reference),
    );
    assert_eq!(contribution, Ok(None));
}

#[test]
fn path_identifiers_are_deterministic_per_path() {
    assert_eq!(path_id(""), PATH_ID_SEED);
    assert_eq!(path_id(""), 14695981039346656037);
    assert_eq!(path_id("tex.png"), 15816779385120242327);
    assert_eq!(path_id("a.png"), 11714431857497495417);
    assert_eq!(path_id("tex.png"), path_id("tex.png"));
}

#[test]
fn the_tracker_records_in_discovery_order() {
    let mut tracker = DependencyTracker::new();
    assert_eq!(tracker.len(), 0);
    tracker.register(String::from("a.png"), 1);
    tracker.register(String::from("b.png"), 2);
    assert_eq!(
        tracker.registrations,
        vec![
            Registration { path: String::from("a.png"), ty: 1 },
            Registration { path: String::from("b.png"), ty: 2 },
        ]
    );
}

#[test]
fn plain_values_compare_by_content() {
    let a = PlainValue::Text(String::from("hello"));
    let b = PlainValue::Text(String::from("hello"));
    let c = PlainValue::Text(String::from("world"));
    assert!(a.matches_value(&b));
    assert!(!a.matches_value(&c));
    assert!(!a.matches_value(&PlainValue::Int(0)));
    assert_eq!(a.duplicate(), a);
}
