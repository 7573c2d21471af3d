//! Tests of the stored property kinds.

use mindtape::index::PropertyKind as IndexPropertyKind;
use mindtape::store::PropertyKind as StorePropertyKind;

#[test]
fn sqlite_tests_property_kind_roundtrip() {
    assert_eq!(
        StorePropertyKind::try_from_str("mindtape.due"),
        Some(StorePropertyKind::Due)
    );
    assert_eq!(
        StorePropertyKind::try_from_str("mindtape.start"),
        Some(StorePropertyKind::Start)
    );
    assert_eq!(
        StorePropertyKind::try_from_str("mindtape.rank"),
        Some(StorePropertyKind::Rank)
    );
    assert_eq!(
        StorePropertyKind::try_from_str("mindtape.tag"),
        Some(StorePropertyKind::Tag)
    );
    assert_eq!(
        StorePropertyKind::try_from_str("mindtape.id"),
        Some(StorePropertyKind::Id)
    );
    assert_eq!(StorePropertyKind::try_from_str("unknown"), None);
    assert_eq!(StorePropertyKind::Due.as_str(), "mindtape.due");
    assert_eq!(StorePropertyKind::Start.as_str(), "mindtape.start");
    assert_eq!(StorePropertyKind::Rank.as_str(), "mindtape.rank");
    assert_eq!(StorePropertyKind::Tag.as_str(), "mindtape.tag");
    assert_eq!(StorePropertyKind::Id.as_str(), "mindtape.id");
}

#[test]
fn store_property_kind_roundtrip() {
    assert_eq!(IndexPropertyKind::from_str("due"), Some(IndexPropertyKind::Due));
    assert_eq!(IndexPropertyKind::from_str("tag"), Some(IndexPropertyKind::Tag));
    assert_eq!(IndexPropertyKind::from_str("id"), Some(IndexPropertyKind::Id));
    assert_eq!(IndexPropertyKind::from_str("unknown"), None);
    assert_eq!(IndexPropertyKind::Due.as_str(), "due");
    assert_eq!(IndexPropertyKind::Tag.as_str(), "tag");
    assert_eq!(IndexPropertyKind::Id.as_str(), "id");
}
