//! Tests of task IDs: generation, the base62 form, parsing and validation.

use mindtape::cli::commands::id::{IdArgs, IdFormat};
use mindtape::id::{encode_base62, is_valid_task_id, new_id, parse_task_id};

const SAMPLE_UUID: &str = "019c5b9b-7317-77b1-bf52-ce7a298cfcad";

#[test]
fn new_id_is_valid_uuidv7() {
    let id = new_id();
    let uuid = uuid::Uuid::parse_str(&id).unwrap();
    assert_eq!(uuid.get_version(), Some(uuid::Version::SortRand));
}

#[test]
fn encode_base62_roundtrip() {
    let b62 = encode_base62(SAMPLE_UUID).unwrap();
    assert!(!b62.is_empty());
    assert!(b62.len() < SAMPLE_UUID.len()); // base62 is shorter

    // Decode back
    let parsed = parse_task_id(&b62).unwrap();
    assert_eq!(parsed, SAMPLE_UUID);
}

#[test]
fn parse_accepts_uuid() {
    let result = parse_task_id(SAMPLE_UUID).unwrap();
    assert_eq!(result, SAMPLE_UUID);
}

#[test]
fn parse_accepts_base62() {
    let b62 = encode_base62(SAMPLE_UUID).unwrap();
    let result = parse_task_id(&b62).unwrap();
    assert_eq!(result, SAMPLE_UUID);
}

#[test]
fn parse_rejects_uuidv4() {
    let v4 = uuid::Uuid::new_v4().to_string();
    let result = parse_task_id(&v4);
    assert!(result.is_err());
    assert!(result.unwrap_err().contains("not UUIDv7"));
}

#[test]
fn parse_rejects_garbage() {
    let result = parse_task_id("not-a-uuid-at-all");
    assert!(result.is_err());
}

#[test]
fn encode_rejects_invalid_uuid() {
    assert!(encode_base62("not-a-uuid").is_none());
}

#[test]
fn is_valid_accepts_both_formats() {
    let b62 = encode_base62(SAMPLE_UUID).unwrap();
    assert!(is_valid_task_id(SAMPLE_UUID));
    assert!(is_valid_task_id(&b62));
}

#[test]
fn is_valid_rejects_invalid() {
    assert!(!is_valid_task_id("garbage"));
    assert!(!is_valid_task_id(&uuid::Uuid::new_v4().to_string()));
}

#[test]
fn new_id_roundtrips_through_base62() {
    let id = new_id();
    let b62 = encode_base62(&id).unwrap();
    let back = parse_task_id(&b62).unwrap();
    assert_eq!(back, id);
}

// --- Generation ---

#[test]
fn generate_base62() {
    let args = IdArgs {
        from: None,
        to: IdFormat::Base62,
    };
    assert!(args.render().is_ok());
}

#[test]
fn generate_uuidv7() {
    let args = IdArgs {
        from: None,
        to: IdFormat::UuidV7,
    };
    assert!(args.render().is_ok());
}

// --- Validation (same-format round-trip) ---

#[test]
fn validate_uuid_to_uuidv7() {
    let args = IdArgs {
        from: Some(SAMPLE_UUID.to_string()),
        to: IdFormat::UuidV7,
    };
    assert!(args.render().is_ok());
}

#[test]
fn validate_base62_to_base62() {
    let b62 = encode_base62(SAMPLE_UUID).unwrap();
    let args = IdArgs {
        from: Some(b62),
        to: IdFormat::Base62,
    };
    assert!(args.render().is_ok());
}

// --- Conversion ---

#[test]
fn convert_uuid_to_base62() {
    let expected = encode_base62(SAMPLE_UUID).unwrap();
    let args = IdArgs {
        from: Some(SAMPLE_UUID.to_string()),
        to: IdFormat::Base62,
    };
    assert!(args.render().is_ok());
    assert_eq!(encode_base62(SAMPLE_UUID).unwrap(), expected);
}

#[test]
fn convert_base62_to_uuidv7() {
    let b62 = encode_base62(SAMPLE_UUID).unwrap();
    let args = IdArgs {
        from: Some(b62),
        to: IdFormat::UuidV7,
    };
    assert!(args.render().is_ok());
}

// --- Rejection ---

#[test]
fn rejects_invalid_input() {
    let args = IdArgs {
        from: Some("not-valid".to_string()),
        to: IdFormat::Base62,
    };
    assert!(args.render().is_err());
}

#[test]
fn rejects_uuidv4() {
    let v4 = uuid::Uuid::new_v4().to_string();
    let args = IdArgs {
        from: Some(v4),
        to: IdFormat::Base62,
    };
    assert!(args.render().is_err());
}
