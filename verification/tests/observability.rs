use fixer::observability::{fallback_request_id, health, random_request_id, valid_request_id};

#[test]
fn fallback_request_ids_keep_the_normal_generated_shape() {
    let request_id = fallback_request_id(1);

    assert_eq!(request_id, "req-00000000000000000000000000000001");
    assert_eq!(request_id.len(), 36);
}

#[test]
fn fallback_request_id_writes_large_sequences_in_hex() {
    assert_eq!(fallback_request_id(255), "req-000000000000000000000000000000ff");
    assert_eq!(fallback_request_id(u64::MAX), "req-0000000000000000ffffffffffffffff");
}

#[test]
fn random_request_ids_are_valid_and_depend_on_the_bytes() {
    let first = random_request_id(&vec![0u8; 16]);
    let second = random_request_id(&vec![0xabu8; 16]);
    assert_eq!(first.len(), 36);
    assert_ne!(first, second);
    assert!(valid_request_id(&first));
    assert!(valid_request_id(&second));
}

#[test]
fn request_id_validation_rejects_other_shapes() {
    assert!(valid_request_id(&fallback_request_id(7)));
    assert!(!valid_request_id(""));
    assert!(valid_request_id("req-xyz"));
    assert!(!valid_request_id("bad id"));
    assert!(!valid_request_id(&"x".repeat(129)));
}

#[test]
fn health_reports_ok_with_the_version() {
    let dto = health("1.2.3");
    assert_eq!(dto.schema_version, 1);
    assert_eq!(dto.status, "ok");
    assert_eq!(dto.version, "1.2.3");
}
