use leptos_sync_core::ids::ReplicaId;
use leptos_sync_core::protocol::{CrdtType, PresenceAction, ServerInfo, SyncMessage, Timestamp, UserInfo};
use leptos_sync_core::validation::{
    get_validator, validate_json_type, validate_json_type_conditional, validate_message_conditional,
    SchemaValidator, ValidationError,
};

fn create_test_replica_id() -> ReplicaId {
    ReplicaId::random()
}

fn now() -> Timestamp {
    Timestamp { secs: 1_700_000_000, nanos: 123 }
}

#[test]
fn test_schema_validator_creation() {
    let validator = SchemaValidator::new();
    assert!(validator.is_ok());
}

#[test]
fn test_validate_delta_message() {
    let validator = SchemaValidator::new().unwrap();

    let message = SyncMessage::Delta {
        collection_id: "test-collection".to_string(),
        crdt_type: CrdtType::LwwRegister,
        delta: vec![1, 2, 3, 4],
        timestamp: now(),
        replica_id: create_test_replica_id(),
    };

    let result = validator.validate_message(&message);
    assert!(result.is_ok(), "Delta message should be valid");
}

#[test]
fn test_validate_heartbeat_message() {
    let validator = SchemaValidator::new().unwrap();

    let message = SyncMessage::Heartbeat { replica_id: create_test_replica_id(), timestamp: now() };

    let result = validator.validate_message(&message);
    assert!(result.is_ok(), "Heartbeat message should be valid");
}

#[test]
fn test_validate_peer_join_message() {
    let validator = SchemaValidator::new().unwrap();

    let user_info = UserInfo {
        user_id: "user123".to_string(),
        username: Some("testuser".to_string()),
        display_name: Some("Test User".to_string()),
        avatar_url: None,
    };

    let message = SyncMessage::PeerJoin { replica_id: create_test_replica_id(), user_info: Some(user_info) };

    let result = validator.validate_message(&message);
    assert!(result.is_ok(), "Peer join message should be valid");
}

#[test]
fn test_validate_peer_leave_message() {
    let validator = SchemaValidator::new().unwrap();

    let message = SyncMessage::PeerLeave { replica_id: create_test_replica_id() };

    let result = validator.validate_message(&message);
    assert!(result.is_ok(), "Peer leave message should be valid");
}

#[test]
fn test_validate_welcome_message() {
    let validator = SchemaValidator::new().unwrap();

    let server_info = ServerInfo {
        max_connections: Some(100),
        features: vec!["crdt_sync".to_string(), "presence".to_string()],
        version: "0.8.4".to_string(),
    };

    let message = SyncMessage::Welcome {
        peer_id: create_test_replica_id(),
        timestamp: now(),
        server_info: Some(server_info),
    };

    let result = validator.validate_message(&message);
    assert!(result.is_ok(), "Welcome message should be valid");
}

#[test]
fn test_validate_presence_message() {
    let validator = SchemaValidator::new().unwrap();

    let message = SyncMessage::Presence {
        peer_id: create_test_replica_id(),
        action: PresenceAction::Join,
        timestamp: now(),
    };

    let result = validator.validate_message(&message);
    assert!(result.is_ok(), "Presence message should be valid");
}

#[test]
fn test_validate_binary_ack_message() {
    let validator = SchemaValidator::new().unwrap();

    let message = SyncMessage::BinaryAck { peer_id: create_test_replica_id(), size: 1024, timestamp: now() };

    let result = validator.validate_message(&message);
    assert!(result.is_ok(), "Binary ack message should be valid");
}

#[test]
fn test_validate_invalid_json() {
    let validator = SchemaValidator::new().unwrap();

    let invalid_json: serde_json::Value = serde_json::from_str(
        r#"{
            "type": "invalid_type",
            "version": "1.0.0",
            "timestamp": "2022-01-01T00:00:00Z",
            "replica_id": "550e8400-e29b-41d4-a716-446655440000"
        }"#,
    )
    .unwrap();

    let message_type = invalid_json.get("type").and_then(|t| t.as_str());
    let result = validator.validate_json_type(message_type);
    assert!(result.is_err(), "Invalid JSON should fail validation");
}

#[test]
fn test_message_type_support() {
    let validator = SchemaValidator::new().unwrap();

    assert!(validator.is_message_type_supported("delta"));
    assert!(validator.is_message_type_supported("heartbeat"));
    assert!(validator.is_message_type_supported("peer_join"));
    assert!(validator.is_message_type_supported("peer_leave"));
    assert!(validator.is_message_type_supported("welcome"));
    assert!(validator.is_message_type_supported("presence"));
    assert!(validator.is_message_type_supported("binary_ack"));

    assert!(!validator.is_message_type_supported("invalid_type"));
    assert!(!validator.is_message_type_supported("unknown"));
}

#[test]
fn test_global_validator() {
    let result = get_validator();
    assert!(result.is_ok(), "Global validator should be available");

    let validator = result.unwrap();
    assert_eq!(validator.get_schema_version(), "0.8.4");
}

#[test]
fn test_conditional_validation() {
    let message = SyncMessage::Heartbeat { replica_id: create_test_replica_id(), timestamp: now() };

    // This should always succeed (validation is conditional)
    let result = validate_message_conditional(&message, true);
    assert!(result.is_ok(), "Conditional validation should succeed");
    let result = validate_message_conditional(&message, false);
    assert!(result.is_ok(), "Conditional validation should succeed");
}

#[test]
fn test_validation_with_details() {
    let validator = SchemaValidator::new().unwrap();

    let message = SyncMessage::Heartbeat { replica_id: create_test_replica_id(), timestamp: now() };

    let result = validator.validate_with_details(&message);
    assert!(result.is_ok(), "Valid message should pass detailed validation");
}

#[test]
fn test_all_crdt_types_validation() {
    let validator = SchemaValidator::new().unwrap();

    let crdt_types =
        vec![CrdtType::LwwRegister, CrdtType::LwwMap, CrdtType::GCounter, CrdtType::Tree, CrdtType::Graph];

    for crdt_type in crdt_types {
        let message = SyncMessage::Delta {
            collection_id: "test-collection".to_string(),
            crdt_type,
            delta: vec![],
            timestamp: now(),
            replica_id: create_test_replica_id(),
        };

        let result = validator.validate_message(&message);
        assert!(result.is_ok(), "All CRDT types should be valid");
    }
}

#[test]
fn json_type_missing_or_unknown_is_a_schema_violation() {
    assert!(matches!(validate_json_type(None), Err(ValidationError::SchemaViolation(_))));
    assert!(matches!(validate_json_type(Some("sync")), Err(ValidationError::SchemaViolation(_))));
    assert!(validate_json_type(Some("binary_ack")).is_ok());
}

#[test]
fn json_type_validation_is_skipped_when_disabled() {
    assert!(validate_json_type_conditional(Some("nonsense"), false).is_ok());
    assert!(validate_json_type_conditional(Some("nonsense"), true).is_err());
    assert!(validate_json_type_conditional(Some("delta"), true).is_ok());
}

#[test]
fn message_type_names_follow_the_schema() {
    let validator = SchemaValidator::new().unwrap();
    let id = create_test_replica_id();
    let messages = vec![
        SyncMessage::Heartbeat { replica_id: id, timestamp: now() },
        SyncMessage::PeerLeave { replica_id: id },
        SyncMessage::BinaryAck { peer_id: id, size: 7, timestamp: now() },
    ];
    let names: Vec<&str> = messages.iter().map(|m| m.message_type()).collect();
    assert_eq!(names, vec!["heartbeat", "peer_leave", "binary_ack"]);
    for n in names {
        assert!(validator.is_message_type_supported(n));
    }
}
