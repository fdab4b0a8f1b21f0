use leptos_sync_core::ids::ReplicaId;
use leptos_sync_core::protocol::{CodecError, MessageCodec, MessageWrapper, SyncMessage, Timestamp, PROTOCOL_VERSION};

fn create_test_replica_id() -> ReplicaId {
    ReplicaId::random()
}

#[test]
fn test_message_wrapper() {
    let replica_id = create_test_replica_id();
    let message = SyncMessage::Heartbeat { replica_id, timestamp: Timestamp::unix_epoch() };

    let wrapper = MessageWrapper::new(message.clone());
    assert_eq!(wrapper.version, MessageWrapper::PROTOCOL_VERSION);
    assert_eq!(wrapper.message_id, None);

    let wrapper_with_id = MessageWrapper::with_id(message, "msg123".to_string());
    assert_eq!(wrapper_with_id.version, MessageWrapper::PROTOCOL_VERSION);
    assert_eq!(wrapper_with_id.message_id, Some("msg123".to_string()));
}

#[test]
fn envelope_of_current_version_gives_back_its_message() {
    let message = SyncMessage::PeerLeave { replica_id: ReplicaId::from_u128(42) };
    let wrapper = MessageCodec::wrap(message.clone());
    assert_eq!(wrapper.version, PROTOCOL_VERSION);
    assert_eq!(MessageCodec::unwrap_envelope(wrapper), Ok(message));
}

#[test]
fn envelope_of_newer_version_is_refused() {
    let message = SyncMessage::PeerLeave { replica_id: ReplicaId::from_u128(42) };
    let wrapper = MessageWrapper { version: 2, message, message_id: None };
    assert_eq!(
        MessageCodec::unwrap_envelope(wrapper),
        Err(CodecError::UnsupportedVersion { version: 2, supported: 1 })
    );
}

#[test]
fn envelope_of_older_version_is_accepted() {
    let message = SyncMessage::PeerLeave { replica_id: ReplicaId::from_u128(7) };
    let wrapper = MessageWrapper { version: 0, message: message.clone(), message_id: Some("m".to_string()) };
    assert_eq!(MessageCodec::unwrap_envelope(wrapper), Ok(message));
}
