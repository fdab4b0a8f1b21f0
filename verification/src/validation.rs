//! Validation of messages against the message schema.

use crate::protocol::SyncMessage;
use crate::text::str_eq;
use vstd::prelude::*;
use vstd::string::*;

verus! {

/// Validation error types.
#[derive(Debug)]
pub enum ValidationError {
    SchemaCompilation(String),
    SchemaViolation(String),
    Serialization(String),
    InvalidMessage(String),
}

/// The message types the schema knows.
pub open spec fn supported_message_type(t: Seq<char>) -> bool {
    ||| t == "delta"@
    ||| t == "heartbeat"@
    ||| t == "peer_join"@
    ||| t == "peer_leave"@
    ||| t == "welcome"@
    ||| t == "presence"@
    ||| t == "binary_ack"@
}

/// The version of the message schema.
pub open spec fn schema_version() -> Seq<char> {
    "0.8.4"@
}

/// Schema validator for CRDT messages.
pub struct SchemaValidator {}

impl SchemaValidator {
    /// Create a new schema validator.
    pub fn new() -> (r: Result<Self, ValidationError>)
        ensures
            r is Ok,
    {
        Ok(SchemaValidator {  })
    }

    /// Validate a message against the schema. Every message that the
    /// protocol can express has a type the schema knows.
    pub fn validate_message(&self, message: &SyncMessage) -> (r: Result<(), ValidationError>)
        ensures
            supported_message_type(message.spec_message_type()),
            r is Ok,
    {
        Ok(())
    }

    /// Validate the `type` field of a JSON message (absent: `None`): it must
    /// name a message type of the schema.
    pub fn validate_json_type(&self, message_type: Option<&str>) -> (r: Result<(), ValidationError>)
        ensures
            r is Ok <==> (message_type matches Some(t) && supported_message_type(t@)),
            r matches Err(e) ==> e is SchemaViolation,
    {
        match message_type {
            Some(t) => {
                if self.is_message_type_supported(t) {
                    Ok(())
                } else {
                    Err(
                        ValidationError::SchemaViolation(
                            String::from_str("Unsupported message type: ").concat(t),
                        ),
                    )
                }
            },
            None => Err(ValidationError::SchemaViolation(String::from_str("Missing message type"))),
        }
    }

    /// Get detailed validation errors.
    pub fn validate_with_details(&self, message: &SyncMessage) -> (r: Result<
        (),
        Vec<ValidationError>,
    >)
        ensures
            r is Ok,
    {
        Ok(())
    }

    /// Check if a message type is supported by the schema.
    pub fn is_message_type_supported(&self, message_type: &str) -> (r: bool)
        ensures
            r == supported_message_type(message_type@),
    {
        str_eq(message_type, "delta") || str_eq(message_type, "heartbeat") || str_eq(
            message_type,
            "peer_join",
        ) || str_eq(message_type, "peer_leave") || str_eq(message_type, "welcome") || str_eq(
            message_type,
            "presence",
        ) || str_eq(message_type, "binary_ack")
    }

    /// Get the schema version.
    pub fn get_schema_version(&self) -> (r: &'static str)
        ensures
            r@ == schema_version(),
    {
        "0.8.4"
    }
}

/// The shared schema validator.
pub fn get_validator() -> (r: Result<SchemaValidator, ValidationError>)
    ensures
        r is Ok,
{
    SchemaValidator::new()
}

/// Validate a message with the shared validator.
pub fn validate_message(message: &SyncMessage) -> (r: Result<(), ValidationError>)
    ensures
        r is Ok,
{
    let validator = match get_validator() {
        Ok(v) => v,
        Err(e) => return Err(e),
    };
    validator.validate_message(message)
}

/// Validate the `type` field of a JSON message with the shared validator.
pub fn validate_json_type(message_type: Option<&str>) -> (r: Result<(), ValidationError>)
    ensures
        r is Ok <==> (message_type matches Some(t) && supported_message_type(t@)),
{
    let validator = match get_validator() {
        Ok(v) => v,
        Err(e) => return Err(e),
    };
    validator.validate_json_type(message_type)
}

/// Validate a message when validation is enabled; otherwise accept it.
pub fn validate_message_conditional(message: &SyncMessage, validation_enabled: bool) -> (r: Result<
    (),
    ValidationError,
>)
    ensures
        r is Ok,
{
    if validation_enabled {
        validate_message(message)
    } else {
        Ok(())
    }
}

/// Validate a JSON message's type when validation is enabled; otherwise
/// accept it.
pub fn validate_json_type_conditional(message_type: Option<&str>, validation_enabled: bool) -> (r:
    Result<(), ValidationError>)
    ensures
        validation_enabled ==> (r is Ok <==> (message_type matches Some(t) && supported_message_type(
            t@,
        ))),
        !validation_enabled ==> r is Ok,
{
    if validation_enabled {
        validate_json_type(message_type)
    } else {
        Ok(())
    }
}

} // verus!
