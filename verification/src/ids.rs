//! Replica identities, clock readings and fresh identifiers.

use crate::keyed::MapKey;
use vstd::prelude::*;

verus! {

/// Identity of one replica (a uuid, held as its 128-bit value).
#[derive(Clone, Copy, Debug, PartialEq, Eq, Hash, Structural)]
pub struct ReplicaId(pub u128);

impl View for ReplicaId {
    type V = u128;

    open spec fn view(&self) -> u128 {
        self.0
    }
}

impl MapKey for ReplicaId {
    fn key_eq(&self, other: &Self) -> (r: bool) {
        self.0 == other.0
    }

    fn key_copy(&self) -> (r: Self) {
        ReplicaId(self.0)
    }
}

impl ReplicaId {
    pub fn from_u128(v: u128) -> (r: Self)
        ensures
            r@ == v,
    {
        ReplicaId(v)
    }

    /// A fresh random identity (a version-4 uuid).
    pub fn random() -> (r: Self)
        ensures
            is_v4_uuid(r@),
    {
        ReplicaId(random_uuid_u128())
    }
}

/// Whether a 128-bit value is laid out as a version-4 uuid: the version
/// field holds 4 and the variant field the bits `10`.
pub open spec fn is_v4_uuid(v: u128) -> bool {
    (v >> 76u128) & 0xfu128 == 4u128 && (v >> 62u128) & 3u128 == 2u128
}

/// Calls `uuid::Uuid::new_v4` and hands back the uuid's 128-bit value
/// (`Uuid::as_u128`, a lossless conversion). Of the random value it states
/// only the version and variant fields, which `new_v4` always sets.
#[verifier::external_body]
fn random_uuid_u128() -> (r: u128)
    ensures
        is_v4_uuid(r),
{
    uuid::Uuid::new_v4().as_u128()
}

/// Calls `uuid::Uuid::new_v4` and hands back its text form (`to_string`,
/// the lower-case hyphenated form). Of the random text it states only the
/// shape: 36 characters with hyphens at positions 8, 13, 18 and 23.
#[verifier::external_body]
pub(crate) fn random_uuid_string() -> (r: String)
    ensures
        r@.len() == 36,
        r@[8] == '-' && r@[13] == '-' && r@[18] == '-' && r@[23] == '-',
{
    uuid::Uuid::new_v4().to_string()
}

/// Calls `chrono::Utc::now` and hands back the reading as milliseconds since
/// the Unix epoch (`timestamp_millis`). Nothing is stated of the value: it is
/// the clock. `Utc::now` panics if the system clock is before the epoch; that
/// is a property of the machine, not of any argument.
#[verifier::external_body]
pub(crate) fn now_millis() -> i64 {
    chrono::Utc::now().timestamp_millis()
}

} // verus!
