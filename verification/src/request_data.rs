use vstd::prelude::*;
use crate::model::Coordinate;

verus! {

/// Largest request body, in bytes, read for these payloads.
pub const MAX_BODY_BYTES: u64 = 4096u64;

/// A protector and the person it protects.
#[derive(Clone, Copy, Debug, PartialEq, Eq, Structural)]
pub struct ProtectionData {
    pub id_protector: i32,
    pub id_protected: i32,
}

/// A position of a protected person.
#[derive(Clone, Copy, Debug, PartialEq, Eq, Structural)]
pub struct PositionData {
    pub id_protected: i32,
    pub latitude: Coordinate,
    pub longitude: Coordinate,
}

/// A new protection, with the name the protector gives to the protected.
#[derive(Clone, Debug)]
pub struct NewProtectionData {
    pub id_protector: i32,
    pub id_protected: i32,
    pub name_protected: String,
}

} // verus!
