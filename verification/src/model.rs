//! Domain entities: users, items and storage locations.

use vstd::prelude::*;
use crate::id::EntityId;

verus! {

/// Role of a user, ordinal: an admin has every capability a regular user has.
#[derive(Clone, Copy, PartialEq, Eq, Structural, Debug)]
pub enum UserRoleType {
    Admin,
    User,
}

/// Rank of a role in the ordinal comparison.
pub open spec fn role_rank(r: UserRoleType) -> int {
    match r {
        UserRoleType::Admin => 1,
        UserRoleType::User => 0,
    }
}

impl UserRoleType {
    /// Whether this role grants at least the capabilities of `required`.
    pub fn at_least(&self, required: &UserRoleType) -> (r: bool)
        ensures
            r == (role_rank(*self) >= role_rank(*required)),
    {
        match (self, required) {
            (UserRoleType::Admin, _) => true,
            (UserRoleType::User, UserRoleType::User) => true,
            (UserRoleType::User, UserRoleType::Admin) => false,
        }
    }
}

/// Status label of an item. Any status may move to any other: the label is
/// not a workflow engine.
#[derive(Clone, Copy, PartialEq, Eq, Structural, Debug)]
pub enum ItemStatus {
    InUse,
    Available,
    Unavailable,
}

/// Kind of a storage location.
#[derive(Clone, Copy, PartialEq, Eq, Structural, Debug)]
pub enum LocationType {
    Cupboard,
    Room,
    Shelf,
    Box,
    Drawer,
}

/// Status label of a location; transitions are unconstrained.
#[derive(Clone, Copy, PartialEq, Eq, Structural, Debug)]
pub enum LocationStatus {
    Available,
    Unavailable,
}

/// An identity record. The passcode is stored only as a one-way hash; the
/// sealed physical token is minted once at provisioning and stored here.
#[derive(Debug)]
pub struct User {
    pub id: EntityId,
    pub full_name: String,
    pub username: String,
    /// One-way hash of the user's short numeric passcode. It must be used in
    /// conjunction with the QR badge token to perform guarded actions.
    pub pass_hash: String,
    /// The sealed token carried by the user's QR badge.
    pub physical_id_qr_token: String,
    pub role: UserRoleType,
}

/// An inventory item. `location_id` must resolve to an existing location at
/// the moment of any location-changing mutation; it is checked then, not
/// enforced by storage.
#[derive(Debug)]
pub struct Item {
    pub id: EntityId,
    pub name: String,
    pub status: ItemStatus,
    pub quantity: u8,
    pub image_uri: Option<String>,
    pub borrower_ids: Vec<EntityId>,
    pub location_id: EntityId,
}

/// A named storage location.
#[derive(Debug)]
pub struct Location {
    pub id: EntityId,
    /// E.g. a room number; unique once trimmed.
    pub location_identifier: String,
    pub rbac_min_level: UserRoleType,
    pub location_type: LocationType,
    /// Not every location has (or can estimate) a maximum capacity.
    pub max_capacity: Option<u16>,
    pub location_status: LocationStatus,
}

} // verus!
