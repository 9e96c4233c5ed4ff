//! In-memory store and the resource mutation guard.
//!
//! The store holds the three collections — users, items, locations — and
//! every state change passes through a guard method here that validates
//! relationship invariants (referenced location exists, trimmed-name
//! uniqueness, borrower existence, no-op detection) before committing.
//! Identifiers are minted from a counter, so a fresh id never collides with
//! a stored one.

use vstd::prelude::*;
use crate::ApiError;
use crate::id::{EntityId, parse_entity_id, parse_id_spec};
use crate::model::{Item, ItemStatus, Location, LocationStatus, LocationType, User, UserRoleType};
use crate::text::{trim_spec, trimmed_eq};

verus! {

/// Items: no two may share an id.
pub open spec fn item_ids_unique(items: Seq<Item>) -> bool {
    forall|i: int, j: int|
        0 <= i < j < items.len() ==> (#[trigger] items[i]).id != (#[trigger] items[j]).id
}

/// Items: no two may share a name once trimmed.
pub open spec fn item_names_unique(items: Seq<Item>) -> bool {
    forall|i: int, j: int|
        0 <= i < j < items.len() ==> trim_spec((#[trigger] items[i]).name@) != trim_spec(
            (#[trigger] items[j]).name@,
        )
}

/// Items: every id was minted by the counter, so ids at or past `next` are
/// free.
pub open spec fn items_minted(items: Seq<Item>, next: u64) -> bool {
    forall|i: int|
        0 <= i < items.len() ==> (#[trigger] items[i]).id.hi == 0 && items[i].id.lo < next
}

/// Locations: no two may share an id.
pub open spec fn location_ids_unique(locations: Seq<Location>) -> bool {
    forall|i: int, j: int|
        0 <= i < j < locations.len() ==> (#[trigger] locations[i]).id != (
        #[trigger] locations[j]).id
}

/// Locations: no two may share an identifier once trimmed.
pub open spec fn location_identifiers_unique(locations: Seq<Location>) -> bool {
    forall|i: int, j: int|
        0 <= i < j < locations.len() ==> trim_spec(
            (#[trigger] locations[i]).location_identifier@,
        ) != trim_spec((#[trigger] locations[j]).location_identifier@)
}

/// Locations: every id was minted by the counter.
pub open spec fn locations_minted(locations: Seq<Location>, next: u64) -> bool {
    forall|i: int|
        0 <= i < locations.len() ==> (#[trigger] locations[i]).id.hi == 0 && locations[i].id.lo
            < next
}

/// Users: no two may share an id.
pub open spec fn user_ids_unique(users: Seq<User>) -> bool {
    forall|i: int, j: int|
        0 <= i < j < users.len() ==> (#[trigger] users[i]).id != (#[trigger] users[j]).id
}

/// Users: usernames are unique.
pub open spec fn usernames_unique(users: Seq<User>) -> bool {
    forall|i: int, j: int|
        0 <= i < j < users.len() ==> (#[trigger] users[i]).username@ != (
        #[trigger] users[j]).username@
}

/// Users: every id was minted by the counter.
pub open spec fn users_minted(users: Seq<User>, next: u64) -> bool {
    forall|i: int|
        0 <= i < users.len() ==> (#[trigger] users[i]).id.hi == 0 && users[i].id.lo < next
}

/// The store: the three collections and the id-minting counter.
pub struct Store {
    pub users: Vec<User>,
    pub items: Vec<Item>,
    pub locations: Vec<Location>,
    pub next_id: u64,
}

impl Store {
    /// Well-formedness: all ids are distinct and counter-minted, item names
    /// and location identifiers are unique once trimmed, and usernames are
    /// unique. Established at creation and preserved by every guard method.
    pub open spec fn wf(self) -> bool {
        &&& item_ids_unique(self.items@)
        &&& item_names_unique(self.items@)
        &&& items_minted(self.items@, self.next_id)
        &&& location_ids_unique(self.locations@)
        &&& location_identifiers_unique(self.locations@)
        &&& locations_minted(self.locations@, self.next_id)
        &&& user_ids_unique(self.users@)
        &&& usernames_unique(self.users@)
        &&& users_minted(self.users@, self.next_id)
    }

    pub open spec fn has_item(self, id: EntityId) -> bool {
        exists|i: int| 0 <= i < self.items@.len() && (#[trigger] self.items@[i]).id == id
    }

    pub open spec fn has_location(self, id: EntityId) -> bool {
        exists|i: int| 0 <= i < self.locations@.len() && (#[trigger] self.locations@[i]).id == id
    }

    pub open spec fn has_user(self, id: EntityId) -> bool {
        exists|i: int| 0 <= i < self.users@.len() && (#[trigger] self.users@[i]).id == id
    }

    /// Index of the item holding `id`; meaningful only under `has_item`.
    pub open spec fn item_index_of(self, id: EntityId) -> int {
        choose|i: int| 0 <= i < self.items@.len() && (#[trigger] self.items@[i]).id == id
    }

    /// Index of the user holding `id`; meaningful only under `has_user`.
    pub open spec fn user_index_of(self, id: EntityId) -> int {
        choose|i: int| 0 <= i < self.users@.len() && (#[trigger] self.users@[i]).id == id
    }

    /// The user record holding `id`; meaningful only under `has_user`.
    pub open spec fn user_with_id(self, id: EntityId) -> User {
        self.users@[self.user_index_of(id)]
    }

    /// An item name is taken when some stored item has the same trimmed
    /// name.
    pub open spec fn item_name_taken_spec(self, name: Seq<char>) -> bool {
        exists|i: int|
            0 <= i < self.items@.len() && trim_spec((#[trigger] self.items@[i]).name@)
                == trim_spec(name)
    }

    /// A location identifier is taken when some stored location has the same
    /// trimmed identifier.
    pub open spec fn location_identifier_taken_spec(self, ident: Seq<char>) -> bool {
        exists|i: int|
            0 <= i < self.locations@.len() && trim_spec(
                (#[trigger] self.locations@[i]).location_identifier@,
            ) == trim_spec(ident)
    }

    /// A username is taken when some stored user has exactly that username.
    pub open spec fn username_taken_spec(self, username: Seq<char>) -> bool {
        exists|i: int|
            0 <= i < self.users@.len() && (#[trigger] self.users@[i]).username@ == username
    }

    /// An empty store.
    pub fn new() -> (r: Store)
        ensures
            r.wf(),
            r.users@.len() == 0,
            r.items@.len() == 0,
            r.locations@.len() == 0,
            r.next_id == 0,
    {
        Store { users: Vec::new(), items: Vec::new(), locations: Vec::new(), next_id: 0 }
    }

    /// Position of the item with the given id, if any.
    fn find_item(&self, id: EntityId) -> (r: Option<usize>)
        ensures
            match r {
                Some(i) => 0 <= i < self.items@.len() && self.items@[i as int].id == id,
                None => !self.has_item(id),
            },
    {
        let mut k: usize = 0;
        while k < self.items.len()
            invariant
                0 <= k <= self.items@.len(),
                forall|j: int| 0 <= j < k ==> (#[trigger] self.items@[j]).id != id,
            decreases self.items@.len() - k,
        {
            if self.items[k].id == id {
                return Some(k);
            }
            k += 1;
        }
        None
    }

    /// Position of the location with the given id, if any.
    fn find_location(&self, id: EntityId) -> (r: Option<usize>)
        ensures
            match r {
                Some(i) => 0 <= i < self.locations@.len() && self.locations@[i as int].id == id,
                None => !self.has_location(id),
            },
    {
        let mut k: usize = 0;
        while k < self.locations.len()
            invariant
                0 <= k <= self.locations@.len(),
                forall|j: int| 0 <= j < k ==> (#[trigger] self.locations@[j]).id != id,
            decreases self.locations@.len() - k,
        {
            if self.locations[k].id == id {
                return Some(k);
            }
            k += 1;
        }
        None
    }

    /// Position of the user with the given id, if any.
    pub(crate) fn find_user(&self, id: EntityId) -> (r: Option<usize>)
        ensures
            match r {
                Some(i) => 0 <= i < self.users@.len() && self.users@[i as int].id == id,
                None => !self.has_user(id),
            },
    {
        let mut k: usize = 0;
        while k < self.users.len()
            invariant
                0 <= k <= self.users@.len(),
                forall|j: int| 0 <= j < k ==> (#[trigger] self.users@[j]).id != id,
            decreases self.users@.len() - k,
        {
            if self.users[k].id == id {
                return Some(k);
            }
            k += 1;
        }
        None
    }

    fn item_name_taken(&self, name: &str) -> (r: bool)
        ensures
            r == self.item_name_taken_spec(name@),
    {
        let mut k: usize = 0;
        while k < self.items.len()
            invariant
                0 <= k <= self.items@.len(),
                forall|j: int|
                    0 <= j < k ==> trim_spec((#[trigger] self.items@[j]).name@) != trim_spec(
                        name@,
                    ),
            decreases self.items@.len() - k,
        {
            if trimmed_eq(self.items[k].name.as_str(), name) {
                return true;
            }
            k += 1;
        }
        false
    }

    fn location_identifier_taken(&self, ident: &str) -> (r: bool)
        ensures
            r == self.location_identifier_taken_spec(ident@),
    {
        let mut k: usize = 0;
        while k < self.locations.len()
            invariant
                0 <= k <= self.locations@.len(),
                forall|j: int|
                    0 <= j < k ==> trim_spec(
                        (#[trigger] self.locations@[j]).location_identifier@,
                    ) != trim_spec(ident@),
            decreases self.locations@.len() - k,
        {
            if trimmed_eq(self.locations[k].location_identifier.as_str(), ident) {
                return true;
            }
            k += 1;
        }
        false
    }

    pub(crate) fn username_taken(&self, username: &str) -> (r: bool)
        ensures
            r == self.username_taken_spec(username@),
    {
        let mut k: usize = 0;
        while k < self.users.len()
            invariant
                0 <= k <= self.users@.len(),
                forall|j: int| 0 <= j < k ==> (#[trigger] self.users@[j]).username@ != username@,
            decreases self.users@.len() - k,
        {
            if self.users[k].username.eq(&username.to_owned()) {
                return true;
            }
            k += 1;
        }
        false
    }
}

/// Outcome of a location change that succeeded: either the item already sat
/// in the requested location (an idempotent no-op) or it was moved.
#[derive(Clone, Copy, PartialEq, Eq, Structural, Debug)]
pub enum LocationChange {
    Unchanged,
    Moved,
}

/// Fields of a create-item request; status defaults to `Available` when
/// unspecified.
#[derive(Debug)]
pub struct CreateItemRequest {
    pub name: String,
    pub status: Option<ItemStatus>,
    pub quantity: u8,
    pub image_uri: Option<String>,
    pub location_id: EntityId,
}

/// The status a created item receives.
pub open spec fn default_item_status(s: Option<ItemStatus>) -> ItemStatus {
    match s {
        None => ItemStatus::Available,
        Some(st) => st,
    }
}

/// Fields of a create-location request.
#[derive(Debug)]
pub struct CreateLocationRequest {
    pub location_identifier: String,
    pub rbac_min_level: UserRoleType,
    pub location_type: LocationType,
    pub max_capacity: Option<u16>,
    pub location_status: LocationStatus,
}

proof fn lemma_items_field_preserving(pre: Seq<Item>, post: Seq<Item>, next: u64)
    requires
        post.len() == pre.len(),
        forall|k: int|
            0 <= k < pre.len() ==> (#[trigger] post[k]).id == pre[k].id && post[k].name
                == pre[k].name,
    ensures
        item_ids_unique(pre) ==> item_ids_unique(post),
        item_names_unique(pre) ==> item_names_unique(post),
        items_minted(pre, next) ==> items_minted(post, next),
{
}

proof fn lemma_locations_field_preserving(pre: Seq<Location>, post: Seq<Location>, next: u64)
    requires
        post.len() == pre.len(),
        forall|k: int|
            0 <= k < pre.len() ==> (#[trigger] post[k]).id == pre[k].id
                && post[k].location_identifier == pre[k].location_identifier,
    ensures
        location_ids_unique(pre) ==> location_ids_unique(post),
        location_identifiers_unique(pre) ==> location_identifiers_unique(post),
        locations_minted(pre, next) ==> locations_minted(post, next),
{
}

impl Store {
    /// Sets the status label of an item; `NotFound` exactly when no item
    /// holds the id. The label is unconstrained: any status may replace any
    /// other.
    pub fn change_item_status(&mut self, item_id: EntityId, new_status: ItemStatus) -> (r: Result<
        (),
        ApiError,
    >)
        requires
            old(self).wf(),
        ensures
            final(self).wf(),
            final(self).users@ == old(self).users@,
            final(self).locations@ == old(self).locations@,
            final(self).next_id == old(self).next_id,
            match r {
                Ok(()) => exists|i: int|
                    {
                        &&& 0 <= i < old(self).items@.len()
                        &&& (#[trigger] old(self).items@[i]).id == item_id
                        &&& final(self).items@ == old(self).items@.update(
                            i,
                            Item { status: new_status, ..old(self).items@[i] },
                        )
                    },
                Err(e) => {
                    &&& e == ApiError::NotFound
                    &&& !old(self).has_item(item_id)
                    &&& *final(self) == *old(self)
                },
            },
    {
        match self.find_item(item_id) {
            None => Err(ApiError::NotFound),
            Some(i) => {
                let ghost pre = self.items@;
                self.items[i].status = new_status;
                proof {
                    assert(self.items@ =~= pre.update(
                        i as int,
                        Item { status: new_status, ..pre[i as int] },
                    ));
                    lemma_items_field_preserving(pre, self.items@, self.next_id);
                }
                Ok(())
            },
        }
    }

    /// Sets the quantity of an item; `NotFound` exactly when no item holds
    /// the id.
    pub fn change_quantity(&mut self, item_id: EntityId, new_quantity: u8) -> (r: Result<
        (),
        ApiError,
    >)
        requires
            old(self).wf(),
        ensures
            final(self).wf(),
            final(self).users@ == old(self).users@,
            final(self).locations@ == old(self).locations@,
            final(self).next_id == old(self).next_id,
            match r {
                Ok(()) => exists|i: int|
                    {
                        &&& 0 <= i < old(self).items@.len()
                        &&& (#[trigger] old(self).items@[i]).id == item_id
                        &&& final(self).items@ == old(self).items@.update(
                            i,
                            Item { quantity: new_quantity, ..old(self).items@[i] },
                        )
                    },
                Err(e) => {
                    &&& e == ApiError::NotFound
                    &&& !old(self).has_item(item_id)
                    &&& *final(self) == *old(self)
                },
            },
    {
        match self.find_item(item_id) {
            None => Err(ApiError::NotFound),
            Some(i) => {
                let ghost pre = self.items@;
                self.items[i].quantity = new_quantity;
                proof {
                    assert(self.items@ =~= pre.update(
                        i as int,
                        Item { quantity: new_quantity, ..pre[i as int] },
                    ));
                    lemma_items_field_preserving(pre, self.items@, self.next_id);
                }
                Ok(())
            },
        }
    }

    /// Sets the image reference of an item; `NotFound` exactly when no item
    /// holds the id.
    pub fn change_image_uri(&mut self, item_id: EntityId, image_uri: String) -> (r: Result<
        (),
        ApiError,
    >)
        requires
            old(self).wf(),
        ensures
            final(self).wf(),
            final(self).users@ == old(self).users@,
            final(self).locations@ == old(self).locations@,
            final(self).next_id == old(self).next_id,
            match r {
                Ok(()) => exists|i: int|
                    {
                        &&& 0 <= i < old(self).items@.len()
                        &&& (#[trigger] old(self).items@[i]).id == item_id
                        &&& final(self).items@ == old(self).items@.update(
                            i,
                            Item { image_uri: Some(image_uri), ..old(self).items@[i] },
                        )
                    },
                Err(e) => {
                    &&& e == ApiError::NotFound
                    &&& !old(self).has_item(item_id)
                    &&& *final(self) == *old(self)
                },
            },
    {
        match self.find_item(item_id) {
            None => Err(ApiError::NotFound),
            Some(i) => {
                let ghost pre = self.items@;
                self.items[i].image_uri = Some(image_uri);
                proof {
                    assert(self.items@ =~= pre.update(
                        i as int,
                        Item { image_uri: Some(image_uri), ..pre[i as int] },
                    ));
                    lemma_items_field_preserving(pre, self.items@, self.next_id);
                }
                Ok(())
            },
        }
    }

    /// Moves an item to another location. Asking for the location the item
    /// already sits in is an idempotent no-op reported as `Unchanged`; a move
    /// to a location that does not exist is `NotFound` and mutates nothing.
    pub fn change_item_location(&mut self, item_id: EntityId, new_location: EntityId) -> (r:
        Result<LocationChange, ApiError>)
        requires
            old(self).wf(),
        ensures
            (exists|i: int|
                0 <= i < old(self).items@.len() && (#[trigger] old(self).items@[i]).id == item_id
                    && old(self).items@[i].location_id == new_location) ==> (r == Ok::<
                LocationChange,
                ApiError,
            >(LocationChange::Unchanged) && *final(self) == *old(self)),
            final(self).wf(),
            final(self).users@ == old(self).users@,
            final(self).locations@ == old(self).locations@,
            final(self).next_id == old(self).next_id,
            match r {
                Ok(LocationChange::Unchanged) => {
                    &&& *final(self) == *old(self)
                    &&& exists|i: int|
                        {
                            &&& 0 <= i < old(self).items@.len()
                            &&& (#[trigger] old(self).items@[i]).id == item_id
                            &&& old(self).items@[i].location_id == new_location
                        }
                },
                Ok(LocationChange::Moved) => {
                    &&& old(self).has_location(new_location)
                    &&& exists|i: int|
                        {
                            &&& 0 <= i < old(self).items@.len()
                            &&& (#[trigger] old(self).items@[i]).id == item_id
                            &&& old(self).items@[i].location_id != new_location
                            &&& final(self).items@ == old(self).items@.update(
                                i,
                                Item { location_id: new_location, ..old(self).items@[i] },
                            )
                        }
                },
                Err(e) => {
                    &&& *final(self) == *old(self)
                    &&& e == ApiError::NotFound
                    &&& (!old(self).has_item(item_id) || (!old(self).has_location(new_location)
                        && (exists|i: int|
                        {
                            &&& 0 <= i < old(self).items@.len()
                            &&& (#[trigger] old(self).items@[i]).id == item_id
                            &&& old(self).items@[i].location_id != new_location
                        })))
                },
            },
    {
        let i = match self.find_item(item_id) {
            None => {
                return Err(ApiError::NotFound);
            },
            Some(i) => i,
        };
        if self.items[i].location_id == new_location {
            return Ok(LocationChange::Unchanged);
        }
        match self.find_location(new_location) {
            None => Err(ApiError::NotFound),
            Some(_) => {
                let ghost pre = self.items@;
                self.items[i].location_id = new_location;
                proof {
                    assert(self.items@ =~= pre.update(
                        i as int,
                        Item { location_id: new_location, ..pre[i as int] },
                    ));
                    lemma_items_field_preserving(pre, self.items@, self.next_id);
                }
                Ok(LocationChange::Moved)
            },
        }
    }

    /// Appends a borrower to an item's list after a coarse existence probe
    /// of the users collection; the append is deliberately not deduplicated.
    /// `NotFound` exactly when there are no users at all or no item holds
    /// the id.
    pub fn add_borrower(&mut self, item_id: EntityId, borrower_id: EntityId) -> (r: Result<
        (),
        ApiError,
    >)
        requires
            old(self).wf(),
        ensures
            final(self).wf(),
            final(self).users@ == old(self).users@,
            final(self).locations@ == old(self).locations@,
            final(self).next_id == old(self).next_id,
            match r {
                Ok(()) => {
                    &&& old(self).users@.len() > 0
                    &&& exists|i: int|
                        {
                            &&& 0 <= i < old(self).items@.len()
                            &&& (#[trigger] old(self).items@[i]).id == item_id
                            &&& final(self).items@[i].borrower_ids@ == old(
                                self,
                            ).items@[i].borrower_ids@.push(borrower_id)
                            &&& final(self).items@ == old(self).items@.update(
                                i,
                                final(self).items@[i],
                            )
                            &&& final(self).items@[i] == (Item {
                                borrower_ids: final(self).items@[i].borrower_ids,
                                ..old(self).items@[i]
                            })
                        }
                },
                Err(e) => {
                    &&& e == ApiError::NotFound
                    &&& (old(self).users@.len() == 0 || !old(self).has_item(item_id))
                    &&& *final(self) == *old(self)
                },
            },
    {
        if self.users.len() == 0 {
            return Err(ApiError::NotFound);
        }
        match self.find_item(item_id) {
            None => Err(ApiError::NotFound),
            Some(i) => {
                let ghost pre = self.items@;
                self.items[i].borrower_ids.push(borrower_id);
                proof {
                    assert(self.items@ =~= pre.update(i as int, self.items@[i as int]));
                    assert(self.items@[i as int] == (Item {
                        borrower_ids: self.items@[i as int].borrower_ids,
                        ..pre[i as int]
                    }));
                    lemma_items_field_preserving(pre, self.items@, self.next_id);
                }
                Ok(())
            },
        }
    }

    /// Creates an item. `Conflict` exactly when an item with the same
    /// trimmed name already exists; otherwise the status defaults to
    /// `Available` when unspecified and the item is inserted under a fresh
    /// id.
    pub fn create_item(&mut self, req: CreateItemRequest) -> (r: Result<EntityId, ApiError>)
        requires
            old(self).wf(),
            old(self).next_id < u64::MAX,
        ensures
            final(self).wf(),
            final(self).users@ == old(self).users@,
            final(self).locations@ == old(self).locations@,
            match r {
                Ok(new_id) => {
                    &&& !old(self).item_name_taken_spec(req.name@)
                    &&& new_id == (EntityId { hi: 0, lo: old(self).next_id })
                    &&& final(self).next_id == old(self).next_id + 1
                    &&& final(self).items@.len() == old(self).items@.len() + 1
                    &&& final(self).items@.subrange(0, old(self).items@.len() as int) == old(
                        self,
                    ).items@
                    &&& ({
                        let it = final(self).items@.last();
                        &&& it.id == new_id
                        &&& it.name == req.name
                        &&& it.status == default_item_status(req.status)
                        &&& it.quantity == req.quantity
                        &&& it.image_uri == req.image_uri
                        &&& it.borrower_ids@ == Seq::<EntityId>::empty()
                        &&& it.location_id == req.location_id
                    })
                },
                Err(e) => {
                    &&& e == ApiError::Conflict
                    &&& old(self).item_name_taken_spec(req.name@)
                    &&& *final(self) == *old(self)
                },
            },
    {
        if self.item_name_taken(req.name.as_str()) {
            return Err(ApiError::Conflict);
        }
        let new_id = EntityId { hi: 0, lo: self.next_id };
        self.next_id = self.next_id + 1;
        let status = match req.status {
            None => ItemStatus::Available,
            Some(st) => st,
        };
        let item = Item {
            id: new_id,
            name: req.name,
            status,
            quantity: req.quantity,
            image_uri: req.image_uri,
            borrower_ids: Vec::new(),
            location_id: req.location_id,
        };
        let ghost pre = *old(self);
        self.items.push(item);
        proof {
            let post = self.items@;
            assert(post.subrange(0, pre.items@.len() as int) =~= pre.items@);
            assert forall|i: int, j: int| 0 <= i < j < post.len() implies (
            #[trigger] post[i]).id != (#[trigger] post[j]).id by {
                if j == post.len() - 1 {
                    assert(pre.items@[i].id.lo < pre.next_id);
                }
            }
            assert forall|i: int, j: int| 0 <= i < j < post.len() implies trim_spec(
                (#[trigger] post[i]).name@,
            ) != trim_spec((#[trigger] post[j]).name@) by {
                if j == post.len() - 1 {
                    assert(trim_spec(pre.items@[i].name@) != trim_spec(req.name@));
                }
            }
        }
        Ok(new_id)
    }

    /// Creates a location. `Conflict` exactly when a location with the same
    /// trimmed identifier already exists; otherwise it is inserted under a
    /// fresh id.
    pub fn create_location(&mut self, req: CreateLocationRequest) -> (r: Result<
        EntityId,
        ApiError,
    >)
        requires
            old(self).wf(),
            old(self).next_id < u64::MAX,
        ensures
            final(self).wf(),
            final(self).users@ == old(self).users@,
            final(self).items@ == old(self).items@,
            match r {
                Ok(new_id) => {
                    &&& !old(self).location_identifier_taken_spec(req.location_identifier@)
                    &&& new_id == (EntityId { hi: 0, lo: old(self).next_id })
                    &&& final(self).next_id == old(self).next_id + 1
                    &&& final(self).locations@.len() == old(self).locations@.len() + 1
                    &&& final(self).locations@.subrange(0, old(self).locations@.len() as int)
                        == old(self).locations@
                    &&& ({
                        let lc = final(self).locations@.last();
                        &&& lc.id == new_id
                        &&& lc.location_identifier == req.location_identifier
                        &&& lc.rbac_min_level == req.rbac_min_level
                        &&& lc.location_type == req.location_type
                        &&& lc.max_capacity == req.max_capacity
                        &&& lc.location_status == req.location_status
                    })
                },
                Err(e) => {
                    &&& e == ApiError::Conflict
                    &&& old(self).location_identifier_taken_spec(req.location_identifier@)
                    &&& *final(self) == *old(self)
                },
            },
    {
        if self.location_identifier_taken(req.location_identifier.as_str()) {
            return Err(ApiError::Conflict);
        }
        let new_id = EntityId { hi: 0, lo: self.next_id };
        self.next_id = self.next_id + 1;
        let loc = Location {
            id: new_id,
            location_identifier: req.location_identifier,
            rbac_min_level: req.rbac_min_level,
            location_type: req.location_type,
            max_capacity: req.max_capacity,
            location_status: req.location_status,
        };
        let ghost pre = *old(self);
        self.locations.push(loc);
        proof {
            let post = self.locations@;
            assert(post.subrange(0, pre.locations@.len() as int) =~= pre.locations@);
            assert forall|i: int, j: int| 0 <= i < j < post.len() implies (
            #[trigger] post[i]).id != (#[trigger] post[j]).id by {
                if j == post.len() - 1 {
                    assert(pre.locations@[i].id.lo < pre.next_id);
                }
            }
            assert forall|i: int, j: int| 0 <= i < j < post.len() implies trim_spec(
                (#[trigger] post[i]).location_identifier@,
            ) != trim_spec((#[trigger] post[j]).location_identifier@) by {
                if j == post.len() - 1 {
                    assert(trim_spec(pre.locations@[i].location_identifier@) != trim_spec(
                        req.location_identifier@,
                    ));
                }
            }
        }
        Ok(new_id)
    }

    /// Sets the status label of a location; `NotFound` exactly when no
    /// location holds the id.
    pub fn edit_location_status(&mut self, location_id: EntityId, new_status: LocationStatus) -> (r:
        Result<(), ApiError>)
        requires
            old(self).wf(),
        ensures
            final(self).wf(),
            final(self).users@ == old(self).users@,
            final(self).items@ == old(self).items@,
            final(self).next_id == old(self).next_id,
            match r {
                Ok(()) => exists|i: int|
                    {
                        &&& 0 <= i < old(self).locations@.len()
                        &&& (#[trigger] old(self).locations@[i]).id == location_id
                        &&& final(self).locations@ == old(self).locations@.update(
                            i,
                            Location { location_status: new_status, ..old(self).locations@[i] },
                        )
                    },
                Err(e) => {
                    &&& e == ApiError::NotFound
                    &&& !old(self).has_location(location_id)
                    &&& *final(self) == *old(self)
                },
            },
    {
        match self.find_location(location_id) {
            None => Err(ApiError::NotFound),
            Some(i) => {
                let ghost pre = self.locations@;
                self.locations[i].location_status = new_status;
                proof {
                    assert(self.locations@ =~= pre.update(
                        i as int,
                        Location { location_status: new_status, ..pre[i as int] },
                    ));
                    lemma_locations_field_preserving(pre, self.locations@, self.next_id);
                }
                Ok(())
            },
        }
    }

    /// Deletes a location by its textual id. `BadRequest` exactly when the
    /// id is malformed, `NotFound` exactly when it parses but no location
    /// holds it. Items that still reference the location keep their now
    /// dangling id: the store deliberately does not cascade.
    pub fn delete_location(&mut self, location_id: &str) -> (r: Result<(), ApiError>)
        requires
            old(self).wf(),
        ensures
            final(self).wf(),
            final(self).users@ == old(self).users@,
            final(self).items@ == old(self).items@,
            final(self).next_id == old(self).next_id,
            match r {
                Ok(()) => {
                    &&& parse_id_spec(location_id@) is Some
                    &&& exists|i: int|
                        {
                            &&& 0 <= i < old(self).locations@.len()
                            &&& (#[trigger] old(self).locations@[i]).id == parse_id_spec(
                                location_id@,
                            ).unwrap()
                            &&& final(self).locations@ == old(self).locations@.remove(i)
                        }
                },
                Err(e) => {
                    &&& *final(self) == *old(self)
                    &&& if parse_id_spec(location_id@) is None {
                        e == ApiError::BadRequest
                    } else {
                        e == ApiError::NotFound && !old(self).has_location(
                            parse_id_spec(location_id@).unwrap(),
                        )
                    }
                },
            },
    {
        let id = match parse_entity_id(location_id) {
            None => {
                return Err(ApiError::BadRequest);
            },
            Some(id) => id,
        };
        match self.find_location(id) {
            None => Err(ApiError::NotFound),
            Some(i) => {
                let ghost pre = self.locations@;
                self.locations.remove(i);
                proof {
                    let post = self.locations@;
                    assert forall|a: int, b: int| 0 <= a < b < post.len() implies (
                    #[trigger] post[a]).id != (#[trigger] post[b]).id by {
                        let a0 = if a < i as int {
                            a
                        } else {
                            a + 1
                        };
                        let b0 = if b < i as int {
                            b
                        } else {
                            b + 1
                        };
                        assert(post[a] == pre[a0] && post[b] == pre[b0]);
                    }
                    assert forall|a: int, b: int| 0 <= a < b < post.len() implies trim_spec(
                        (#[trigger] post[a]).location_identifier@,
                    ) != trim_spec((#[trigger] post[b]).location_identifier@) by {
                        let a0 = if a < i as int {
                            a
                        } else {
                            a + 1
                        };
                        let b0 = if b < i as int {
                            b
                        } else {
                            b + 1
                        };
                        assert(post[a] == pre[a0] && post[b] == pre[b0]);
                    }
                    assert forall|a: int| 0 <= a < post.len() implies (#[trigger] post[a]).id.hi
                        == 0 && post[a].id.lo < self.next_id by {
                        let a0 = if a < i as int {
                            a
                        } else {
                            a + 1
                        };
                        assert(post[a] == pre[a0]);
                    }
                }
                Ok(())
            },
        }
    }

    /// All items, in insertion order.
    pub fn get_all_items(&self) -> (r: &Vec<Item>)
        ensures
            r@ == self.items@,
    {
        &self.items
    }

    /// Returns the sealed physical token stored for a user, addressed by the
    /// textual id. `BadRequest` exactly when the id is malformed, `NotFound`
    /// exactly when it parses but no user holds it.
    pub fn ret_user_id_qr(&self, user_id: &str) -> (r: Result<String, ApiError>)
        ensures
            match r {
                Ok(t) => {
                    &&& parse_id_spec(user_id@) is Some
                    &&& exists|i: int|
                        {
                            &&& 0 <= i < self.users@.len()
                            &&& (#[trigger] self.users@[i]).id == parse_id_spec(
                                user_id@,
                            ).unwrap()
                            &&& t@ == self.users@[i].physical_id_qr_token@
                        }
                },
                Err(e) => {
                    if parse_id_spec(user_id@) is None {
                        e == ApiError::BadRequest
                    } else {
                        e == ApiError::NotFound && !self.has_user(
                            parse_id_spec(user_id@).unwrap(),
                        )
                    }
                },
            },
    {
        let id = match parse_entity_id(user_id) {
            None => {
                return Err(ApiError::BadRequest);
            },
            Some(id) => id,
        };
        match self.find_user(id) {
            None => Err(ApiError::NotFound),
            Some(i) => Ok(self.users[i].physical_id_qr_token.clone()),
        }
    }

    /// Inserts a fully formed user record under a fresh id. The caller must
    /// have ruled out the username; minting the token that embeds the fresh
    /// id is the caller's business.
    pub(crate) fn add_user(
        &mut self,
        full_name: String,
        username: String,
        pass_hash: String,
        physical_id_qr_token: String,
        role: UserRoleType,
    ) -> (new_id: EntityId)
        requires
            old(self).wf(),
            old(self).next_id < u64::MAX,
            !old(self).username_taken_spec(username@),
        ensures
            final(self).wf(),
            final(self).items@ == old(self).items@,
            final(self).locations@ == old(self).locations@,
            final(self).next_id == old(self).next_id + 1,
            new_id == (EntityId { hi: 0, lo: old(self).next_id }),
            final(self).users@.len() == old(self).users@.len() + 1,
            final(self).users@.subrange(0, old(self).users@.len() as int) == old(self).users@,
            ({
                let u = final(self).users@.last();
                &&& u.id == new_id
                &&& u.full_name == full_name
                &&& u.username == username
                &&& u.pass_hash == pass_hash
                &&& u.physical_id_qr_token == physical_id_qr_token
                &&& u.role == role
            }),
    {
        let new_id = EntityId { hi: 0, lo: self.next_id };
        self.next_id = self.next_id + 1;
        let user = User {
            id: new_id,
            full_name,
            username,
            pass_hash,
            physical_id_qr_token,
            role,
        };
        let ghost pre = *old(self);
        self.users.push(user);
        proof {
            let post = self.users@;
            assert(post.subrange(0, pre.users@.len() as int) =~= pre.users@);
            assert forall|i: int, j: int| 0 <= i < j < post.len() implies (
            #[trigger] post[i]).id != (#[trigger] post[j]).id by {
                if j == post.len() - 1 {
                    assert(pre.users@[i].id.lo < pre.next_id);
                }
            }
            assert forall|i: int, j: int| 0 <= i < j < post.len() implies (
            #[trigger] post[i]).username@ != (#[trigger] post[j]).username@ by {}
        }
        new_id
    }
}

} // verus!
