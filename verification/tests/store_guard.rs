use inventory_core::id::EntityId;
use inventory_core::model::{ItemStatus, LocationStatus, LocationType, UserRoleType};
use inventory_core::store::{
    CreateItemRequest, CreateLocationRequest, LocationChange, Store,
};
use inventory_core::ApiError;

fn location_request(ident: &str) -> CreateLocationRequest {
    CreateLocationRequest {
        location_identifier: ident.to_string(),
        rbac_min_level: UserRoleType::User,
        location_type: LocationType::Shelf,
        max_capacity: Some(10),
        location_status: LocationStatus::Available,
    }
}

fn item_request(name: &str, location_id: EntityId) -> CreateItemRequest {
    CreateItemRequest {
        name: name.to_string(),
        status: None,
        quantity: 1,
        image_uri: None,
        location_id,
    }
}

#[test]
fn create_item_defaults_status_to_available() {
    let mut store = Store::new();
    let loc = store.create_location(location_request("RM1")).unwrap();
    let id = store.create_item(item_request("Drill", loc)).unwrap();
    assert_eq!(store.get_all_items().len(), 1);
    let item = &store.get_all_items()[0];
    assert_eq!(item.id, id);
    assert_eq!(item.name, "Drill");
    assert_eq!(item.status, ItemStatus::Available);
    assert_eq!(item.quantity, 1);
    assert_eq!(item.location_id, loc);
    assert!(item.borrower_ids.is_empty());
}

#[test]
fn item_name_uniqueness_ignores_whitespace() {
    let mut store = Store::new();
    let loc = store.create_location(location_request("RM1")).unwrap();
    store.create_item(item_request("Drill", loc)).unwrap();
    let second = store.create_item(item_request(" Drill ", loc));
    assert_eq!(second, Err(ApiError::Conflict));
    assert_eq!(store.get_all_items().len(), 1);
}

#[test]
fn location_identifier_uniqueness_ignores_whitespace() {
    let mut store = Store::new();
    store.create_location(location_request("RM14")).unwrap();
    let second = store.create_location(location_request(" RM14 "));
    assert_eq!(second, Err(ApiError::Conflict));
    assert_eq!(store.locations.len(), 1);
}

#[test]
fn change_item_status_flips_label() {
    let mut store = Store::new();
    let loc = store.create_location(location_request("RM1")).unwrap();
    let id = store.create_item(item_request("Drill", loc)).unwrap();
    assert_eq!(store.change_item_status(id, ItemStatus::InUse), Ok(()));
    assert_eq!(store.get_all_items()[0].status, ItemStatus::InUse);
    assert_eq!(store.change_item_status(id, ItemStatus::Unavailable), Ok(()));
    assert_eq!(store.get_all_items()[0].status, ItemStatus::Unavailable);
}

#[test]
fn change_item_status_missing_item_is_not_found() {
    let mut store = Store::new();
    let bogus = EntityId { hi: 0, lo: 424242 };
    assert_eq!(
        store.change_item_status(bogus, ItemStatus::InUse),
        Err(ApiError::NotFound)
    );
}

#[test]
fn idempotent_location_change() {
    let mut store = Store::new();
    let loc = store.create_location(location_request("RM1")).unwrap();
    let id = store.create_item(item_request("Drill", loc)).unwrap();
    let before_status = store.get_all_items()[0].status;
    assert_eq!(
        store.change_item_location(id, loc),
        Ok(LocationChange::Unchanged)
    );
    assert_eq!(store.get_all_items().len(), 1);
    assert_eq!(store.get_all_items()[0].location_id, loc);
    assert_eq!(store.get_all_items()[0].status, before_status);
}

#[test]
fn location_change_moves_item() {
    let mut store = Store::new();
    let loc_a = store.create_location(location_request("RM1")).unwrap();
    let loc_b = store.create_location(location_request("RM2")).unwrap();
    let id = store.create_item(item_request("Drill", loc_a)).unwrap();
    assert_eq!(
        store.change_item_location(id, loc_b),
        Ok(LocationChange::Moved)
    );
    assert_eq!(store.get_all_items()[0].location_id, loc_b);
}

#[test]
fn location_change_to_missing_location_is_not_found_without_mutation() {
    let mut store = Store::new();
    let loc = store.create_location(location_request("RM1")).unwrap();
    let id = store.create_item(item_request("Drill", loc)).unwrap();
    let bogus = EntityId { hi: 0, lo: 424242 };
    assert_eq!(store.change_item_location(id, bogus), Err(ApiError::NotFound));
    assert_eq!(store.get_all_items()[0].location_id, loc);
    let missing_item = EntityId { hi: 0, lo: 434343 };
    assert_eq!(
        store.change_item_location(missing_item, loc),
        Err(ApiError::NotFound)
    );
}

#[test]
fn add_borrower_needs_a_user_and_allows_duplicates() {
    let mut store = Store::new();
    let loc = store.create_location(location_request("RM1")).unwrap();
    let id = store.create_item(item_request("Drill", loc)).unwrap();
    let borrower = EntityId { hi: 0, lo: 7 };
    assert_eq!(store.add_borrower(id, borrower), Err(ApiError::NotFound));

    let cfg = inventory_core::auth::AuthConfig {
        key: b"0123456789abcdef0123456789abcdef".to_vec(),
        session_ttl: 60,
        hash_cost: 4,
    };
    let user = inventory_core::auth::provision_user(
        &mut store,
        &cfg,
        "Joe Bloggs".to_string(),
        "joe".to_string(),
        "123456",
        UserRoleType::Admin,
        1,
    )
    .unwrap();
    assert_eq!(store.add_borrower(id, user), Ok(()));
    assert_eq!(store.add_borrower(id, user), Ok(()));
    assert_eq!(store.get_all_items()[0].borrower_ids, vec![user, user]);
}

#[test]
fn quantity_and_image_updates() {
    let mut store = Store::new();
    let loc = store.create_location(location_request("RM1")).unwrap();
    let id = store.create_item(item_request("Drill", loc)).unwrap();
    assert_eq!(store.change_quantity(id, 9), Ok(()));
    assert_eq!(store.get_all_items()[0].quantity, 9);
    assert_eq!(
        store.change_image_uri(id, "https://example.test/drill.png".to_string()),
        Ok(())
    );
    assert_eq!(
        store.get_all_items()[0].image_uri,
        Some("https://example.test/drill.png".to_string())
    );
    let bogus = EntityId { hi: 0, lo: 424242 };
    assert_eq!(store.change_quantity(bogus, 1), Err(ApiError::NotFound));
    assert_eq!(
        store.change_image_uri(bogus, "x".to_string()),
        Err(ApiError::NotFound)
    );
}

#[test]
fn edit_location_status_paths() {
    let mut store = Store::new();
    let loc = store.create_location(location_request("RM1")).unwrap();
    assert_eq!(
        store.edit_location_status(loc, LocationStatus::Unavailable),
        Ok(())
    );
    assert_eq!(
        store.locations[0].location_status,
        LocationStatus::Unavailable
    );
    let bogus = EntityId { hi: 0, lo: 424242 };
    assert_eq!(
        store.edit_location_status(bogus, LocationStatus::Available),
        Err(ApiError::NotFound)
    );
}

#[test]
fn role_ordering_is_ordinal() {
    assert!(UserRoleType::Admin.at_least(&UserRoleType::User));
    assert!(UserRoleType::Admin.at_least(&UserRoleType::Admin));
    assert!(UserRoleType::User.at_least(&UserRoleType::User));
    assert!(!UserRoleType::User.at_least(&UserRoleType::Admin));
}

#[test]
fn delete_location_paths() {
    let mut store = Store::new();
    let first = store.create_location(location_request("RM1")).unwrap();
    assert_eq!(first, EntityId { hi: 0, lo: 0 });
    assert_eq!(
        store.delete_location("zz"),
        Err(ApiError::BadRequest),
        "malformed id"
    );
    assert_eq!(
        store.delete_location("000000000000000000000063"),
        Err(ApiError::NotFound),
        "well-formed but absent id"
    );
    assert_eq!(store.delete_location("000000000000000000000000"), Ok(()));
    assert!(store.locations.is_empty());
}
