use inventory_core::auth::{login, provision_user, seed_db, AuthConfig};
use inventory_core::id::EntityId;
use inventory_core::model::UserRoleType;
use inventory_core::session::{begin_or_renew, current_identity, Session};
use inventory_core::store::Store;
use inventory_core::token::serialize_physical_token;
use inventory_core::ApiError;

fn config() -> AuthConfig {
    AuthConfig {
        key: b"0123456789abcdef0123456789abcdef".to_vec(),
        session_ttl: 60,
        hash_cost: 4,
    }
}

fn provisioned_store(cfg: &AuthConfig) -> (Store, EntityId) {
    let mut store = Store::new();
    let id = provision_user(
        &mut store,
        cfg,
        "Alice Liddell".to_string(),
        "alice".to_string(),
        "123456",
        UserRoleType::User,
        1,
    )
    .expect("provisioning must succeed");
    (store, id)
}

#[test]
fn end_to_end_login_scenario() {
    let cfg = config();
    let (store, user_id) = provisioned_store(&cfg);
    let now: u64 = 1000;

    let session = login(&store, &cfg, None, user_id, "123456", "", now)
        .expect("correct two-factor login must succeed");
    assert_eq!(current_identity(&Some(session), now), Some(user_id));
    assert_eq!(session.expires_at, now + cfg.session_ttl);

    let denied = login(&store, &cfg, None, user_id, "000000", "", now);
    assert_eq!(denied, Err(ApiError::Unauthorized));
}

#[test]
fn login_unknown_user_is_not_found() {
    let cfg = config();
    let (store, _) = provisioned_store(&cfg);
    let bogus = EntityId { hi: 0, lo: 424242 };
    assert_eq!(
        login(&store, &cfg, None, bogus, "123456", "", 1000),
        Err(ApiError::NotFound)
    );
}

#[test]
fn cross_check_rejects_renamed_user() {
    let cfg = config();
    let (mut store, user_id) = provisioned_store(&cfg);
    // The username is changed after the badge was minted: the passcode is
    // still correct, but the badge no longer agrees with the record.
    store.users[0].username = "mallory".to_string();
    assert_eq!(
        login(&store, &cfg, None, user_id, "123456", "", 1000),
        Err(ApiError::Unauthorized)
    );
}

#[test]
fn cross_check_rejects_rotated_passcode() {
    let cfg = config();
    let (mut store, user_id) = provisioned_store(&cfg);
    // The passcode is rotated server-side without reissuing the badge: even
    // the new, correct passcode must not unlock with the stale badge.
    store.users[0].pass_hash = bcrypt::hash("654321", 4).unwrap();
    assert_eq!(
        login(&store, &cfg, None, user_id, "654321", "", 1000),
        Err(ApiError::Unauthorized)
    );
}

#[test]
fn malformed_stored_hash_is_internal_error() {
    let cfg = config();
    let (mut store, user_id) = provisioned_store(&cfg);
    store.users[0].pass_hash = "not-a-hash".to_string();
    assert_eq!(
        login(&store, &cfg, None, user_id, "123456", "", 1000),
        Err(ApiError::InternalError)
    );
}

#[test]
fn login_renews_existing_session() {
    let cfg = config();
    let (store, user_id) = provisioned_store(&cfg);
    let first = login(&store, &cfg, None, user_id, "123456", "", 1000).unwrap();
    let second = login(&store, &cfg, Some(first), user_id, "123456", "", 1030).unwrap();
    assert_eq!(second.user_id, first.user_id);
    assert_eq!(second.expires_at, 1030 + cfg.session_ttl);
}

#[test]
fn session_ttl_expiry_and_renewal() {
    let user = EntityId { hi: 0, lo: 5 };
    let issued: u64 = 1000;
    let ttl: u64 = 60;
    let session = begin_or_renew(&None, user, issued, ttl);
    assert_eq!(session.user_id, user);
    assert_eq!(session.expires_at, issued + ttl);

    // Present strictly before expiry.
    assert_eq!(current_identity(&Some(session), issued + ttl - 1), Some(user));
    // Absent from the expiry instant on.
    assert_eq!(current_identity(&Some(session), issued + ttl), None);
    assert_eq!(current_identity(&Some(session), issued + ttl + 1), None);
    assert_eq!(current_identity(&None, issued), None);

    // An access before expiry resets the expiry to access time + TTL, and
    // keeps the bound user even if another id is offered.
    let other = EntityId { hi: 0, lo: 9 };
    let renewed = begin_or_renew(&Some(session), other, issued + 30, ttl);
    assert_eq!(renewed.user_id, user);
    assert_eq!(renewed.expires_at, issued + 30 + ttl);

    // Once expired, a new session is minted for the verified user.
    let fresh = begin_or_renew(&Some(session), other, issued + ttl, ttl);
    assert_eq!(fresh.user_id, other);
    assert_eq!(
        fresh,
        Session {
            user_id: other,
            expires_at: issued + 2 * ttl
        }
    );
}

#[test]
fn provisioning_conflicts_on_taken_username() {
    let cfg = config();
    let (mut store, _) = provisioned_store(&cfg);
    let second = provision_user(
        &mut store,
        &cfg,
        "Alice Too".to_string(),
        "alice".to_string(),
        "999999",
        UserRoleType::User,
        1,
    );
    assert_eq!(second, Err(ApiError::Conflict));
    assert_eq!(store.users.len(), 1);
}

#[test]
fn stored_badge_token_unseals_to_the_record() {
    let cfg = config();
    let (store, user_id) = provisioned_store(&cfg);
    let payload = serialize_physical_token(&cfg.key, &store.users[0].physical_id_qr_token)
        .expect("stored badge must unseal");
    assert_eq!(payload.user_id, user_id);
    assert_eq!(payload.username, b"alice".to_vec());
    assert_eq!(
        payload.pass_hash,
        store.users[0].pass_hash.as_bytes().to_vec()
    );
}

#[test]
fn qr_route_returns_stored_token() {
    let cfg = config();
    let (store, _) = provisioned_store(&cfg);
    let token = store
        .ret_user_id_qr("000000000000000000000000")
        .expect("first minted id");
    assert_eq!(token, store.users[0].physical_id_qr_token);
    assert_eq!(store.ret_user_id_qr("bogus"), Err(ApiError::BadRequest));
    assert_eq!(
        store.ret_user_id_qr("0000000000000000000000ff"),
        Err(ApiError::NotFound)
    );
}

#[test]
fn seeding_runs_once() {
    let cfg = config();
    let mut store = Store::new();
    seed_db(&mut store, &cfg, "root".to_string(), "123456", None, 1).unwrap();
    assert_eq!(store.users.len(), 1);
    assert_eq!(store.locations.len(), 1);
    assert_eq!(store.items.len(), 1);
    assert_eq!(store.users[0].username, "root");
    assert_eq!(store.users[0].full_name, "Joe Bloggs");
    assert_eq!(store.locations[0].location_identifier, "RM14");
    assert_eq!(store.items[0].name, "Example Item 1");
    assert_eq!(store.items[0].borrower_ids, vec![store.users[0].id]);
    assert_eq!(store.items[0].location_id, store.locations[0].id);

    // A second run touches nothing.
    let items_before = store.items.len();
    seed_db(&mut store, &cfg, "other".to_string(), "999999", None, 1).unwrap();
    assert_eq!(store.users.len(), 1);
    assert_eq!(store.items.len(), items_before);
    assert_eq!(store.users[0].username, "root");
}
