//! Credential cross-check, login and provisioning.
//!
//! Login reconciles three sources: the user record fetched by the claimed
//! id, the payload unsealed from that record's own stored token (never the
//! client-submitted one), and the one-way check of the submitted passcode
//! against the record's stored hash. All three must agree before a session
//! is issued. The double passcode binding — the payload's embedded hash must
//! equal the record's stored hash — means a badge stops working once the
//! passcode is rotated server-side without reissuing the badge.

use vstd::prelude::*;
use vstd::string::StrSliceExecFns;
use vstd::utf8::encode_utf8;
use crate::ApiError;
use crate::id::EntityId;
use crate::model::{ItemStatus, LocationStatus, LocationType, User, UserRoleType};
use crate::passcode::{bcrypt_verified, hash_passcode, passcode_matches};
use crate::session::{begin_or_renew, begin_or_renew_spec, Session};
use crate::store::{CreateItemRequest, CreateLocationRequest, Store};
use crate::token::{seal, serialize_physical_token, unseal_spec, PayloadView, UserRawPhysicalToken};

verus! {

/// Immutable service-wide configuration, constructed once at start-up: the
/// 32-byte sealing key, the session time-to-live in seconds, and the cost of
/// the passcode hash.
pub struct AuthConfig {
    pub key: Vec<u8>,
    pub session_ttl: u64,
    pub hash_cost: u32,
}

impl AuthConfig {
    /// The sealing key must be exactly 32 bytes and the hash cost within the
    /// range the one-way function accepts.
    pub open spec fn wf(self) -> bool {
        self.key@.len() == 32 && 4 <= self.hash_cost <= 31
    }
}

/// Whether two byte strings are equal.
fn bytes_eq(a: &[u8], b: &Vec<u8>) -> (r: bool)
    ensures
        r == (a@ == b@),
{
    if a.len() != b.len() {
        return false;
    }
    let n = a.len();
    let mut k: usize = 0;
    while k < n
        invariant
            n == a@.len() == b@.len(),
            0 <= k <= n,
            forall|j: int| 0 <= j < k ==> a@[j] == b@[j],
        decreases n - k,
    {
        if a[k] != b[k] {
            return false;
        }
        k += 1;
    }
    proof {
        assert(a@ =~= b@);
    }
    true
}

/// What reconciliation decides: accept only a passcode match together with a
/// payload whose embedded hash equals the record's stored hash and whose
/// username equals the record's username.
pub open spec fn reconcile_spec(user: User, payload: PayloadView, passcode_ok: bool) -> Result<
    EntityId,
    ApiError,
> {
    if passcode_ok && payload.pass_hash == encode_utf8(user.pass_hash@) && payload.username
        == encode_utf8(user.username@) {
        Ok(payload.user_id)
    } else {
        Err(ApiError::Unauthorized)
    }
}

/// Reconciles the unsealed payload, the passcode verdict and the stored user
/// record; any mismatch rejects as `Unauthorized`.
pub fn reconcile(user: &User, payload: &UserRawPhysicalToken, passcode_ok: bool) -> (r: Result<
    EntityId,
    ApiError,
>)
    ensures
        r == reconcile_spec(*user, payload@, passcode_ok),
{
    if !passcode_ok {
        return Err(ApiError::Unauthorized);
    }
    if !bytes_eq(user.pass_hash.as_str().as_bytes(), &payload.pass_hash) {
        return Err(ApiError::Unauthorized);
    }
    if !bytes_eq(user.username.as_str().as_bytes(), &payload.username) {
        return Err(ApiError::Unauthorized);
    }
    Ok(payload.user_id)
}

/// The verdict of the whole credential cross-check, a single pass with no
/// retries: user lookup, token decode from the record's stored token,
/// passcode check against the record's stored hash, then field
/// reconciliation.
pub open spec fn login_outcome(
    store: Store,
    key: Seq<u8>,
    claimed_id: EntityId,
    pass: Seq<char>,
) -> Result<EntityId, ApiError> {
    if !store.has_user(claimed_id) {
        Err(ApiError::NotFound)
    } else {
        let u = store.user_with_id(claimed_id);
        match unseal_spec(key, u.physical_id_qr_token@) {
            None => Err(ApiError::Unauthorized),
            Some(p) => match bcrypt_verified(pass, u.pass_hash@) {
                None => Err(ApiError::InternalError),
                Some(ok) => reconcile_spec(u, p, ok),
            },
        }
    }
}

proof fn lemma_user_lookup_unique(s: Store, id: EntityId, i: int)
    requires
        s.wf(),
        0 <= i < s.users@.len(),
        s.users@[i].id == id,
    ensures
        s.has_user(id),
        s.user_index_of(id) == i,
        s.user_with_id(id) == s.users@[i],
{
    assert(s.has_user(id));
    let j = s.user_index_of(id);
    assert(0 <= j < s.users@.len() && s.users@[j].id == id);
    if i < j {
        assert(s.users@[i].id != s.users@[j].id);
    } else if j < i {
        assert(s.users@[j].id != s.users@[i].id);
    }
}

/// Validates a login request and, on acceptance, issues or renews the
/// caller's session. The submitted token string is not consulted: the
/// server re-derives the authoritative payload from the user record's own
/// stored token, which is why the parameter goes unused.
pub fn login(
    store: &Store,
    cfg: &AuthConfig,
    session: Option<Session>,
    user_id: EntityId,
    pass: &str,
    _id_token: &str,
    now: u64,
) -> (r: Result<Session, ApiError>)
    requires
        store.wf(),
        cfg.wf(),
        now + cfg.session_ttl <= u64::MAX,
    ensures
        match r {
            Ok(sess) => login_outcome(*store, cfg.key@, user_id, pass@) matches Ok(uid)
                && sess == begin_or_renew_spec(session, uid, now, cfg.session_ttl),
            Err(e) => login_outcome(*store, cfg.key@, user_id, pass@) == Err::<
                EntityId,
                ApiError,
            >(e),
        },
{
    let i = match store.find_user(user_id) {
        None => {
            return Err(ApiError::NotFound);
        },
        Some(i) => i,
    };
    proof {
        lemma_user_lookup_unique(*store, user_id, i as int);
    }
    let user = &store.users[i];
    let payload = match serialize_physical_token(&cfg.key, user.physical_id_qr_token.as_str()) {
        Err(_) => {
            return Err(ApiError::Unauthorized);
        },
        Ok(p) => p,
    };
    let passcode_ok = match passcode_matches(pass, user.pass_hash.as_str()) {
        None => {
            return Err(ApiError::InternalError);
        },
        Some(ok) => ok,
    };
    match reconcile(user, &payload, passcode_ok) {
        Err(e) => Err(e),
        Ok(verified_user_id) => Ok(
            begin_or_renew(&session, verified_user_id, now, cfg.session_ttl),
        ),
    }
}

/// Cross-check rejection law: even with a correct passcode, a badge whose
/// embedded username no longer matches the stored user record is rejected
/// as `Unauthorized`.
pub proof fn lemma_cross_check_rejection(
    store: Store,
    key: Seq<u8>,
    claimed_id: EntityId,
    pass: Seq<char>,
)
    requires
        store.wf(),
        store.has_user(claimed_id),
        unseal_spec(key, store.user_with_id(claimed_id).physical_id_qr_token@) is Some,
        bcrypt_verified(pass, store.user_with_id(claimed_id).pass_hash@) == Some(true),
        unseal_spec(
            key,
            store.user_with_id(claimed_id).physical_id_qr_token@,
        ).unwrap().username != encode_utf8(store.user_with_id(claimed_id).username@),
    ensures
        login_outcome(store, key, claimed_id, pass) == Err::<EntityId, ApiError>(
            ApiError::Unauthorized,
        ),
{
}

/// Provisions a user: hashes the passcode, mints the sealed badge token
/// embedding the fresh id, the username and the hash, and inserts the user
/// record. `Conflict` exactly when the username is already taken; a name or
/// hash whose byte encoding cannot fit the token's length prefixes is
/// rejected as `BadRequest`.
pub fn provision_user(
    store: &mut Store,
    cfg: &AuthConfig,
    full_name: String,
    username: String,
    passcode: &str,
    role: UserRoleType,
    timestamp: u32,
) -> (r: Result<EntityId, ApiError>)
    requires
        old(store).wf(),
        cfg.wf(),
        old(store).next_id < u64::MAX,
    ensures
        final(store).wf(),
        final(store).items@ == old(store).items@,
        final(store).locations@ == old(store).locations@,
        match r {
            Ok(new_id) => {
                &&& !old(store).username_taken_spec(username@)
                &&& new_id == (EntityId { hi: 0, lo: old(store).next_id })
                &&& final(store).next_id == old(store).next_id + 1
                &&& final(store).users@.len() == old(store).users@.len() + 1
                &&& final(store).users@.subrange(0, old(store).users@.len() as int) == old(
                    store,
                ).users@
                &&& ({
                    let u = final(store).users@.last();
                    &&& u.id == new_id
                    &&& u.full_name == full_name
                    &&& u.username == username
                    &&& u.role == role
                    &&& bcrypt_verified(passcode@, u.pass_hash@) == Some(true)
                    &&& unseal_spec(cfg.key@, u.physical_id_qr_token@) == Some(
                        PayloadView {
                            user_id: new_id,
                            username: encode_utf8(username@),
                            pass_hash: encode_utf8(u.pass_hash@),
                        },
                    )
                })
            },
            Err(e) => {
                &&& *final(store) == *old(store)
                &&& (e == ApiError::Conflict <==> old(store).username_taken_spec(username@))
                &&& (e == ApiError::Conflict || e == ApiError::BadRequest || e
                    == ApiError::InternalError)
            },
        },
{
    if store.username_taken(username.as_str()) {
        return Err(ApiError::Conflict);
    }
    let pass_hash = match hash_passcode(passcode, cfg.hash_cost) {
        None => {
            return Err(ApiError::InternalError);
        },
        Some(h) => h,
    };
    let username_bytes = username.as_str().as_bytes_vec();
    let hash_bytes = pass_hash.as_str().as_bytes_vec();
    if (username_bytes.len() as u64) >= 0x1_0000_0000u64 || (hash_bytes.len() as u64)
        >= 0x1_0000_0000u64 {
        return Err(ApiError::BadRequest);
    }
    let new_id = EntityId { hi: 0, lo: store.next_id };
    let payload = UserRawPhysicalToken {
        user_id: new_id,
        username: username_bytes,
        pass_hash: hash_bytes,
    };
    let token = match seal(&cfg.key, &payload, timestamp) {
        Err(e) => {
            return Err(e);
        },
        Ok(t) => t,
    };
    let inserted_id = store.add_user(full_name, username, pass_hash, token, role);
    Ok(inserted_id)
}

/// Seeds an empty store, in order: the first (root) admin user, the first
/// location, the first item (held once by that admin). A store with any
/// existing data is left untouched.
pub fn seed_db(
    store: &mut Store,
    cfg: &AuthConfig,
    username: String,
    passcode: &str,
    image_uri: Option<String>,
    timestamp: u32,
) -> (r: Result<(), ApiError>)
    requires
        old(store).wf(),
        cfg.wf(),
        old(store).next_id + 3 <= u64::MAX,
    ensures
        final(store).wf(),
        match r {
            Ok(()) => if old(store).users@.len() == 0 && old(store).items@.len() == 0 && old(
                store,
            ).locations@.len() == 0 {
                &&& final(store).users@.len() == 1
                &&& final(store).locations@.len() == 1
                &&& final(store).items@.len() == 1
                &&& ({
                    let u = final(store).users@[0];
                    let lc = final(store).locations@[0];
                    let it = final(store).items@[0];
                    &&& u.username == username
                    &&& u.full_name@ == "Joe Bloggs"@
                    &&& u.role == UserRoleType::Admin
                    &&& bcrypt_verified(passcode@, u.pass_hash@) == Some(true)
                    &&& unseal_spec(cfg.key@, u.physical_id_qr_token@) == Some(
                        PayloadView {
                            user_id: u.id,
                            username: encode_utf8(username@),
                            pass_hash: encode_utf8(u.pass_hash@),
                        },
                    )
                    &&& lc.location_identifier@ == "RM14"@
                    &&& lc.location_type == LocationType::Room
                    &&& lc.rbac_min_level == UserRoleType::User
                    &&& lc.max_capacity is None
                    &&& lc.location_status == LocationStatus::Available
                    &&& it.name@ == "Example Item 1"@
                    &&& it.status == ItemStatus::Available
                    &&& it.quantity == 0
                    &&& it.image_uri == image_uri
                    &&& it.location_id == lc.id
                    &&& it.borrower_ids@ == seq![u.id]
                })
            } else {
                *final(store) == *old(store)
            },
            Err(e) => {
                &&& *final(store) == *old(store)
                &&& (e == ApiError::BadRequest || e == ApiError::InternalError)
            },
        },
{
    if !(store.users.len() == 0 && store.items.len() == 0 && store.locations.len() == 0) {
        return Ok(());
    }
    let full_name = "Joe Bloggs".to_owned();
    let admin_id = match provision_user(
        store,
        cfg,
        full_name,
        username,
        passcode,
        UserRoleType::Admin,
        timestamp,
    ) {
        Err(e) => {
            return Err(e);
        },
        Ok(id) => id,
    };
    let location_req = CreateLocationRequest {
        location_identifier: "RM14".to_owned(),
        rbac_min_level: UserRoleType::User,
        location_type: LocationType::Room,
        max_capacity: None,
        location_status: LocationStatus::Available,
    };
    let location_id = match store.create_location(location_req) {
        Err(_) => {
            proof {
                assert(false);
            }
            return Err(ApiError::InternalError);
        },
        Ok(id) => id,
    };
    let item_req = CreateItemRequest {
        name: "Example Item 1".to_owned(),
        status: Some(ItemStatus::Available),
        quantity: 0,
        image_uri,
        location_id,
    };
    let item_id = match store.create_item(item_req) {
        Err(_) => {
            proof {
                assert(false);
            }
            return Err(ApiError::InternalError);
        },
        Ok(id) => id,
    };
    match store.add_borrower(item_id, admin_id) {
        Err(_) => {
            proof {
                assert(false);
            }
            Err(ApiError::InternalError)
        },
        Ok(()) => {
            proof {
                assert(store.items@[0].borrower_ids@ =~= seq![store.users@[0].id]);
            }
            Ok(())
        },
    }
}

} // verus!
