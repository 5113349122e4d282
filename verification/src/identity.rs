//! Identity resolution: from an inbound bearer token to a resolved
//! identity with its effective permission set, or to no identity. When
//! the token does not resolve, a configurable fallback account may stand
//! in; the fallback is disabled unless a deployment turns it on.

use vstd::prelude::*;

use crate::error::Error;
use crate::ids::{uuid_of, uuid_parse, uuid_text};
use crate::model::{strictly_sorted, strs_view, User, UserView};
use crate::perms::{effective_permissions, get_user_permissions};
use crate::store::{email_exists, user_by_email, user_by_id, user_exists, Store, StoreView};
use crate::token::{token_verdict, verify_token_at};

verus! {

#[verifier::ext_equal]
pub ghost struct CurrentUserView {
    pub id: u128,
    pub email: Seq<char>,
    pub first_name: Seq<char>,
    pub last_name: Seq<char>,
    pub is_active: bool,
    pub is_locked: bool,
    pub permissions: Seq<Seq<char>>,
    pub has_team_read: bool,
    pub has_team_write: bool,
    pub has_team_delete: bool,
    pub has_manage_roles: bool,
}

/// The resolved identity a request acts as: the user, its effective
/// permissions, and convenience flags for the common team checks.
#[derive(Clone)]
pub struct CurrentUser {
    pub id: u128,
    pub email: String,
    pub first_name: String,
    pub last_name: String,
    pub is_active: bool,
    pub is_locked: bool,
    pub permissions: Vec<String>,
    pub has_team_read: bool,
    pub has_team_write: bool,
    pub has_team_delete: bool,
    pub has_manage_roles: bool,
}

impl View for CurrentUser {
    type V = CurrentUserView;

    open spec fn view(&self) -> CurrentUserView {
        CurrentUserView {
            id: self.id,
            email: self.email@,
            first_name: self.first_name@,
            last_name: self.last_name@,
            is_active: self.is_active,
            is_locked: self.is_locked,
            permissions: strs_view(self.permissions@),
            has_team_read: self.has_team_read,
            has_team_write: self.has_team_write,
            has_team_delete: self.has_team_delete,
            has_manage_roles: self.has_manage_roles,
        }
    }
}

/// The convenience flags agree with the permission list.
pub open spec fn wf_current_user(u: CurrentUserView) -> bool {
    &&& u.has_team_read == u.permissions.contains("team:read"@)
    &&& u.has_team_write == u.permissions.contains("team:write"@)
    &&& u.has_team_delete == u.permissions.contains("team:delete"@)
    &&& u.has_manage_roles == u.permissions.contains("team:manage_roles"@)
}

/// Whether the fallback identity may stand in, and for which account.
/// Resolved once at startup and passed in; disabled by default.
pub struct FallbackConfig {
    pub enabled: bool,
    pub email: String,
}

/// `cu` faithfully resolves user `u` against store `s`: same account
/// fields, and exactly the user's effective permissions, sorted and
/// deduplicated, with the convenience flags agreeing.
pub open spec fn resolved_for(s: StoreView, u: UserView, cu: CurrentUserView) -> bool {
    &&& cu.id == u.id
    &&& cu.email == u.email
    &&& cu.first_name == u.first_name
    &&& cu.last_name == u.last_name
    &&& cu.is_active == u.is_active
    &&& cu.is_locked == u.is_locked
    &&& strictly_sorted(cu.permissions)
    &&& forall|p: Seq<char>|
        cu.permissions.contains(p) <==> effective_permissions(s, u.id).contains(p)
    &&& wf_current_user(cu)
}

/// The user may be resolved: present, active and unlocked.
pub open spec fn resolvable_user(s: StoreView, id: u128) -> bool {
    user_exists(s, id) && user_by_id(s, id).is_active && !user_by_id(s, id).is_locked
}

/// The fallback account may stand in: the fallback is enabled and its
/// account exists, active and unlocked.
pub open spec fn fallback_available(s: StoreView, enabled: bool, email: Seq<char>) -> bool {
    enabled && email_exists(s, email) && user_by_email(s, email).is_active && !user_by_email(
        s,
        email,
    ).is_locked
}

/// `r` is what fallback resolution yields: the fallback account when it
/// may stand in, nothing otherwise.
pub open spec fn fallback_outcome(
    s: StoreView,
    enabled: bool,
    email: Seq<char>,
    r: Option<CurrentUserView>,
) -> bool {
    match r {
        Some(u) => fallback_available(s, enabled, email) && resolved_for(
            s,
            user_by_email(s, email),
            u,
        ),
        None => !fallback_available(s, enabled, email),
    }
}

pub open spec fn opt_identity_view(r: Option<CurrentUser>) -> Option<CurrentUserView> {
    match r {
        Some(u) => Some(u@),
        None => None,
    }
}

/// Does the list carry the key?
pub fn has_permission(perms: &Vec<String>, key: &str) -> (r: bool)
    ensures
        r == strs_view(perms@).contains(key@),
{
    let n = perms.len();
    let mut i: usize = 0;
    while i < n
        invariant
            i <= n,
            n == perms.len(),
            forall|k: int| 0 <= k < i ==> strs_view(perms@)[k] != key@,
        decreases n - i,
    {
        if crate::order::str_eq(perms[i].as_str(), key) {
            assert(strs_view(perms@)[i as int] == key@);
            return true;
        }
        i = i + 1;
    }
    false
}

impl CurrentUser {
    /// Builds the resolved identity from an account and its effective
    /// permission list, deriving the convenience flags from the list.
    pub fn from_user_and_permissions(user: User, permissions: Vec<String>) -> (r: CurrentUser)
        ensures
            r@ == (CurrentUserView {
                id: user@.id,
                email: user@.email,
                first_name: user@.first_name,
                last_name: user@.last_name,
                is_active: user@.is_active,
                is_locked: user@.is_locked,
                permissions: strs_view(permissions@),
                has_team_read: strs_view(permissions@).contains("team:read"@),
                has_team_write: strs_view(permissions@).contains("team:write"@),
                has_team_delete: strs_view(permissions@).contains("team:delete"@),
                has_manage_roles: strs_view(permissions@).contains("team:manage_roles"@),
            }),
            wf_current_user(r@),
    {
        let has_team_read = has_permission(&permissions, "team:read");
        let has_team_write = has_permission(&permissions, "team:write");
        let has_team_delete = has_permission(&permissions, "team:delete");
        let has_manage_roles = has_permission(&permissions, "team:manage_roles");
        CurrentUser {
            id: user.id,
            email: user.email,
            first_name: user.first_name,
            last_name: user.last_name,
            is_active: user.is_active,
            is_locked: user.is_locked,
            permissions: permissions,
            has_team_read: has_team_read,
            has_team_write: has_team_write,
            has_team_delete: has_team_delete,
            has_manage_roles: has_manage_roles,
        }
    }
}

/// Resolves a user id to an identity, requiring the account to be active
/// and unlocked, and computing its effective permissions.
pub fn resolve_user_id(store: &Store, user_id: u128) -> (r: Option<CurrentUser>)
    requires
        store.wf(),
    ensures
        match r {
            Some(u) => resolvable_user(store@, user_id) && resolved_for(
                store@,
                user_by_id(store@, user_id),
                u@,
            ),
            None => !resolvable_user(store@, user_id),
        },
{
    match store.find_user_by_id(user_id) {
        Some(user) => {
            if user.is_active && !user.is_locked {
                let u = user.duplicate();
                let perms = get_user_permissions(store, user_id);
                proof {
                    assert(u@ == user_by_id(store@, user_id));
                }
                Some(CurrentUser::from_user_and_permissions(u, perms))
            } else {
                None
            }
        },
        None => None,
    }
}

/// Fallback resolution: the designated fallback account stands in when
/// the fallback is enabled and that account is active and unlocked.
pub fn fallback_identity(store: &Store, fallback: &FallbackConfig) -> (r: Option<CurrentUser>)
    requires
        store.wf(),
    ensures
        fallback_outcome(store@, fallback.enabled, fallback.email@, opt_identity_view(r)),
{
    if !fallback.enabled {
        return None;
    }
    match store.find_user_by_email(fallback.email.as_str()) {
        Some(user) => {
            if user.is_active && !user.is_locked {
                let u = user.duplicate();
                let uid = u.id;
                let perms = get_user_permissions(store, uid);
                proof {
                    assert(u@ == user_by_email(store@, fallback.email@));
                }
                Some(CurrentUser::from_user_and_permissions(u, perms))
            } else {
                None
            }
        },
        None => None,
    }
}

/// Resolves an inbound credential to an identity. No token means no
/// identity; a token that fails verification, carries an unparseable
/// subject, or names an account that cannot be resolved falls back to
/// the fallback account, when one is configured.
pub fn get_current_user(
    store: &Store,
    token: Option<&str>,
    secret: &[u8],
    fallback: &FallbackConfig,
    now: i64,
) -> (r: Option<CurrentUser>)
    requires
        store.wf(),
    ensures
        token is None ==> r is None,
        (token matches Some(t) && token_verdict(t@, secret@, now) is None) ==> fallback_outcome(
            store@,
            fallback.enabled,
            fallback.email@,
            opt_identity_view(r),
        ),
        (token matches Some(t) && token_verdict(t@, secret@, now) matches Some(c) && uuid_of(
            c.sub,
        ) is None) ==> fallback_outcome(
            store@,
            fallback.enabled,
            fallback.email@,
            opt_identity_view(r),
        ),
        forall|uid: u128|
            #![trigger resolvable_user(store@, uid)]
            (token matches Some(t) && token_verdict(t@, secret@, now) matches Some(c) && uuid_of(
                c.sub,
            ) == Some(uid) && resolvable_user(store@, uid)) ==> (r matches Some(u)
                && resolved_for(store@, user_by_id(store@, uid), u@)),
        forall|uid: u128|
            #![trigger resolvable_user(store@, uid)]
            (token matches Some(t) && token_verdict(t@, secret@, now) matches Some(c) && uuid_of(
                c.sub,
            ) == Some(uid) && !resolvable_user(store@, uid)) ==> fallback_outcome(
                store@,
                fallback.enabled,
                fallback.email@,
                opt_identity_view(r),
            ),
        forall|uid: u128|
            (token matches Some(t) && token_verdict(t@, secret@, now) matches Some(c) && c.sub
                == #[trigger] uuid_text(uid) && resolvable_user(store@, uid)) ==> (
            r matches Some(u) && resolved_for(store@, user_by_id(store@, uid), u@)),
        forall|uid: u128|
            (token matches Some(t) && token_verdict(t@, secret@, now) matches Some(c) && c.sub
                == #[trigger] uuid_text(uid) && !resolvable_user(store@, uid)) ==> fallback_outcome(
                store@,
                fallback.enabled,
                fallback.email@,
                opt_identity_view(r),
            ),
        r matches Some(u) ==> exists|i: int|
            0 <= i < store@.users.len() && resolved_for(store@, #[trigger] store@.users[i], u@)
                && store@.users[i].is_active && !store@.users[i].is_locked,
{
    let t = match token {
        Some(t) => t,
        None => {
            return None;
        },
    };
    let claims = match verify_token_at(t, secret, now) {
        Ok(c) => c,
        Err(_) => {
            let fb = fallback_identity(store, fallback);
            proof {
                fallback_some_is_user(store@, fallback.enabled, fallback.email@, opt_identity_view(fb));
            }
            return fb;
        },
    };
    let user_id = match uuid_parse(claims.sub.as_str()) {
        Some(id) => id,
        None => {
            let fb = fallback_identity(store, fallback);
            proof {
                fallback_some_is_user(store@, fallback.enabled, fallback.email@, opt_identity_view(fb));
            }
            return fb;
        },
    };
    match resolve_user_id(store, user_id) {
        Some(u) => {
            proof {
                let w = choose|i: int|
                    0 <= i < store@.users.len() && store@.users[i].id == user_id;
                assert(store@.users[w].id == user_id);
                assert(resolved_for(store@, store@.users[w], u@));
            }
            Some(u)
        },
        None => {
            let fb = fallback_identity(store, fallback);
            proof {
                fallback_some_is_user(store@, fallback.enabled, fallback.email@, opt_identity_view(fb));
            }
            fb
        },
    }
}

/// A fallback resolution that yields an identity yields one of the
/// store's active, unlocked accounts.
proof fn fallback_some_is_user(
    s: StoreView,
    enabled: bool,
    email: Seq<char>,
    r: Option<CurrentUserView>,
)
    requires
        fallback_outcome(s, enabled, email, r),
    ensures
        r matches Some(u) ==> exists|i: int|
            0 <= i < s.users.len() && resolved_for(s, #[trigger] s.users[i], u) && s.users[i]
                .is_active && !s.users[i].is_locked,
{
    match r {
        Some(u) => {
            let w = choose|i: int| 0 <= i < s.users.len() && s.users[i].email == email;
            assert(resolved_for(s, s.users[w], u));
        },
        None => {},
    }
}

} // verus!
