use allo_core::{
    authorize, authorize_user_action, lock_user, CurrentUser, Error, Store, User,
};

fn identity_with(id: u128, perms: &[&str]) -> CurrentUser {
    let user = User {
        id,
        email: format!("user{}@example.com", id),
        password_hash: String::new(),
        first_name: String::from("Gate"),
        last_name: String::from("Tester"),
        is_active: true,
        is_locked: false,
        last_login: None,
        locked_at: None,
        locked_by: None,
        created_at: 0,
        updated_at: 0,
    };
    CurrentUser::from_user_and_permissions(user, perms.iter().map(|p| p.to_string()).collect())
}

#[test]
fn no_identity_is_unauthenticated() {
    assert_eq!(authorize(None, "team:read").unwrap_err(), Error::Unauthenticated);
    assert_eq!(
        authorize_user_action(None, "team:write", 5).unwrap_err(),
        Error::Unauthenticated
    );
}

#[test]
fn missing_key_is_forbidden_held_key_passes() {
    let reader = identity_with(1, &["team:read"]);
    assert_eq!(authorize(Some(&reader), "team:write").unwrap_err(), Error::Forbidden);
    assert!(authorize(Some(&reader), "team:read").is_ok());
}

#[test]
fn keys_compare_exactly() {
    let reader = identity_with(1, &["team:read"]);
    assert_eq!(authorize(Some(&reader), "Team:Read").unwrap_err(), Error::Forbidden);
    assert_eq!(authorize(Some(&reader), "team:rea").unwrap_err(), Error::Forbidden);
    assert_eq!(authorize(Some(&reader), "team:read ").unwrap_err(), Error::Forbidden);
}

#[test]
fn self_action_is_an_invalid_request_despite_permission() {
    let writer = identity_with(7, &["team:write"]);
    assert_eq!(
        authorize_user_action(Some(&writer), "team:write", 7).unwrap_err(),
        Error::InvalidRequest
    );
    assert!(authorize_user_action(Some(&writer), "team:write", 8).is_ok());
}

#[test]
fn convenience_flags_follow_the_permission_list() {
    let u = identity_with(1, &["team:read", "team:manage_roles"]);
    assert!(u.has_team_read);
    assert!(!u.has_team_write);
    assert!(!u.has_team_delete);
    assert!(u.has_manage_roles);
}

#[test]
fn self_lock_is_refused_before_any_effect() {
    let mut store = Store::new();
    let writer = identity_with(7, &["team:write"]);
    assert_eq!(
        lock_user(&mut store, Some(&writer), 7, 10).unwrap_err(),
        Error::InvalidRequest
    );
    assert_eq!(store.audit.len(), 0);
}

#[test]
fn error_labels_name_each_kind() {
    assert_eq!(Error::Unauthenticated.label(), "unauthenticated");
    assert_eq!(Error::Forbidden.label(), "forbidden");
    assert_eq!(Error::Conflict.label(), "conflict");
    assert_eq!(Error::InvalidRequest.label(), "invalid_request");
    assert_eq!(Error::NotFound.label(), "not_found");
    assert_eq!(Error::StoreUnavailable.label(), "store_unavailable");
}
