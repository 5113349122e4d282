use allo_core::{
    create_role, create_token_at, create_user, get_current_user, hash_password, login, register,
    uuid_parse, uuid_to_string, verify_password, CurrentUser, Error, FallbackConfig, LoginForm,
    RegisterForm, RoleForm, Store, User, UserForm,
};

const SECRET: &[u8] = b"identity-test-secret";

fn admin_identity(id: u128, perms: &[&str]) -> CurrentUser {
    let user = User {
        id,
        email: format!("admin{}@example.com", id),
        password_hash: String::new(),
        first_name: String::from("Ada"),
        last_name: String::from("Admin"),
        is_active: true,
        is_locked: false,
        last_login: None,
        locked_at: None,
        locked_by: None,
        created_at: 0,
        updated_at: 0,
    };
    CurrentUser::from_user_and_permissions(user, perms.iter().map(|p| p.to_string()).collect())
}

fn no_fallback() -> FallbackConfig {
    FallbackConfig { enabled: false, email: String::new() }
}

fn seeded_store() -> (Store, u128) {
    let mut store = Store::new();
    let admin = admin_identity(0, &["team:write", "team:manage_roles"]);
    let rid = create_role(
        &mut store,
        Some(&admin),
        &RoleForm {
            name: String::from("Reader"),
            description: String::from("sees the team"),
            permissions: vec![String::from("team:read")],
            is_active: Some(String::from("on")),
        },
        1,
    )
    .unwrap();
    let uid = create_user(
        &mut store,
        Some(&admin),
        &UserForm {
            email: String::from("pat@example.com"),
            password: Some(String::from("longenough")),
            first_name: String::from("Pat"),
            last_name: String::from("Member"),
            role_ids: vec![uuid_to_string(rid)],
            is_active: Some(String::from("on")),
        },
        2,
    )
    .unwrap();
    (store, uid)
}

#[test]
fn password_hash_round_trip() {
    let hash = hash_password("correct horse").unwrap();
    assert_ne!(hash, "correct horse");
    assert!(verify_password("correct horse", &hash));
    assert!(!verify_password("wrong horse", &hash));
    assert!(!verify_password("correct horse", "not-a-bcrypt-hash"));
}

#[test]
fn uuid_text_round_trip() {
    assert_eq!(uuid_to_string(1), "00000000-0000-0000-0000-000000000001");
    assert_eq!(uuid_parse("00000000-0000-0000-0000-000000000001"), Some(1));
    assert_eq!(uuid_parse("not-a-uuid"), None);
    let big = 0x0123_4567_89ab_cdef_0123_4567_89ab_cdefu128;
    assert_eq!(uuid_parse(&uuid_to_string(big)), Some(big));
}

#[test]
fn a_valid_token_resolves_its_user() {
    let (store, uid) = seeded_store();
    let t0 = 1_700_000_000;
    let token = create_token_at(uid, "pat@example.com", SECRET, t0).unwrap();
    let who = get_current_user(&store, Some(&token), SECRET, &no_fallback(), t0 + 10).unwrap();
    assert_eq!(who.id, uid);
    assert_eq!(who.email, "pat@example.com");
    assert_eq!(who.permissions, vec!["team:read"]);
    assert!(who.has_team_read);
    assert!(!who.has_team_write);
}

#[test]
fn no_token_means_no_identity() {
    let (store, _) = seeded_store();
    assert!(get_current_user(&store, None, SECRET, &no_fallback(), 0).is_none());
}

#[test]
fn expired_token_without_fallback_resolves_nobody() {
    let (store, uid) = seeded_store();
    let t0 = 1_700_000_000;
    let token = create_token_at(uid, "pat@example.com", SECRET, t0).unwrap();
    // one minute before expiry it still works, one past it does not
    assert!(get_current_user(&store, Some(&token), SECRET, &no_fallback(), t0 + 86_340).is_some());
    assert!(get_current_user(&store, Some(&token), SECRET, &no_fallback(), t0 + 86_460).is_none());
}

#[test]
fn expired_token_with_fallback_resolves_the_fallback_account() {
    let (store, uid) = seeded_store();
    let t0 = 1_700_000_000;
    let token = create_token_at(uid, "pat@example.com", SECRET, t0).unwrap();
    let fallback = FallbackConfig { enabled: true, email: String::from("pat@example.com") };
    let who = get_current_user(&store, Some(&token), SECRET, &fallback, t0 + 86_460).unwrap();
    assert_eq!(who.email, "pat@example.com");
    // an unknown fallback account resolves nobody
    let ghost_fallback = FallbackConfig { enabled: true, email: String::from("ghost@example.com") };
    assert!(get_current_user(&store, Some(&token), SECRET, &ghost_fallback, t0 + 86_460).is_none());
}

#[test]
fn garbage_token_takes_the_fallback_path() {
    let (store, _) = seeded_store();
    let fallback = FallbackConfig { enabled: true, email: String::from("pat@example.com") };
    let who = get_current_user(&store, Some("garbage"), SECRET, &fallback, 0).unwrap();
    assert_eq!(who.email, "pat@example.com");
    assert!(get_current_user(&store, Some("garbage"), SECRET, &no_fallback(), 0).is_none());
}

#[test]
fn login_issues_a_working_token_and_tracks_the_session() {
    let mut store = Store::new();
    register(
        &mut store,
        &RegisterForm {
            email: String::from("kim@example.com"),
            password: String::from("open sesame"),
            first_name: String::from("Kim"),
            last_name: String::from("Lee"),
        },
        50,
    )
    .unwrap();
    let t0 = 1_700_000_000;
    let token = login(
        &mut store,
        &LoginForm { email: String::from("kim@example.com"), password: String::from("open sesame") },
        SECRET,
        t0,
    )
    .unwrap();
    assert_eq!(store.sessions.len(), 1);
    assert_eq!(store.sessions[0].expires_at, t0 + 86_400);
    let kim = store.find_user_by_email("kim@example.com").unwrap();
    assert_eq!(kim.last_login, Some(t0));

    let who = get_current_user(&store, Some(&token), SECRET, &no_fallback(), t0 + 1).unwrap();
    assert_eq!(who.email, "kim@example.com");
}

#[test]
fn login_rejects_bad_credentials_as_one_kind() {
    let mut store = Store::new();
    register(
        &mut store,
        &RegisterForm {
            email: String::from("kim@example.com"),
            password: String::from("open sesame"),
            first_name: String::from("Kim"),
            last_name: String::from("Lee"),
        },
        50,
    )
    .unwrap();
    let wrong_pw = LoginForm {
        email: String::from("kim@example.com"),
        password: String::from("shut sesame"),
    };
    assert_eq!(login(&mut store, &wrong_pw, SECRET, 60).unwrap_err(), Error::Unauthenticated);
    let wrong_email = LoginForm {
        email: String::from("nobody@example.com"),
        password: String::from("open sesame"),
    };
    assert_eq!(login(&mut store, &wrong_email, SECRET, 61).unwrap_err(), Error::Unauthenticated);
}
