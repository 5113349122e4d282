use allo_core::{
    authorize, create_role, create_user, delete_role, get_user_permissions, register,
    uuid_to_string, CurrentUser, Error, RegisterForm, RoleForm, Store, User, UserForm,
};

fn admin_identity(id: u128, perms: &[&str]) -> CurrentUser {
    let user = User {
        id,
        email: format!("admin{}@example.com", id),
        password_hash: String::new(),
        first_name: String::from("Ada"),
        last_name: String::from("Admin"),
        is_active: true,
        is_locked: false,
        last_login: None,
        locked_at: None,
        locked_by: None,
        created_at: 0,
        updated_at: 0,
    };
    let permissions = perms.iter().map(|p| p.to_string()).collect();
    CurrentUser::from_user_and_permissions(user, permissions)
}

fn role_form(name: &str, perms: &[&str], active: bool) -> RoleForm {
    RoleForm {
        name: name.to_string(),
        description: String::new(),
        permissions: perms.iter().map(|p| p.to_string()).collect(),
        is_active: if active { Some(String::from("on")) } else { None },
    }
}

fn user_form(email: &str, password: Option<&str>, role_ids: &[u128]) -> UserForm {
    UserForm {
        email: email.to_string(),
        password: password.map(|p| p.to_string()),
        first_name: String::from("Kim"),
        last_name: String::from("Lee"),
        role_ids: role_ids.iter().map(|r| uuid_to_string(*r)).collect(),
        is_active: Some(String::from("on")),
    }
}

#[test]
fn register_creates_an_active_account() {
    let mut store = Store::new();
    let form = RegisterForm {
        email: String::from("new@example.com"),
        password: String::from("hunter2boat"),
        first_name: String::from("New"),
        last_name: String::from("Person"),
    };
    let uid = register(&mut store, &form, 100).unwrap();
    let user = store.find_user_by_id(uid).unwrap();
    assert_eq!(user.email, "new@example.com");
    assert!(user.is_active);
    assert!(!user.is_locked);
    // a second registration under the same email is refused
    assert_eq!(register(&mut store, &form, 101).unwrap_err(), Error::InvalidRequest);
}

#[test]
fn assign_roles_replaces_rather_than_merges() {
    let mut store = Store::new();
    let admin = admin_identity(0, &["team:write", "team:manage_roles"]);
    let r1 = create_role(&mut store, Some(&admin), &role_form("One", &["a:read"], true), 1).unwrap();
    let r2 = create_role(&mut store, Some(&admin), &role_form("Two", &["b:read"], true), 2).unwrap();
    let r3 = create_role(&mut store, Some(&admin), &role_form("Three", &["c:read"], true), 3).unwrap();
    let uid = create_user(
        &mut store,
        Some(&admin),
        &user_form("kim@example.com", Some("longenough"), &[]),
        4,
    )
    .unwrap();

    store.assign_roles(uid, &vec![r1, r2], 0, 5);
    assert_eq!(get_user_permissions(&store, uid), vec!["a:read", "b:read"]);

    store.assign_roles(uid, &vec![r3], 0, 6);
    assert_eq!(get_user_permissions(&store, uid), vec!["c:read"]);
    assert_eq!(store.assignments.len(), 1);
    assert_eq!(store.assignments[0].role_id, r3);
}

#[test]
fn assign_roles_skips_unknown_ids() {
    let mut store = Store::new();
    let admin = admin_identity(0, &["team:write", "team:manage_roles"]);
    let r1 = create_role(&mut store, Some(&admin), &role_form("Only", &["a:read"], true), 1).unwrap();
    let uid = create_user(
        &mut store,
        Some(&admin),
        &user_form("kim@example.com", Some("longenough"), &[]),
        2,
    )
    .unwrap();
    store.assign_roles(uid, &vec![r1, 999_999, r1], 0, 3);
    assert_eq!(store.assignments.len(), 1);
    assert_eq!(store.assignments[0].role_id, r1);
}

#[test]
fn delete_role_conflicts_exactly_while_assigned() {
    let mut store = Store::new();
    let admin = admin_identity(0, &["team:write", "team:manage_roles"]);
    let rid = create_role(&mut store, Some(&admin), &role_form("Held", &["a:read"], true), 1).unwrap();
    let uid = create_user(
        &mut store,
        Some(&admin),
        &user_form("kim@example.com", Some("longenough"), &[rid]),
        2,
    )
    .unwrap();

    // referenced: refused with a conflict, role still there
    assert_eq!(delete_role(&mut store, Some(&admin), rid, 3).unwrap_err(), Error::Conflict);
    assert!(store.find_role_by_id(rid).is_some());

    // drop the reference, then deletion removes the row
    store.assign_roles(uid, &vec![], 0, 4);
    assert!(delete_role(&mut store, Some(&admin), rid, 5).is_ok());
    assert!(store.find_role_by_id(rid).is_none());

    // an absent role is not found, not a conflict
    assert_eq!(delete_role(&mut store, Some(&admin), rid, 6).unwrap_err(), Error::NotFound);
}

#[test]
fn inactive_roles_grant_nothing() {
    let mut store = Store::new();
    let admin = admin_identity(0, &["team:write", "team:manage_roles"]);
    let rid = create_role(
        &mut store,
        Some(&admin),
        &role_form("Dormant", &["x:read", "x:write"], false),
        1,
    )
    .unwrap();
    let uid = create_user(
        &mut store,
        Some(&admin),
        &user_form("kim@example.com", Some("longenough"), &[rid]),
        2,
    )
    .unwrap();
    assert_eq!(store.assignments.len(), 1);
    assert_eq!(get_user_permissions(&store, uid), Vec::<String>::new());
}

#[test]
fn effective_permissions_are_a_sorted_deduplicated_union() {
    let mut store = Store::new();
    let admin = admin_identity(0, &["team:write", "team:manage_roles"]);
    let r1 = create_role(
        &mut store,
        Some(&admin),
        &role_form("Zeta", &["c:read", "a:read", "b:read"], true),
        1,
    )
    .unwrap();
    let r2 = create_role(
        &mut store,
        Some(&admin),
        &role_form("Alpha", &["b:read", "d:read"], true),
        2,
    )
    .unwrap();
    let uid = create_user(
        &mut store,
        Some(&admin),
        &user_form("kim@example.com", Some("longenough"), &[r1, r2]),
        3,
    )
    .unwrap();
    assert_eq!(
        get_user_permissions(&store, uid),
        vec!["a:read", "b:read", "c:read", "d:read"]
    );
}

#[test]
fn sales_role_scenario() {
    // a role with customer permissions grants exactly those, and a
    // team-read gated operation stays forbidden
    let mut store = Store::new();
    let admin = admin_identity(0, &["team:write", "team:manage_roles"]);
    let rid = create_role(
        &mut store,
        Some(&admin),
        &role_form("Sales", &["customers:read", "customers:write"], true),
        1,
    )
    .unwrap();
    let uid = create_user(
        &mut store,
        Some(&admin),
        &user_form("sales@example.com", Some("longenough"), &[rid]),
        2,
    )
    .unwrap();
    let perms = get_user_permissions(&store, uid);
    assert_eq!(perms, vec!["customers:read", "customers:write"]);

    let seller = allo_core::resolve_user_id(&store, uid).unwrap();
    assert_eq!(
        authorize(Some(&seller), "team:read").unwrap_err(),
        Error::Forbidden
    );
    assert!(authorize(Some(&seller), "customers:read").is_ok());
}

#[test]
fn role_permissions_are_stored_deduplicated_and_sorted() {
    let mut store = Store::new();
    let admin = admin_identity(0, &["team:manage_roles"]);
    let rid = create_role(
        &mut store,
        Some(&admin),
        &role_form("Messy", &["b:x", "a:x", "b:x", "a:x"], true),
        1,
    )
    .unwrap();
    let role = store.find_role_by_id(rid).unwrap();
    assert_eq!(role.permissions, vec!["a:x", "b:x"]);
}
