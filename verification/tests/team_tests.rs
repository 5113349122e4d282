use allo_core::{
    contains, create_role, create_user, delete_user, get_all_permissions,
    get_user_permissions, get_user_permissions_from_roles, get_users_with_roles, lock_user,
    resolve_user_id, role_edit_form, roles_list, team_dashboard, unlock_user, update_role,
    update_user, user_form, CurrentUser, Error, RoleDisplay, RoleForm, Store, User, UserForm,
};

fn identity_with(id: u128, perms: &[&str]) -> CurrentUser {
    let user = User {
        id,
        email: format!("actor{}@example.com", id),
        password_hash: String::new(),
        first_name: String::from("Actor"),
        last_name: String::from("Person"),
        is_active: true,
        is_locked: false,
        last_login: None,
        locked_at: None,
        locked_by: None,
        created_at: 0,
        updated_at: 0,
    };
    CurrentUser::from_user_and_permissions(user, perms.iter().map(|p| p.to_string()).collect())
}

fn simple_role_form(name: &str, perms: &[&str]) -> RoleForm {
    RoleForm {
        name: name.to_string(),
        description: String::new(),
        permissions: perms.iter().map(|p| p.to_string()).collect(),
        is_active: Some(String::from("on")),
    }
}

fn simple_user_form(email: &str) -> UserForm {
    UserForm {
        email: email.to_string(),
        password: Some(String::from("longenough")),
        first_name: String::from("Kim"),
        last_name: String::from("Lee"),
        role_ids: vec![],
        is_active: Some(String::from("on")),
    }
}

#[test]
fn create_user_guards_password_email_and_permission() {
    let mut store = Store::new();
    let reader = identity_with(1, &["team:read"]);
    let writer = identity_with(2, &["team:write"]);

    assert_eq!(
        create_user(&mut store, Some(&reader), &simple_user_form("a@b.c"), 1).unwrap_err(),
        Error::Forbidden
    );
    assert_eq!(
        create_user(&mut store, None, &simple_user_form("a@b.c"), 1).unwrap_err(),
        Error::Unauthenticated
    );

    let mut short = simple_user_form("a@b.c");
    short.password = Some(String::from("tiny"));
    assert_eq!(
        create_user(&mut store, Some(&writer), &short, 1).unwrap_err(),
        Error::InvalidRequest
    );
    let mut none = simple_user_form("a@b.c");
    none.password = None;
    assert_eq!(
        create_user(&mut store, Some(&writer), &none, 1).unwrap_err(),
        Error::InvalidRequest
    );

    let uid = create_user(&mut store, Some(&writer), &simple_user_form("a@b.c"), 1).unwrap();
    assert!(store.find_user_by_id(uid).is_some());
    assert_eq!(
        create_user(&mut store, Some(&writer), &simple_user_form("a@b.c"), 2).unwrap_err(),
        Error::Conflict
    );
    // the creation was audited
    assert_eq!(store.audit.len(), 1);
    assert_eq!(store.audit[0].action, "create");
    assert_eq!(store.audit[0].resource_type, "user");
    assert_eq!(store.audit[0].resource_id, Some(uid));
}

#[test]
fn update_user_replaces_fields_and_roles() {
    let mut store = Store::new();
    let admin = identity_with(0, &["team:write", "team:manage_roles"]);
    let r1 = create_role(&mut store, Some(&admin), &simple_role_form("One", &["a:x"]), 1).unwrap();
    let r2 = create_role(&mut store, Some(&admin), &simple_role_form("Two", &["b:x"]), 2).unwrap();
    let uid = create_user(&mut store, Some(&admin), &simple_user_form("kim@example.com"), 3).unwrap();
    store.assign_roles(uid, &vec![r1], 0, 4);
    assert_eq!(get_user_permissions(&store, uid), vec!["a:x"]);

    let form = UserForm {
        email: String::from("kim.lee@example.com"),
        password: None,
        first_name: String::from("Kimberly"),
        last_name: String::from("Lee"),
        role_ids: vec![allo_core::uuid_to_string(r2)],
        is_active: Some(String::from("on")),
    };
    update_user(&mut store, Some(&admin), uid, &form, 5).unwrap();
    let user = store.find_user_by_id(uid).unwrap();
    assert_eq!(user.email, "kim.lee@example.com");
    assert_eq!(user.first_name, "Kimberly");
    assert_eq!(get_user_permissions(&store, uid), vec!["b:x"]);
}

#[test]
fn update_user_conflicts_on_a_taken_email() {
    let mut store = Store::new();
    let admin = identity_with(0, &["team:write"]);
    let _first = create_user(&mut store, Some(&admin), &simple_user_form("one@example.com"), 1).unwrap();
    let second = create_user(&mut store, Some(&admin), &simple_user_form("two@example.com"), 2).unwrap();
    let mut form = simple_user_form("one@example.com");
    form.password = None;
    assert_eq!(
        update_user(&mut store, Some(&admin), second, &form, 3).unwrap_err(),
        Error::Conflict
    );
}

#[test]
fn lock_and_unlock_drive_resolvability() {
    let mut store = Store::new();
    let admin = identity_with(0, &["team:write"]);
    let uid = create_user(&mut store, Some(&admin), &simple_user_form("kim@example.com"), 1).unwrap();
    assert!(resolve_user_id(&store, uid).is_some());

    lock_user(&mut store, Some(&admin), uid, 2).unwrap();
    let locked = store.find_user_by_id(uid).unwrap();
    assert!(locked.is_locked);
    assert_eq!(locked.locked_at, Some(2));
    assert_eq!(locked.locked_by, Some(0));
    assert!(resolve_user_id(&store, uid).is_none());

    unlock_user(&mut store, Some(&admin), uid, 3).unwrap();
    let unlocked = store.find_user_by_id(uid).unwrap();
    assert!(!unlocked.is_locked);
    assert_eq!(unlocked.locked_at, None);
    assert!(resolve_user_id(&store, uid).is_some());
}

#[test]
fn delete_user_cascades_assignments() {
    let mut store = Store::new();
    let admin = identity_with(0, &["team:write", "team:delete", "team:manage_roles"]);
    let rid = create_role(&mut store, Some(&admin), &simple_role_form("Held", &["a:x"]), 1).unwrap();
    let uid = create_user(&mut store, Some(&admin), &simple_user_form("kim@example.com"), 2).unwrap();
    store.assign_roles(uid, &vec![rid], 0, 3);
    assert_eq!(store.assignments.len(), 1);

    assert_eq!(
        delete_user(&mut store, Some(&admin), 424_242, 4).unwrap_err(),
        Error::NotFound
    );
    delete_user(&mut store, Some(&admin), uid, 5).unwrap();
    assert!(store.find_user_by_id(uid).is_none());
    assert_eq!(store.assignments.len(), 0);
    // with the reference gone, the role can be deleted
    assert!(allo_core::delete_role(&mut store, Some(&admin), rid, 6).is_ok());
}

#[test]
fn update_role_replaces_wholesale() {
    let mut store = Store::new();
    let admin = identity_with(0, &["team:manage_roles"]);
    let rid = create_role(&mut store, Some(&admin), &simple_role_form("Old", &["a:x", "b:x"]), 1).unwrap();
    let form = RoleForm {
        name: String::from("New"),
        description: String::from("renamed"),
        permissions: vec![String::from("c:x")],
        is_active: None,
    };
    update_role(&mut store, Some(&admin), rid, &form, 2).unwrap();
    let role = store.find_role_by_id(rid).unwrap();
    assert_eq!(role.name, "New");
    assert_eq!(role.description.as_deref(), Some("renamed"));
    assert_eq!(role.permissions, vec!["c:x"]);
    assert!(!role.is_active);
}

#[test]
fn role_names_stay_unique() {
    let mut store = Store::new();
    let admin = identity_with(0, &["team:manage_roles"]);
    let _a = create_role(&mut store, Some(&admin), &simple_role_form("Alpha", &[]), 1).unwrap();
    let b = create_role(&mut store, Some(&admin), &simple_role_form("Beta", &[]), 2).unwrap();
    assert_eq!(
        create_role(&mut store, Some(&admin), &simple_role_form("Alpha", &[]), 3).unwrap_err(),
        Error::Conflict
    );
    assert_eq!(
        update_role(&mut store, Some(&admin), b, &simple_role_form("Alpha", &[]), 4).unwrap_err(),
        Error::Conflict
    );
}

#[test]
fn listings_come_sorted() {
    let mut store = Store::new();
    let admin = identity_with(0, &["team:read", "team:write", "team:manage_roles"]);
    create_role(&mut store, Some(&admin), &simple_role_form("Zeta", &[]), 1).unwrap();
    create_role(&mut store, Some(&admin), &simple_role_form("Alpha", &[]), 2).unwrap();
    let mut inactive = simple_role_form("Middle", &[]);
    inactive.is_active = None;
    create_role(&mut store, Some(&admin), &inactive, 3).unwrap();

    let all = roles_list(&store, Some(&admin)).unwrap();
    let names: Vec<&str> = all.iter().map(|d| d.name.as_str()).collect();
    assert_eq!(names, vec!["Alpha", "Middle", "Zeta"]);

    // the new-user form offers only the active ones
    let offered = user_form(&store, Some(&admin)).unwrap();
    let offered_names: Vec<&str> = offered.iter().map(|d| d.name.as_str()).collect();
    assert_eq!(offered_names, vec!["Alpha", "Zeta"]);

    let mut zoe = simple_user_form("zoe@example.com");
    zoe.first_name = String::from("Zoe");
    let mut abe = simple_user_form("abe@example.com");
    abe.first_name = String::from("Abe");
    create_user(&mut store, Some(&admin), &zoe, 4).unwrap();
    create_user(&mut store, Some(&admin), &abe, 5).unwrap();
    let mut mia = simple_user_form("mia@example.com");
    mia.first_name = String::from("Mia");
    create_user(&mut store, Some(&admin), &mia, 6).unwrap();
    let users = get_users_with_roles(&store);
    let first_names: Vec<&str> = users.iter().map(|u| u.first_name.as_str()).collect();
    assert_eq!(first_names, vec!["Abe", "Mia", "Zoe"]);
}

#[test]
fn dashboard_counts_users_active_roles_and_locks() {
    let mut store = Store::new();
    let admin = identity_with(0, &["team:read", "team:write", "team:manage_roles"]);
    create_role(&mut store, Some(&admin), &simple_role_form("Active", &[]), 1).unwrap();
    let mut off = simple_role_form("Dormant", &[]);
    off.is_active = None;
    create_role(&mut store, Some(&admin), &off, 2).unwrap();
    let u1 = create_user(&mut store, Some(&admin), &simple_user_form("a@example.com"), 3).unwrap();
    create_user(&mut store, Some(&admin), &simple_user_form("b@example.com"), 4).unwrap();
    lock_user(&mut store, Some(&admin), u1, 5).unwrap();

    let stats = team_dashboard(&store, Some(&admin)).unwrap();
    assert_eq!(stats.user_count, 2);
    assert_eq!(stats.role_count, 1);
    assert_eq!(stats.locked_user_count, 1);

    let reader = identity_with(9, &["inventory:read"]);
    assert_eq!(team_dashboard(&store, Some(&reader)).unwrap_err(), Error::Forbidden);
}

#[test]
fn role_edit_form_hands_back_the_role_and_catalog() {
    let mut store = Store::new();
    let admin = identity_with(0, &["team:manage_roles"]);
    let rid = create_role(&mut store, Some(&admin), &simple_role_form("Edit", &["b:x", "a:x"]), 1).unwrap();
    let (display, perms, keys) = role_edit_form(&store, Some(&admin), rid).unwrap();
    assert_eq!(display.name, "Edit");
    assert_eq!(display.permission_count, 2);
    assert_eq!(keys, vec!["a:x", "b:x"]);
    assert_eq!(perms.len(), 18);
    match role_edit_form(&store, Some(&admin), 999) {
        Err(e) => assert_eq!(e, Error::NotFound),
        Ok(_) => panic!("a missing role should not be found"),
    }
}

#[test]
fn catalog_lists_the_known_keys_in_order() {
    let perms = get_all_permissions();
    assert_eq!(perms.len(), 18);
    assert_eq!(perms[0].key, "customers:read");
    assert_eq!(perms[0].name, "View Customers");
    assert_eq!(perms[0].category, "Customer Management");
    assert_eq!(perms[6].key, "team:read");
    assert_eq!(perms[9].key, "team:manage_roles");
    assert_eq!(perms[16].key, "api:access");
    assert_eq!(perms[17].key, "api:admin");
    let keys: Vec<&str> = perms.iter().map(|p| p.key.as_str()).collect();
    assert!(keys.contains(&"expenses:write"));
    assert!(keys.contains(&"shipping:delete"));
    assert!(keys.contains(&"inventory:read"));
}

#[test]
fn display_union_reads_every_listed_role() {
    let displays = vec![
        RoleDisplay {
            id: 1,
            name: String::from("A"),
            description: String::new(),
            permissions: vec![String::from("b:x"), String::from("a:x")],
            is_active: true,
            created_at: 0,
            updated_at: 0,
            permission_count: 2,
        },
        RoleDisplay {
            id: 2,
            name: String::from("B"),
            description: String::new(),
            permissions: vec![String::from("a:x"), String::from("c:x")],
            is_active: false,
            created_at: 0,
            updated_at: 0,
            permission_count: 2,
        },
    ];
    assert_eq!(
        get_user_permissions_from_roles(&displays),
        vec!["a:x", "b:x", "c:x"]
    );
}

#[test]
fn contains_matches_whole_entries() {
    let hay = vec![String::from("team:read"), String::from("api:access")];
    assert!(contains(&hay, "team:read"));
    assert!(!contains(&hay, "team"));
    assert!(!contains(&hay, "team:write"));
}

#[test]
fn update_user_ignores_an_unacceptably_short_password() {
    let mut store = Store::new();
    let admin = identity_with(0, &["team:write"]);
    let uid = create_user(&mut store, Some(&admin), &simple_user_form("kim@example.com"), 1).unwrap();
    let old_hash = store.find_user_by_id(uid).unwrap().password_hash.clone();

    let mut form = simple_user_form("kim@example.com");
    form.password = Some(String::from("tiny"));
    update_user(&mut store, Some(&admin), uid, &form, 2).unwrap();
    assert_eq!(store.find_user_by_id(uid).unwrap().password_hash, old_hash);

    let mut change = simple_user_form("kim@example.com");
    change.password = Some(String::from("long enough now"));
    update_user(&mut store, Some(&admin), uid, &change, 3).unwrap();
    assert_ne!(store.find_user_by_id(uid).unwrap().password_hash, old_hash);
}

#[test]
fn unlock_has_no_self_guard() {
    let mut store = Store::new();
    let admin = identity_with(0, &["team:write"]);
    let uid = create_user(&mut store, Some(&admin), &simple_user_form("kim@example.com"), 1).unwrap();
    let kim = resolve_user_id(&store, uid).unwrap();
    // kim holds no team permission, so even the self-unlock is forbidden
    assert_eq!(unlock_user(&mut store, Some(&kim), uid, 2).unwrap_err(), Error::Forbidden);
    // but a writer may unlock any account, its own included
    assert!(unlock_user(&mut store, Some(&admin), uid, 3).is_ok());
}

#[test]
fn updates_of_missing_targets_still_record_the_attempt() {
    let mut store = Store::new();
    let admin = identity_with(0, &["team:write", "team:manage_roles"]);
    let mut form = simple_user_form("ghost@example.com");
    form.password = None;
    update_user(&mut store, Some(&admin), 404, &form, 1).unwrap();
    update_role(&mut store, Some(&admin), 405, &simple_role_form("Ghost", &[]), 2).unwrap();
    assert!(store.users.is_empty());
    assert!(store.roles.is_empty());
    assert_eq!(store.audit.len(), 2);
    assert_eq!(store.audit[0].action, "update");
    assert_eq!(store.audit[0].resource_type, "user");
    assert_eq!(store.audit[1].resource_type, "role");
}

#[test]
fn audit_records_lock_payloads() {
    let mut store = Store::new();
    let admin = identity_with(0, &["team:write"]);
    let uid = create_user(&mut store, Some(&admin), &simple_user_form("kim@example.com"), 1).unwrap();
    lock_user(&mut store, Some(&admin), uid, 2).unwrap();
    unlock_user(&mut store, Some(&admin), uid, 3).unwrap();
    assert_eq!(store.audit.len(), 3);
    assert_eq!(store.audit[1].action, "lock");
    assert_eq!(store.audit[1].new_values.as_deref(), Some("{\"locked\":true}"));
    assert_eq!(store.audit[2].action, "unlock");
    assert_eq!(store.audit[2].new_values.as_deref(), Some("{\"locked\":false}"));
    assert_eq!(store.audit[2].user_id, Some(0));
}

#[test]
fn malformed_role_ids_in_forms_are_skipped() {
    let mut store = Store::new();
    let admin = identity_with(0, &["team:write", "team:manage_roles"]);
    let rid = create_role(&mut store, Some(&admin), &simple_role_form("Real", &["a:x"]), 1).unwrap();
    let mut form = simple_user_form("kim@example.com");
    form.role_ids = vec![
        String::from("not-a-uuid"),
        allo_core::uuid_to_string(rid),
        String::from(""),
    ];
    let uid = create_user(&mut store, Some(&admin), &form, 2).unwrap();
    assert_eq!(store.assignments.len(), 1);
    assert_eq!(store.assignments[0].role_id, rid);
    assert_eq!(store.assignments[0].user_id, uid);
    assert_eq!(store.assignments[0].assigned_by, Some(0));
}
