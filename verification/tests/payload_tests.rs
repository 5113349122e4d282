use allo_core::{
    create_role, create_user, delete_role, delete_user, role_delete_payload_text,
    role_payload_text, user_delete_payload_text, user_payload_text, CurrentUser, RoleForm, Store,
    User, UserForm,
};

fn actor(id: u128, perms: &[&str]) -> CurrentUser {
    let user = User {
        id,
        email: format!("actor{}@example.com", id),
        password_hash: String::new(),
        first_name: String::from("Audit"),
        last_name: String::from("Actor"),
        is_active: true,
        is_locked: false,
        last_login: None,
        locked_at: None,
        locked_by: None,
        created_at: 0,
        updated_at: 0,
    };
    CurrentUser::from_user_and_permissions(user, perms.iter().map(|p| p.to_string()).collect())
}

#[test]
fn created_account_payload_records_the_fields() {
    let mut store = Store::new();
    let admin = actor(0, &["team:write"]);
    let form = UserForm {
        email: String::from("kim@example.com"),
        password: Some(String::from("longenough")),
        first_name: String::from("Kim"),
        last_name: String::from("Lee"),
        role_ids: vec![],
        is_active: Some(String::from("on")),
    };
    create_user(&mut store, Some(&admin), &form, 1).unwrap();
    assert_eq!(
        store.audit[0].new_values.as_deref(),
        Some(
            "{\"email\":\"kim@example.com\",\"first_name\":\"Kim\",\"is_active\":true,\"last_name\":\"Lee\"}"
        )
    );
    assert_eq!(store.audit[0].old_values, None);
}

#[test]
fn deleted_account_payload_records_the_removed_fields() {
    let mut store = Store::new();
    let admin = actor(0, &["team:write", "team:delete"]);
    let form = UserForm {
        email: String::from("kim@example.com"),
        password: Some(String::from("longenough")),
        first_name: String::from("Kim"),
        last_name: String::from("Lee"),
        role_ids: vec![],
        is_active: Some(String::from("on")),
    };
    let uid = create_user(&mut store, Some(&admin), &form, 1).unwrap();
    delete_user(&mut store, Some(&admin), uid, 2).unwrap();
    let entry = store.audit.last().unwrap();
    assert_eq!(entry.action, "delete");
    assert_eq!(
        entry.old_values.as_deref(),
        Some("{\"email\":\"kim@example.com\",\"first_name\":\"Kim\",\"last_name\":\"Lee\"}")
    );
    assert_eq!(entry.new_values, None);
}

#[test]
fn role_payloads_record_form_and_stored_fields() {
    let mut store = Store::new();
    let admin = actor(0, &["team:manage_roles"]);
    let rid = create_role(
        &mut store,
        Some(&admin),
        &RoleForm {
            name: String::from("Sales"),
            description: String::new(),
            permissions: vec![String::from("b:x"), String::from("a:x")],
            is_active: Some(String::from("on")),
        },
        1,
    )
    .unwrap();
    // the creation logs the form as submitted: raw order, empty text
    assert_eq!(
        store.audit[0].new_values.as_deref(),
        Some("{\"description\":\"\",\"is_active\":true,\"name\":\"Sales\",\"permissions\":[\"b:x\",\"a:x\"]}")
    );
    delete_role(&mut store, Some(&admin), rid, 2).unwrap();
    // the deletion logs the stored row: null description, sorted keys
    let entry = store.audit.last().unwrap();
    assert_eq!(
        entry.old_values.as_deref(),
        Some("{\"description\":null,\"name\":\"Sales\",\"permissions\":[\"a:x\",\"b:x\"]}")
    );
}

#[test]
fn payload_texts_match_the_json_serializer() {
    let tricky = "quo\"te\\back\nline\ttab\u{1}ctl";
    let mine = user_delete_payload_text(tricky, "First", "Last");
    let mut m = serde_json::Map::new();
    m.insert(
        "email".to_string(),
        serde_json::Value::String(tricky.to_string()),
    );
    m.insert(
        "first_name".to_string(),
        serde_json::Value::String("First".to_string()),
    );
    m.insert(
        "last_name".to_string(),
        serde_json::Value::String("Last".to_string()),
    );
    let theirs = serde_json::Value::Object(m).to_string();
    assert_eq!(mine, theirs);
}

#[test]
fn role_payload_matches_the_json_serializer() {
    let mut m = serde_json::Map::new();
    m.insert(
        "description".to_string(),
        serde_json::Value::String("a \"quoted\" note".to_string()),
    );
    m.insert("is_active".to_string(), serde_json::Value::Bool(false));
    m.insert(
        "name".to_string(),
        serde_json::Value::String("Ops\\Crew".to_string()),
    );
    m.insert(
        "permissions".to_string(),
        serde_json::Value::Array(vec![
            serde_json::Value::String("a:x".to_string()),
            serde_json::Value::String("b\ty".to_string()),
        ]),
    );
    let theirs = serde_json::Value::Object(m).to_string();
    let mine = role_payload_text(
        "Ops\\Crew",
        "a \"quoted\" note",
        &vec![String::from("a:x"), String::from("b\ty")],
        false,
    );
    assert_eq!(mine, theirs);
}

#[test]
fn user_payload_shapes_are_stable() {
    assert_eq!(
        user_payload_text("a@b.c", "A", "B", false),
        "{\"email\":\"a@b.c\",\"first_name\":\"A\",\"is_active\":false,\"last_name\":\"B\"}"
    );
    assert_eq!(
        role_delete_payload_text("R", &Some(String::from("d")), &vec![]),
        "{\"description\":\"d\",\"name\":\"R\",\"permissions\":[]}"
    );
}
