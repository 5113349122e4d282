//! Core of a server-rendered business application: the authorization model.
//!
//! Permission-carrying roles, many-to-many user-role assignment, signed
//! time-limited identity tokens, identity resolution with a configurable
//! fallback account, per-operation permission gates, and an append-only
//! audit log, all over an in-memory backing store.

mod assign;
mod audit;
mod auth;
mod catalog;
mod clock;
mod credential;
mod display;
mod error;
mod gate;
mod identity;
mod ids;
mod laws;
mod model;
mod order;
mod pages;
mod payload;
mod perms;
mod roles;
mod store;
mod team;
mod token;

pub use assign::{asn_of, assign_roles_tr, distinct_pairs, inserted_ids, rows_of, without_user};
pub use audit::{audit_entry_of, audit_tr};
pub use auth::{
    authenticate_user, create_user_in_db, credentials_good, login, login_tr, register,
    register_outcome,
};
pub use catalog::{catalog, get_all_permissions, perms_view, Permission, PermissionView};
pub use clock::now_ts;
pub use credential::{hash_password, password_verifies, verify_password};
pub use display::{
    assigned_roles_by_name, contains, display_of, display_union, displays_of, displays_view,
    get_user_permissions_from_roles, get_user_with_roles, get_users_with_roles, id_listed,
    listing_of_some_user, listings_view, response_of, role_listing, role_listing_ok,
    roles_by_name, roles_sorted_by_name, user_listing_ok, users_by_name, users_sorted_by_name,
    RoleDisplay, RoleDisplayView, UserResponse, UserResponseView, UserWithRoles, UserWithRolesView,
};
pub use error::Error;
pub use gate::{authorize, authorize_spec, authorize_user_action, authorize_user_action_spec};
pub use identity::{
    fallback_available, fallback_identity, fallback_outcome, get_current_user, has_permission,
    resolvable_user, resolve_user_id, resolved_for, wf_current_user, CurrentUser, CurrentUserView,
    FallbackConfig,
};
pub use ids::{parse_role_ids, parsed_ids, uuid_of, uuid_parse, uuid_text, uuid_to_string};
pub use laws::{
    lemma_assign_roles_replaces, lemma_assign_roles_sets, lemma_delete_role_removes,
    lemma_gate_key_discrimination, lemma_inactive_roles_grant_nothing, lemma_issue_verify,
    lemma_self_action_guard, lemma_sorted_unique_canonical,
};
pub use model::{
    audit_view, clone_string_vec, opt_str_view, roles_view, sessions_view, strictly_sorted,
    strs_view, user_roles_view, users_view, AuditLogEntry, AuditLogEntryView, CreateRole,
    CreateUser, LoginForm, LoginRequest, RegisterForm, Role, RoleForm, RoleView, Session,
    SessionView, User, UserForm, UserRole, UserRoleView, UserView,
};
pub use order::{lex_le, lex_lt, pair_lt, str_eq, str_lt, str_pair_lt};
pub use pages::{
    role_edit_form, role_form, roles_list, spec_active_role_count, spec_locked_user_count,
    team_dashboard, user_edit_form, user_form, users_list, TeamStats,
};
pub use payload::{
    hex_digit, json_array_items, json_bool, json_escaped, json_escaped_char, json_opt_string,
    json_string, json_string_array, role_delete_payload, role_delete_payload_text, role_payload,
    role_payload_text, user_delete_payload, user_delete_payload_text, user_payload,
    user_payload_text,
};
pub use perms::{
    effective_permissions, get_user_permissions, in_effective_upto, insert_sorted_unique,
};
pub use roles::{
    create_role, create_role_outcome, create_role_tr, delete_role, delete_role_tr, new_role_of,
    normalize_keys, stored_description, update_role, update_role_full_tr, update_role_outcome,
    update_role_tr, updated_role,
};
pub use store::{
    email_exists, email_taken_by_other, is_assigned, role_by_id, role_exists, role_in_use,
    role_name_exists, role_name_taken_by_other, user_by_email, user_by_id, user_exists, wf_store,
    Store, StoreView,
};
pub use team::{
    acceptable_new_password, create_user, create_user_outcome, create_user_tr, delete_user,
    delete_user_tr, insert_user_tr, lock_tr, lock_user, locked_user, new_user_of, unlock_tr,
    unlock_user, unlocked_user, update_user, update_user_full_tr, update_user_outcome,
    update_user_tr, updated_user,
};
pub use token::{
    create_token, create_token_at, jwt_payload, jwt_token, token_verdict, verify_token,
    verify_token_at, Claims, ClaimsView, TOKEN_TTL_SECONDS,
};
