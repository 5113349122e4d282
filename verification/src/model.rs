//! The entities of the authorization core and their mathematical views.
//!
//! Identifiers are 128-bit integers (the store hands them out; tokens and
//! request paths carry their canonical text rendering). Timestamps are
//! epoch seconds.

use vstd::prelude::*;

use crate::order::{lex_lt};

verus! {

/// The views of a list of strings, entry by entry.
pub open spec fn strs_view(s: Seq<String>) -> Seq<Seq<char>> {
    s.map_values(|x: String| x@)
}

/// The view of an optional string.
pub open spec fn opt_str_view(o: Option<String>) -> Option<Seq<char>> {
    match o {
        Some(s) => Some(s@),
        None => None,
    }
}

/// Keys strictly increasing: sorted with no duplicates.
pub open spec fn strictly_sorted(s: Seq<Seq<char>>) -> bool {
    forall|i: int, j: int| 0 <= i < j < s.len() ==> lex_lt(s[i], s[j])
}

// ---------------------------------------------------------------------
// Users
// ---------------------------------------------------------------------

#[verifier::ext_equal]
pub ghost struct UserView {
    pub id: u128,
    pub email: Seq<char>,
    pub password_hash: Seq<char>,
    pub first_name: Seq<char>,
    pub last_name: Seq<char>,
    pub is_active: bool,
    pub is_locked: bool,
    pub last_login: Option<i64>,
    pub locked_at: Option<i64>,
    pub locked_by: Option<u128>,
    pub created_at: i64,
    pub updated_at: i64,
}

/// A team member account.
#[derive(Clone)]
pub struct User {
    pub id: u128,
    pub email: String,
    pub password_hash: String,
    pub first_name: String,
    pub last_name: String,
    pub is_active: bool,
    pub is_locked: bool,
    pub last_login: Option<i64>,
    pub locked_at: Option<i64>,
    pub locked_by: Option<u128>,
    pub created_at: i64,
    pub updated_at: i64,
}

impl View for User {
    type V = UserView;

    open spec fn view(&self) -> UserView {
        UserView {
            id: self.id,
            email: self.email@,
            password_hash: self.password_hash@,
            first_name: self.first_name@,
            last_name: self.last_name@,
            is_active: self.is_active,
            is_locked: self.is_locked,
            last_login: self.last_login,
            locked_at: self.locked_at,
            locked_by: self.locked_by,
            created_at: self.created_at,
            updated_at: self.updated_at,
        }
    }
}

pub open spec fn users_view(s: Seq<User>) -> Seq<UserView> {
    s.map_values(|u: User| u@)
}

/// An element-for-element copy of a string list.
pub fn clone_string_vec(v: &Vec<String>) -> (r: Vec<String>)
    ensures
        r@ == v@,
{
    let n = v.len();
    let mut out: Vec<String> = Vec::new();
    let mut i: usize = 0;
    while i < n
        invariant
            i <= n,
            n == v.len(),
            out@.len() == i,
            forall|k: int| 0 <= k < i ==> out@[k] == v@[k],
        decreases n - i,
    {
        out.push(v[i].clone());
        i = i + 1;
    }
    proof {
        assert(out@ =~= v@);
    }
    out
}

impl User {
    /// A field-for-field copy.
    pub fn duplicate(&self) -> (r: User)
        ensures
            r@ == self@,
    {
        User {
            id: self.id,
            email: self.email.clone(),
            password_hash: self.password_hash.clone(),
            first_name: self.first_name.clone(),
            last_name: self.last_name.clone(),
            is_active: self.is_active,
            is_locked: self.is_locked,
            last_login: self.last_login,
            locked_at: self.locked_at,
            locked_by: self.locked_by,
            created_at: self.created_at,
            updated_at: self.updated_at,
        }
    }
}

// ---------------------------------------------------------------------
// Roles
// ---------------------------------------------------------------------

#[verifier::ext_equal]
pub ghost struct RoleView {
    pub id: u128,
    pub name: Seq<char>,
    pub description: Option<Seq<char>>,
    pub permissions: Seq<Seq<char>>,
    pub is_active: bool,
    pub created_at: i64,
    pub updated_at: i64,
    pub created_by: Option<u128>,
}

/// A named, reusable bundle of permission keys.
#[derive(Clone)]
pub struct Role {
    pub id: u128,
    pub name: String,
    pub description: Option<String>,
    pub permissions: Vec<String>,
    pub is_active: bool,
    pub created_at: i64,
    pub updated_at: i64,
    pub created_by: Option<u128>,
}

impl View for Role {
    type V = RoleView;

    open spec fn view(&self) -> RoleView {
        RoleView {
            id: self.id,
            name: self.name@,
            description: opt_str_view(self.description),
            permissions: strs_view(self.permissions@),
            is_active: self.is_active,
            created_at: self.created_at,
            updated_at: self.updated_at,
            created_by: self.created_by,
        }
    }
}

pub open spec fn roles_view(s: Seq<Role>) -> Seq<RoleView> {
    s.map_values(|r: Role| r@)
}

impl Role {
    /// A field-for-field copy.
    pub fn duplicate(&self) -> (r: Role)
        ensures
            r@ == self@,
    {
        let description = match &self.description {
            Some(d) => Some(d.clone()),
            None => None,
        };
        Role {
            id: self.id,
            name: self.name.clone(),
            description: description,
            permissions: clone_string_vec(&self.permissions),
            is_active: self.is_active,
            created_at: self.created_at,
            updated_at: self.updated_at,
            created_by: self.created_by,
        }
    }
}

// ---------------------------------------------------------------------
// User-role assignment
// ---------------------------------------------------------------------

#[verifier::ext_equal]
pub ghost struct UserRoleView {
    pub user_id: u128,
    pub role_id: u128,
    pub assigned_at: i64,
    pub assigned_by: Option<u128>,
}

/// One row of the many-to-many user-role binding.
#[derive(Clone, Copy)]
pub struct UserRole {
    pub user_id: u128,
    pub role_id: u128,
    pub assigned_at: i64,
    pub assigned_by: Option<u128>,
}

impl View for UserRole {
    type V = UserRoleView;

    open spec fn view(&self) -> UserRoleView {
        UserRoleView {
            user_id: self.user_id,
            role_id: self.role_id,
            assigned_at: self.assigned_at,
            assigned_by: self.assigned_by,
        }
    }
}

pub open spec fn user_roles_view(s: Seq<UserRole>) -> Seq<UserRoleView> {
    s.map_values(|a: UserRole| a@)
}

// ---------------------------------------------------------------------
// Audit log
// ---------------------------------------------------------------------

#[verifier::ext_equal]
pub ghost struct AuditLogEntryView {
    pub id: u128,
    pub user_id: Option<u128>,
    pub action: Seq<char>,
    pub resource_type: Seq<char>,
    pub resource_id: Option<u128>,
    pub old_values: Option<Seq<char>>,
    pub new_values: Option<Seq<char>>,
    pub created_at: i64,
}

/// One append-only record of a privileged mutation. The old and new
/// values travel as already-serialized text.
#[derive(Clone)]
pub struct AuditLogEntry {
    pub id: u128,
    pub user_id: Option<u128>,
    pub action: String,
    pub resource_type: String,
    pub resource_id: Option<u128>,
    pub old_values: Option<String>,
    pub new_values: Option<String>,
    pub created_at: i64,
}

impl View for AuditLogEntry {
    type V = AuditLogEntryView;

    open spec fn view(&self) -> AuditLogEntryView {
        AuditLogEntryView {
            id: self.id,
            user_id: self.user_id,
            action: self.action@,
            resource_type: self.resource_type@,
            resource_id: self.resource_id,
            old_values: opt_str_view(self.old_values),
            new_values: opt_str_view(self.new_values),
            created_at: self.created_at,
        }
    }
}

pub open spec fn audit_view(s: Seq<AuditLogEntry>) -> Seq<AuditLogEntryView> {
    s.map_values(|e: AuditLogEntry| e@)
}

// ---------------------------------------------------------------------
// Sessions
// ---------------------------------------------------------------------

#[verifier::ext_equal]
pub ghost struct SessionView {
    pub id: u128,
    pub user_id: u128,
    pub expires_at: i64,
}

/// A tracking record written at login. Token validity never consults it.
#[derive(Clone, Copy)]
pub struct Session {
    pub id: u128,
    pub user_id: u128,
    pub expires_at: i64,
}

impl View for Session {
    type V = SessionView;

    open spec fn view(&self) -> SessionView {
        SessionView { id: self.id, user_id: self.user_id, expires_at: self.expires_at }
    }
}

pub open spec fn sessions_view(s: Seq<Session>) -> Seq<SessionView> {
    s.map_values(|x: Session| x@)
}

// ---------------------------------------------------------------------
// Request payloads
// ---------------------------------------------------------------------

/// Payload for creating an account through registration.
pub struct CreateUser {
    pub email: String,
    pub password: String,
    pub first_name: String,
    pub last_name: String,
}

/// Credentials presented at login.
pub struct LoginRequest {
    pub email: String,
    pub password: String,
}

/// Payload for creating a role.
pub struct CreateRole {
    pub name: String,
    pub description: Option<String>,
    pub permissions: Vec<String>,
}

/// The team-management form for creating or editing a user. Role ids
/// arrive as text; a value that does not parse is silently skipped.
pub struct UserForm {
    pub email: String,
    pub password: Option<String>,
    pub first_name: String,
    pub last_name: String,
    pub role_ids: Vec<String>,
    pub is_active: Option<String>,
}

/// The team-management form for creating or editing a role. A checked
/// box arrives as `Some`, an unchecked one as `None`.
pub struct RoleForm {
    pub name: String,
    pub description: String,
    pub permissions: Vec<String>,
    pub is_active: Option<String>,
}

/// The login form.
pub struct LoginForm {
    pub email: String,
    pub password: String,
}

/// The self-registration form.
pub struct RegisterForm {
    pub email: String,
    pub password: String,
    pub first_name: String,
    pub last_name: String,
}

} // verus!
