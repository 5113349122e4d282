//! The in-memory backing store: users, roles, user-role assignments, the
//! audit log and session tracking records, with the referential invariants
//! the rest of the library relies on.

use vstd::prelude::*;

use crate::model::{
    audit_view, roles_view, sessions_view, strictly_sorted, user_roles_view, users_view,
    AuditLogEntry, AuditLogEntryView, Role, RoleView, Session, SessionView, User, UserRole,
    UserRoleView, UserView,
};
use crate::order::str_eq;

verus! {

#[verifier::ext_equal]
pub ghost struct StoreView {
    pub users: Seq<UserView>,
    pub roles: Seq<RoleView>,
    pub assignments: Seq<UserRoleView>,
    pub audit: Seq<AuditLogEntryView>,
    pub sessions: Seq<SessionView>,
    pub next_id: u128,
}

/// The backing store. Every identifier it hands out is below `next_id`.
pub struct Store {
    pub users: Vec<User>,
    pub roles: Vec<Role>,
    pub assignments: Vec<UserRole>,
    pub audit: Vec<AuditLogEntry>,
    pub sessions: Vec<Session>,
    pub next_id: u128,
}

impl View for Store {
    type V = StoreView;

    open spec fn view(&self) -> StoreView {
        StoreView {
            users: users_view(self.users@),
            roles: roles_view(self.roles@),
            assignments: user_roles_view(self.assignments@),
            audit: audit_view(self.audit@),
            sessions: sessions_view(self.sessions@),
            next_id: self.next_id,
        }
    }
}

// ---------------------------------------------------------------------
// Membership and lookup, in specification terms
// ---------------------------------------------------------------------

pub open spec fn user_exists(s: StoreView, id: u128) -> bool {
    exists|i: int| 0 <= i < s.users.len() && s.users[i].id == id
}

pub open spec fn user_by_id(s: StoreView, id: u128) -> UserView {
    s.users[choose|i: int| 0 <= i < s.users.len() && s.users[i].id == id]
}

pub open spec fn email_exists(s: StoreView, email: Seq<char>) -> bool {
    exists|i: int| 0 <= i < s.users.len() && s.users[i].email == email
}

pub open spec fn user_by_email(s: StoreView, email: Seq<char>) -> UserView {
    s.users[choose|i: int| 0 <= i < s.users.len() && s.users[i].email == email]
}

pub open spec fn role_exists(s: StoreView, id: u128) -> bool {
    exists|i: int| 0 <= i < s.roles.len() && s.roles[i].id == id
}

pub open spec fn role_by_id(s: StoreView, id: u128) -> RoleView {
    s.roles[choose|i: int| 0 <= i < s.roles.len() && s.roles[i].id == id]
}

pub open spec fn role_name_exists(s: StoreView, name: Seq<char>) -> bool {
    exists|i: int| 0 <= i < s.roles.len() && s.roles[i].name == name
}

/// Another role, distinct from `id`, already carries `name`.
pub open spec fn role_name_taken_by_other(s: StoreView, name: Seq<char>, id: u128) -> bool {
    exists|i: int| 0 <= i < s.roles.len() && s.roles[i].name == name && s.roles[i].id != id
}

/// Another user, distinct from `id`, already carries `email`.
pub open spec fn email_taken_by_other(s: StoreView, email: Seq<char>, id: u128) -> bool {
    exists|i: int| 0 <= i < s.users.len() && s.users[i].email == email && s.users[i].id != id
}

/// The user currently holds the role.
pub open spec fn is_assigned(s: StoreView, user_id: u128, role_id: u128) -> bool {
    exists|i: int|
        0 <= i < s.assignments.len() && s.assignments[i].user_id == user_id
            && s.assignments[i].role_id == role_id
}

/// At least one assignment row references the role.
pub open spec fn role_in_use(s: StoreView, role_id: u128) -> bool {
    exists|i: int| 0 <= i < s.assignments.len() && s.assignments[i].role_id == role_id
}

// ---------------------------------------------------------------------
// Well-formedness
// ---------------------------------------------------------------------

pub open spec fn wf_store(s: StoreView) -> bool {
    // users: distinct ids, distinct emails, ids already handed out
    &&& forall|i: int, j: int|
        0 <= i < j < s.users.len() ==> s.users[i].id != s.users[j].id
    &&& forall|i: int, j: int|
        0 <= i < j < s.users.len() ==> s.users[i].email != s.users[j].email
    &&& forall|i: int| 0 <= i < s.users.len() ==> (#[trigger] s.users[i]).id < s.next_id
    // roles: distinct ids, distinct names, sorted deduplicated permissions
    &&& forall|i: int, j: int|
        0 <= i < j < s.roles.len() ==> s.roles[i].id != s.roles[j].id
    &&& forall|i: int, j: int|
        0 <= i < j < s.roles.len() ==> s.roles[i].name != s.roles[j].name
    &&& forall|i: int| 0 <= i < s.roles.len() ==> (#[trigger] s.roles[i]).id < s.next_id
    &&& forall|i: int|
        0 <= i < s.roles.len() ==> strictly_sorted((#[trigger] s.roles[i]).permissions)
    // assignments: distinct (user, role) pairs, both ends present
    &&& forall|i: int, j: int|
        0 <= i < j < s.assignments.len() ==> !(s.assignments[i].user_id
            == s.assignments[j].user_id && s.assignments[i].role_id == s.assignments[j].role_id)
    &&& forall|i: int|
        0 <= i < s.assignments.len() ==> user_exists(s, (#[trigger] s.assignments[i]).user_id)
    &&& forall|i: int|
        0 <= i < s.assignments.len() ==> role_exists(s, (#[trigger] s.assignments[i]).role_id)
    // audit entries and sessions: ids already handed out
    &&& forall|i: int| 0 <= i < s.audit.len() ==> (#[trigger] s.audit[i]).id < s.next_id
    &&& forall|i: int| 0 <= i < s.sessions.len() ==> (#[trigger] s.sessions[i]).id < s.next_id
}

impl Store {
    pub open spec fn wf(&self) -> bool {
        wf_store(self@)
    }

    /// An empty store, ready to hand out identifiers from 1 on.
    pub fn new() -> (r: Store)
        ensures
            r.wf(),
            r@.users.len() == 0,
            r@.roles.len() == 0,
            r@.assignments.len() == 0,
            r@.audit.len() == 0,
            r@.sessions.len() == 0,
            r@.next_id == 1u128,
    {
        Store {
            users: Vec::new(),
            roles: Vec::new(),
            assignments: Vec::new(),
            audit: Vec::new(),
            sessions: Vec::new(),
            next_id: 1,
        }
    }

    // -----------------------------------------------------------------
    // Lookups
    // -----------------------------------------------------------------

    pub fn find_user_by_id(&self, id: u128) -> (r: Option<&User>)
        requires
            self.wf(),
        ensures
            match r {
                Some(u) => user_exists(self@, id) && u@ == user_by_id(self@, id),
                None => !user_exists(self@, id),
            },
    {
        let n = self.users.len();
        let mut i: usize = 0;
        while i < n
            invariant
                self.wf(),
                i <= n,
                n == self.users.len(),
                forall|k: int| 0 <= k < i ==> self@.users[k].id != id,
            decreases n - i,
        {
            if self.users[i].id == id {
                assert(self@.users[i as int].id == id);
                proof {
                    let w = choose|k: int|
                        0 <= k < self@.users.len() && self@.users[k].id == id;
                    assert(self@.users[w].id == id);
                    assert(w == i as int);
                }
                return Some(&self.users[i]);
            }
            i = i + 1;
        }
        None
    }

    pub fn find_user_by_email(&self, email: &str) -> (r: Option<&User>)
        requires
            self.wf(),
        ensures
            match r {
                Some(u) => email_exists(self@, email@) && u@ == user_by_email(self@, email@),
                None => !email_exists(self@, email@),
            },
    {
        let n = self.users.len();
        let mut i: usize = 0;
        while i < n
            invariant
                self.wf(),
                i <= n,
                n == self.users.len(),
                forall|k: int| 0 <= k < i ==> self@.users[k].email != email@,
            decreases n - i,
        {
            if str_eq(self.users[i].email.as_str(), email) {
                assert(self@.users[i as int].email == email@);
                proof {
                    let w = choose|k: int|
                        0 <= k < self@.users.len() && self@.users[k].email == email@;
                    assert(self@.users[w].email == email@);
                    assert(w == i as int);
                }
                return Some(&self.users[i]);
            }
            i = i + 1;
        }
        None
    }

    pub fn find_user_idx(&self, id: u128) -> (r: Option<usize>)
        requires
            self.wf(),
        ensures
            match r {
                Some(i) => i < self.users.len() && self@.users[i as int].id == id
                    && user_exists(self@, id) && self@.users[i as int] == user_by_id(self@, id),
                None => !user_exists(self@, id),
            },
    {
        let n = self.users.len();
        let mut i: usize = 0;
        while i < n
            invariant
                self.wf(),
                i <= n,
                n == self.users.len(),
                forall|k: int| 0 <= k < i ==> self@.users[k].id != id,
            decreases n - i,
        {
            if self.users[i].id == id {
                proof {
                    assert(self@.users[i as int].id == id);
                    let w = choose|k: int|
                        0 <= k < self@.users.len() && self@.users[k].id == id;
                    assert(self@.users[w].id == id);
                    assert(w == i as int);
                }
                return Some(i);
            }
            i = i + 1;
        }
        None
    }

    pub fn find_role_by_id(&self, id: u128) -> (r: Option<&Role>)
        requires
            self.wf(),
        ensures
            match r {
                Some(x) => role_exists(self@, id) && x@ == role_by_id(self@, id),
                None => !role_exists(self@, id),
            },
    {
        let n = self.roles.len();
        let mut i: usize = 0;
        while i < n
            invariant
                self.wf(),
                i <= n,
                n == self.roles.len(),
                forall|k: int| 0 <= k < i ==> self@.roles[k].id != id,
            decreases n - i,
        {
            if self.roles[i].id == id {
                proof {
                    assert(self@.roles[i as int].id == id);
                    let w = choose|k: int|
                        0 <= k < self@.roles.len() && self@.roles[k].id == id;
                    assert(self@.roles[w].id == id);
                    assert(w == i as int);
                }
                return Some(&self.roles[i]);
            }
            i = i + 1;
        }
        None
    }

    pub fn find_role_idx(&self, id: u128) -> (r: Option<usize>)
        requires
            self.wf(),
        ensures
            match r {
                Some(i) => i < self.roles.len() && self@.roles[i as int].id == id
                    && role_exists(self@, id) && self@.roles[i as int] == role_by_id(self@, id),
                None => !role_exists(self@, id),
            },
    {
        let n = self.roles.len();
        let mut i: usize = 0;
        while i < n
            invariant
                self.wf(),
                i <= n,
                n == self.roles.len(),
                forall|k: int| 0 <= k < i ==> self@.roles[k].id != id,
            decreases n - i,
        {
            if self.roles[i].id == id {
                proof {
                    assert(self@.roles[i as int].id == id);
                    let w = choose|k: int|
                        0 <= k < self@.roles.len() && self@.roles[k].id == id;
                    assert(self@.roles[w].id == id);
                    assert(w == i as int);
                }
                return Some(i);
            }
            i = i + 1;
        }
        None
    }

    /// Does another role than `id` already carry `name`?
    pub fn role_name_taken(&self, name: &str, excluding: Option<u128>) -> (r: bool)
        requires
            self.wf(),
        ensures
            match excluding {
                None => r == role_name_exists(self@, name@),
                Some(id) => r == role_name_taken_by_other(self@, name@, id),
            },
    {
        let n = self.roles.len();
        let mut i: usize = 0;
        while i < n
            invariant
                self.wf(),
                i <= n,
                n == self.roles.len(),
                forall|k: int|
                    0 <= k < i ==> !(self@.roles[k].name == name@ && (match excluding {
                        None => true,
                        Some(id) => self@.roles[k].id != id,
                    })),
            decreases n - i,
        {
            if str_eq(self.roles[i].name.as_str(), name) {
                assert(self@.roles[i as int].name == name@);
                match excluding {
                    None => {
                        return true;
                    },
                    Some(id) => {
                        if self.roles[i].id != id {
                            assert(self@.roles[i as int].id != id);
                            return true;
                        }
                    },
                }
            }
            i = i + 1;
        }
        false
    }

    /// Does another user than `id` already carry `email`?
    pub fn email_taken(&self, email: &str, excluding: u128) -> (r: bool)
        requires
            self.wf(),
        ensures
            r == email_taken_by_other(self@, email@, excluding),
    {
        let n = self.users.len();
        let mut i: usize = 0;
        while i < n
            invariant
                self.wf(),
                i <= n,
                n == self.users.len(),
                forall|k: int|
                    0 <= k < i ==> !(self@.users[k].email == email@ && self@.users[k].id
                        != excluding),
            decreases n - i,
        {
            if str_eq(self.users[i].email.as_str(), email) && self.users[i].id != excluding {
                assert(self@.users[i as int].email == email@ && self@.users[i as int].id
                    != excluding);
                return true;
            }
            i = i + 1;
        }
        false
    }

    pub fn assigned(&self, user_id: u128, role_id: u128) -> (r: bool)
        ensures
            r == is_assigned(self@, user_id, role_id),
    {
        let n = self.assignments.len();
        let mut i: usize = 0;
        while i < n
            invariant
                i <= n,
                n == self.assignments.len(),
                forall|k: int|
                    0 <= k < i ==> !(self@.assignments[k].user_id == user_id
                        && self@.assignments[k].role_id == role_id),
            decreases n - i,
        {
            if self.assignments[i].user_id == user_id && self.assignments[i].role_id == role_id {
                assert(self@.assignments[i as int].user_id == user_id);
                return true;
            }
            i = i + 1;
        }
        false
    }

    pub fn role_referenced(&self, role_id: u128) -> (r: bool)
        ensures
            r == role_in_use(self@, role_id),
    {
        let n = self.assignments.len();
        let mut i: usize = 0;
        while i < n
            invariant
                i <= n,
                n == self.assignments.len(),
                forall|k: int| 0 <= k < i ==> self@.assignments[k].role_id != role_id,
            decreases n - i,
        {
            if self.assignments[i].role_id == role_id {
                assert(self@.assignments[i as int].role_id == role_id);
                return true;
            }
            i = i + 1;
        }
        false
    }
}

} // verus!
