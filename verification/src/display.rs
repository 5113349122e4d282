//! Display forms of the stored entities, and the sorted listings the
//! team pages show: roles ordered by name, users ordered by first and
//! last name, each user with its assigned roles and effective
//! permissions.

use vstd::prelude::*;

use crate::error::Error;
use crate::model::{
    roles_view, strictly_sorted, strs_view, users_view, Role, RoleView, User, UserView,
};
use crate::order::{
    lemma_lex_lt_trans, lemma_lex_trichotomy, lemma_pair_lt_trans, lex_lt, pair_lt, str_lt,
    str_pair_lt,
};
use crate::perms::{effective_permissions, get_user_permissions, insert_sorted_unique};
use crate::store::{is_assigned, user_by_id, user_exists, Store, StoreView};

verus! {

// ---------------------------------------------------------------------
// Role display
// ---------------------------------------------------------------------

#[verifier::ext_equal]
pub ghost struct RoleDisplayView {
    pub id: u128,
    pub name: Seq<char>,
    pub description: Seq<char>,
    pub permissions: Seq<Seq<char>>,
    pub is_active: bool,
    pub created_at: i64,
    pub updated_at: i64,
    pub permission_count: usize,
}

/// A role as the pages show it: a missing description reads as empty
/// text, and the key count travels alongside.
pub struct RoleDisplay {
    pub id: u128,
    pub name: String,
    pub description: String,
    pub permissions: Vec<String>,
    pub is_active: bool,
    pub created_at: i64,
    pub updated_at: i64,
    pub permission_count: usize,
}

impl View for RoleDisplay {
    type V = RoleDisplayView;

    open spec fn view(&self) -> RoleDisplayView {
        RoleDisplayView {
            id: self.id,
            name: self.name@,
            description: self.description@,
            permissions: strs_view(self.permissions@),
            is_active: self.is_active,
            created_at: self.created_at,
            updated_at: self.updated_at,
            permission_count: self.permission_count,
        }
    }
}

/// The display form of a role.
pub open spec fn display_of(rv: RoleView) -> RoleDisplayView {
    RoleDisplayView {
        id: rv.id,
        name: rv.name,
        description: (match rv.description {
            Some(d) => d,
            None => Seq::<char>::empty(),
        }),
        permissions: rv.permissions,
        is_active: rv.is_active,
        created_at: rv.created_at,
        updated_at: rv.updated_at,
        permission_count: rv.permissions.len() as usize,
    }
}

impl RoleDisplay {
    /// The display form of a role, with the key count computed and a
    /// missing description replaced by empty text.
    pub fn from(role: Role) -> (r: RoleDisplay)
        ensures
            r@ == display_of(role@),
    {
        let description = match role.description {
            Some(d) => d,
            None => String::new(),
        };
        let permission_count = role.permissions.len();
        let r = RoleDisplay {
            id: role.id,
            name: role.name,
            description: description,
            permissions: role.permissions,
            is_active: role.is_active,
            created_at: role.created_at,
            updated_at: role.updated_at,
            permission_count: permission_count,
        };
        proof {
            assert(r@ =~= display_of(role@));
        }
        r
    }
}

// ---------------------------------------------------------------------
// User display
// ---------------------------------------------------------------------

#[verifier::ext_equal]
pub ghost struct UserResponseView {
    pub id: u128,
    pub email: Seq<char>,
    pub first_name: Seq<char>,
    pub last_name: Seq<char>,
    pub is_active: bool,
    pub is_locked: bool,
    pub last_login: Option<i64>,
}

/// A user as handed outward: everything but the credential material.
pub struct UserResponse {
    pub id: u128,
    pub email: String,
    pub first_name: String,
    pub last_name: String,
    pub is_active: bool,
    pub is_locked: bool,
    pub last_login: Option<i64>,
}

impl View for UserResponse {
    type V = UserResponseView;

    open spec fn view(&self) -> UserResponseView {
        UserResponseView {
            id: self.id,
            email: self.email@,
            first_name: self.first_name@,
            last_name: self.last_name@,
            is_active: self.is_active,
            is_locked: self.is_locked,
            last_login: self.last_login,
        }
    }
}

/// The outward form of a user.
pub open spec fn response_of(uv: UserView) -> UserResponseView {
    UserResponseView {
        id: uv.id,
        email: uv.email,
        first_name: uv.first_name,
        last_name: uv.last_name,
        is_active: uv.is_active,
        is_locked: uv.is_locked,
        last_login: uv.last_login,
    }
}

impl UserResponse {
    /// Strips a user down to its outward form.
    pub fn from(user: User) -> (r: UserResponse)
        ensures
            r@ == response_of(user@),
    {
        UserResponse {
            id: user.id,
            email: user.email,
            first_name: user.first_name,
            last_name: user.last_name,
            is_active: user.is_active,
            is_locked: user.is_locked,
            last_login: user.last_login,
        }
    }
}

// ---------------------------------------------------------------------
// Sorted role listings
// ---------------------------------------------------------------------

/// Strictly increasing role names.
pub open spec fn roles_sorted_by_name(s: Seq<RoleView>) -> bool {
    forall|i: int, j: int| 0 <= i < j < s.len() ==> lex_lt(s[i].name, s[j].name)
}

/// The first position whose role's name is not lexicographically below
/// `name`.
fn role_lower_bound(v: &Vec<Role>, name: &str) -> (k: usize)
    requires
        roles_sorted_by_name(roles_view(v@)),
    ensures
        k <= v.len(),
        forall|j: int| 0 <= j < k ==> lex_lt(roles_view(v@)[j].name, name@),
        k < v.len() ==> !lex_lt(roles_view(v@)[k as int].name, name@),
{
    let n = v.len();
    let mut k: usize = 0;
    while k < n
        invariant
            k <= n,
            n == v.len(),
            roles_sorted_by_name(roles_view(v@)),
            forall|j: int| 0 <= j < k ==> lex_lt(roles_view(v@)[j].name, name@),
        decreases n - k,
    {
        proof {
            assert(roles_view(v@)[k as int] == v@[k as int]@);
        }
        if str_lt(v[k].name.as_str(), name) {
            assert(lex_lt(roles_view(v@)[k as int].name, name@));
            k = k + 1;
        } else {
            return k;
        }
    }
    k
}

/// Inserts a role into a list sorted by name; the new name must not be
/// present yet.
fn insert_role_by_name(v: &mut Vec<Role>, x: Role)
    requires
        roles_sorted_by_name(roles_view(old(v)@)),
        forall|k: int|
            0 <= k < old(v)@.len() ==> (#[trigger] roles_view(old(v)@)[k]).name != x@.name,
    ensures
        roles_sorted_by_name(roles_view(final(v)@)),
        final(v)@.len() == old(v)@.len() + 1,
        forall|rv: RoleView|
            roles_view(final(v)@).contains(rv) <==> (roles_view(old(v)@).contains(rv) || rv
                == x@),
{
    let ghost olds = roles_view(old(v)@);
    let k = role_lower_bound(v, x.name.as_str());
    proof {
        if k < v.len() {
            assert(!lex_lt(olds[k as int].name, x@.name));
            assert(olds[k as int].name != x@.name);
            lemma_lex_trichotomy(x@.name, olds[k as int].name);
            assert(lex_lt(x@.name, olds[k as int].name));
        }
    }
    v.insert(k, x);
    proof {
        let news = roles_view(v@);
        assert(v@ == old(v)@.insert(k as int, x));
        assert(news.len() == olds.len() + 1);
        assert forall|i: int| 0 <= i < k implies news[i] == olds[i] by {
            assert(v@[i] == old(v)@[i]);
        }
        assert(news[k as int] == x@);
        assert forall|i: int| k < i < news.len() implies news[i] == olds[i - 1] by {
            assert(v@[i] == old(v)@[i - 1]);
        }
        assert forall|i: int, j: int| 0 <= i < j < news.len() implies lex_lt(
            news[i].name,
            news[j].name,
        ) by {
            if j < k {
            } else if j == k {
                assert(lex_lt(olds[i].name, x@.name));
            } else {
                if i < k {
                    if olds.len() > k {
                        lemma_lex_lt_trans(olds[i].name, x@.name, olds[k as int].name);
                        if j - 1 > k {
                            lemma_lex_lt_trans(olds[i].name, olds[k as int].name, olds[j - 1].name);
                        }
                    } else {
                        assert(lex_lt(olds[i].name, olds[j - 1].name));
                    }
                } else if i == k {
                    if j - 1 > k {
                        lemma_lex_lt_trans(x@.name, olds[k as int].name, olds[j - 1].name);
                    }
                } else {
                    assert(lex_lt(olds[i - 1].name, olds[j - 1].name));
                }
            }
        }
        assert forall|rv: RoleView|
            news.contains(rv) <==> (olds.contains(rv) || rv == x@) by {
            if news.contains(rv) {
                let i = choose|i: int| 0 <= i < news.len() && news[i] == rv;
                if i < k {
                    assert(olds[i] == rv);
                    assert(olds.contains(rv));
                } else if i > k {
                    assert(olds[i - 1] == rv);
                    assert(olds.contains(rv));
                }
            }
            if olds.contains(rv) {
                let i = choose|i: int| 0 <= i < olds.len() && olds[i] == rv;
                if i < k {
                    assert(news[i] == rv);
                } else {
                    assert(news[i + 1] == rv);
                }
                assert(news.contains(rv));
            }
            if rv == x@ {
                assert(news[k as int] == rv);
                assert(news.contains(rv));
            }
        }
    }
}

/// The roles of the store ordered by name; with `active_only`, just the
/// active ones.
pub fn roles_by_name(store: &Store, active_only: bool) -> (r: Vec<Role>)
    requires
        store.wf(),
    ensures
        roles_sorted_by_name(roles_view(r@)),
        forall|rv: RoleView|
            roles_view(r@).contains(rv) <==> (store@.roles.contains(rv) && (active_only
                ==> rv.is_active)),
{
    let n = store.roles.len();
    let mut acc: Vec<Role> = Vec::new();
    let mut i: usize = 0;
    while i < n
        invariant
            store.wf(),
            i <= n,
            n == store.roles.len(),
            roles_sorted_by_name(roles_view(acc@)),
            forall|rv: RoleView|
                roles_view(acc@).contains(rv) <==> (exists|j: int|
                    0 <= j < i && store@.roles[j] == rv) && (active_only ==> rv.is_active),
        decreases n - i,
    {
        let ghost prev = roles_view(acc@);
        if !active_only || store.roles[i].is_active {
            let x = store.roles[i].duplicate();
            proof {
                assert forall|k: int|
                    0 <= k < acc@.len() implies (#[trigger] roles_view(acc@)[k]).name
                    != x@.name by {
                    assert(roles_view(acc@).contains(roles_view(acc@)[k]));
                    let j = choose|j: int| 0 <= j < i && store@.roles[j] == roles_view(acc@)[k];
                    assert(store@.roles[j].name != store@.roles[i as int].name);
                }
            }
            insert_role_by_name(&mut acc, x);
            proof {
                assert forall|rv: RoleView|
                    roles_view(acc@).contains(rv) <==> ((exists|j: int|
                        0 <= j < i + 1 && store@.roles[j] == rv) && (active_only
                        ==> rv.is_active)) by {
                    if roles_view(acc@).contains(rv) {
                        if prev.contains(rv) {
                            let j = choose|j: int| 0 <= j < i && store@.roles[j] == rv;
                            assert(0 <= j < i + 1 && store@.roles[j] == rv);
                        } else {
                            assert(rv == store@.roles[i as int]);
                        }
                    }
                    if (exists|j: int| 0 <= j < i + 1 && store@.roles[j] == rv) && (active_only
                        ==> rv.is_active) {
                        let j = choose|j: int| 0 <= j < i + 1 && store@.roles[j] == rv;
                        if j < i {
                            assert(prev.contains(rv));
                        }
                    }
                }
            }
        } else {
            proof {
                assert forall|rv: RoleView|
                    roles_view(acc@).contains(rv) <==> ((exists|j: int|
                        0 <= j < i + 1 && store@.roles[j] == rv) && (active_only
                        ==> rv.is_active)) by {
                    if (exists|j: int| 0 <= j < i + 1 && store@.roles[j] == rv) && (active_only
                        ==> rv.is_active) {
                        let j = choose|j: int| 0 <= j < i + 1 && store@.roles[j] == rv;
                        assert(j < i);
                    }
                }
            }
        }
        i = i + 1;
    }
    proof {
        assert forall|rv: RoleView|
            roles_view(acc@).contains(rv) <==> (store@.roles.contains(rv) && (active_only
                ==> rv.is_active)) by {}
    }
    acc
}

/// The roles currently assigned to a user, ordered by name.
pub fn assigned_roles_by_name(store: &Store, user_id: u128) -> (r: Vec<Role>)
    requires
        store.wf(),
    ensures
        roles_sorted_by_name(roles_view(r@)),
        forall|rv: RoleView|
            roles_view(r@).contains(rv) <==> (store@.roles.contains(rv) && is_assigned(
                store@,
                user_id,
                rv.id,
            )),
{
    let n = store.roles.len();
    let mut acc: Vec<Role> = Vec::new();
    let mut i: usize = 0;
    while i < n
        invariant
            store.wf(),
            i <= n,
            n == store.roles.len(),
            roles_sorted_by_name(roles_view(acc@)),
            forall|rv: RoleView|
                roles_view(acc@).contains(rv) <==> (exists|j: int|
                    0 <= j < i && store@.roles[j] == rv) && is_assigned(store@, user_id, rv.id),
        decreases n - i,
    {
        let ghost prev = roles_view(acc@);
        let rid = store.roles[i].id;
        if store.assigned(user_id, rid) {
            let x = store.roles[i].duplicate();
            proof {
                assert forall|k: int|
                    0 <= k < acc@.len() implies (#[trigger] roles_view(acc@)[k]).name
                    != x@.name by {
                    assert(roles_view(acc@).contains(roles_view(acc@)[k]));
                    let j = choose|j: int| 0 <= j < i && store@.roles[j] == roles_view(acc@)[k];
                    assert(store@.roles[j].name != store@.roles[i as int].name);
                }
            }
            insert_role_by_name(&mut acc, x);
            proof {
                assert forall|rv: RoleView|
                    roles_view(acc@).contains(rv) <==> ((exists|j: int|
                        0 <= j < i + 1 && store@.roles[j] == rv) && is_assigned(
                        store@,
                        user_id,
                        rv.id,
                    )) by {
                    if roles_view(acc@).contains(rv) {
                        if prev.contains(rv) {
                            let j = choose|j: int| 0 <= j < i && store@.roles[j] == rv;
                            assert(0 <= j < i + 1 && store@.roles[j] == rv);
                        } else {
                            assert(rv == store@.roles[i as int]);
                        }
                    }
                    if (exists|j: int| 0 <= j < i + 1 && store@.roles[j] == rv) && is_assigned(
                        store@,
                        user_id,
                        rv.id,
                    ) {
                        let j = choose|j: int| 0 <= j < i + 1 && store@.roles[j] == rv;
                        if j < i {
                            assert(prev.contains(rv));
                        }
                    }
                }
            }
        } else {
            proof {
                assert forall|rv: RoleView|
                    roles_view(acc@).contains(rv) <==> ((exists|j: int|
                        0 <= j < i + 1 && store@.roles[j] == rv) && is_assigned(
                        store@,
                        user_id,
                        rv.id,
                    )) by {
                    if (exists|j: int| 0 <= j < i + 1 && store@.roles[j] == rv) && is_assigned(
                        store@,
                        user_id,
                        rv.id,
                    ) {
                        let j = choose|j: int| 0 <= j < i + 1 && store@.roles[j] == rv;
                        if j == i {
                            assert(store@.roles[i as int].id == rid);
                        }
                    }
                }
            }
        }
        i = i + 1;
    }
    proof {
        assert forall|rv: RoleView|
            roles_view(acc@).contains(rv) <==> (store@.roles.contains(rv) && is_assigned(
                store@,
                user_id,
                rv.id,
            )) by {}
    }
    acc
}

/// The views of a display list, entry by entry.
pub open spec fn displays_view(s: Seq<RoleDisplay>) -> Seq<RoleDisplayView> {
    s.map_values(|d: RoleDisplay| d@)
}

/// Maps roles to their display forms, in order.
pub fn displays_of(roles: Vec<Role>) -> (r: Vec<RoleDisplay>)
    ensures
        r@.len() == roles@.len(),
        forall|k: int| 0 <= k < r@.len() ==> displays_view(r@)[k] == display_of(
            roles_view(roles@)[k],
        ),
{
    let mut out: Vec<RoleDisplay> = Vec::new();
    let n = roles.len();
    let mut i: usize = 0;
    while i < n
        invariant
            i <= n,
            n == roles.len(),
            out@.len() == i,
            forall|k: int| 0 <= k < i ==> displays_view(out@)[k] == display_of(
                roles_view(roles@)[k],
            ),
        decreases n - i,
    {
        let ghost prev = out@;
        let d = RoleDisplay::from(roles[i].duplicate());
        out.push(d);
        proof {
            assert(out@ == prev.push(d));
            assert forall|k: int|
                0 <= k < i + 1 implies displays_view(out@)[k] == display_of(
                roles_view(roles@)[k],
            ) by {
                if k < i {
                    assert(out@[k] == prev[k]);
                    assert(displays_view(out@)[k] == out@[k]@);
                    assert(displays_view(prev)[k] == prev[k]@);
                } else {
                    assert(out@[k] == d);
                    assert(displays_view(out@)[k] == d@);
                    assert(roles_view(roles@)[k] == roles@[k]@);
                }
            }
        }
        i = i + 1;
    }
    out
}

// ---------------------------------------------------------------------
// Users with their roles
// ---------------------------------------------------------------------

#[verifier::ext_equal]
pub ghost struct UserWithRolesView {
    pub id: u128,
    pub email: Seq<char>,
    pub first_name: Seq<char>,
    pub last_name: Seq<char>,
    pub is_active: bool,
    pub is_locked: bool,
    pub last_login: Option<i64>,
    pub locked_at: Option<i64>,
    pub created_at: i64,
    pub updated_at: i64,
    pub roles: Seq<RoleDisplayView>,
    pub permissions: Seq<Seq<char>>,
}

/// A user with its assigned roles (ordered by name) and its effective
/// permission keys (sorted, deduplicated).
pub struct UserWithRoles {
    pub id: u128,
    pub email: String,
    pub first_name: String,
    pub last_name: String,
    pub is_active: bool,
    pub is_locked: bool,
    pub last_login: Option<i64>,
    pub locked_at: Option<i64>,
    pub created_at: i64,
    pub updated_at: i64,
    pub roles: Vec<RoleDisplay>,
    pub permissions: Vec<String>,
}

impl View for UserWithRoles {
    type V = UserWithRolesView;

    open spec fn view(&self) -> UserWithRolesView {
        UserWithRolesView {
            id: self.id,
            email: self.email@,
            first_name: self.first_name@,
            last_name: self.last_name@,
            is_active: self.is_active,
            is_locked: self.is_locked,
            last_login: self.last_login,
            locked_at: self.locked_at,
            created_at: self.created_at,
            updated_at: self.updated_at,
            roles: displays_view(self.roles@),
            permissions: strs_view(self.permissions@),
        }
    }
}

/// `w` faithfully lists user `uv` against store `s`: the account fields,
/// the displays of exactly the roles assigned to the user in name order,
/// and exactly the user's effective permissions, sorted and deduplicated.
pub open spec fn user_listing_ok(s: StoreView, uv: UserView, w: UserWithRolesView) -> bool {
    &&& w.id == uv.id
    &&& w.email == uv.email
    &&& w.first_name == uv.first_name
    &&& w.last_name == uv.last_name
    &&& w.is_active == uv.is_active
    &&& w.is_locked == uv.is_locked
    &&& w.last_login == uv.last_login
    &&& w.locked_at == uv.locked_at
    &&& w.created_at == uv.created_at
    &&& w.updated_at == uv.updated_at
    &&& forall|i: int, j: int| 0 <= i < j < w.roles.len() ==> lex_lt(w.roles[i].name, w.roles[j].name)
    &&& forall|d: RoleDisplayView|
        w.roles.contains(d) <==> (exists|rv: RoleView|
            s.roles.contains(rv) && is_assigned(s, uv.id, rv.id) && d == #[trigger] display_of(rv))
    &&& strictly_sorted(w.permissions)
    &&& forall|p: Seq<char>|
        w.permissions.contains(p) <==> effective_permissions(s, uv.id).contains(p)
}

/// Builds the listing of one user: assigned roles in name order, and the
/// effective permissions.
fn build_user_listing(store: &Store, user: &User) -> (r: UserWithRoles)
    requires
        store.wf(),
    ensures
        user_listing_ok(store@, user@, r@),
{
    let roles = assigned_roles_by_name(store, user.id);
    let ghost rolesv = roles_view(roles@);
    let displays = displays_of(roles);
    let permissions = get_user_permissions(store, user.id);
    let u = user.duplicate();
    let r = UserWithRoles {
        id: u.id,
        email: u.email,
        first_name: u.first_name,
        last_name: u.last_name,
        is_active: u.is_active,
        is_locked: u.is_locked,
        last_login: u.last_login,
        locked_at: u.locked_at,
        created_at: u.created_at,
        updated_at: u.updated_at,
        roles: displays,
        permissions: permissions,
    };
    proof {
        let w = r@;
        assert forall|i: int, j: int|
            0 <= i < j < w.roles.len() implies lex_lt(w.roles[i].name, w.roles[j].name) by {
            assert(w.roles[i] == display_of(rolesv[i]));
            assert(w.roles[j] == display_of(rolesv[j]));
            assert(lex_lt(rolesv[i].name, rolesv[j].name));
        }
        assert forall|d: RoleDisplayView|
            w.roles.contains(d) <==> (exists|rv: RoleView|
                store@.roles.contains(rv) && is_assigned(store@, user@.id, rv.id) && d
                    == #[trigger] display_of(rv)) by {
            if w.roles.contains(d) {
                let k = choose|k: int| 0 <= k < w.roles.len() && w.roles[k] == d;
                assert(w.roles[k] == display_of(rolesv[k]));
                assert(rolesv.contains(rolesv[k]));
                assert(store@.roles.contains(rolesv[k]) && is_assigned(
                    store@,
                    user@.id,
                    rolesv[k].id,
                ));
                assert(d == display_of(rolesv[k]));
            }
            if exists|rv: RoleView|
                store@.roles.contains(rv) && is_assigned(store@, user@.id, rv.id) && d
                    == #[trigger] display_of(rv) {
                let rv = choose|rv: RoleView|
                    store@.roles.contains(rv) && is_assigned(store@, user@.id, rv.id) && d
                        == display_of(rv);
                assert(rolesv.contains(rv));
                let k = choose|k: int| 0 <= k < rolesv.len() && rolesv[k] == rv;
                assert(w.roles[k] == display_of(rv));
                assert(w.roles.contains(d));
            }
        }
    }
    r
}

/// The listing of one user, by id: the account with its assigned roles
/// and effective permissions, locked or not, active or not.
pub fn get_user_with_roles(store: &Store, user_id: u128) -> (r: Result<UserWithRoles, Error>)
    requires
        store.wf(),
    ensures
        match r {
            Ok(w) => user_exists(store@, user_id) && user_listing_ok(
                store@,
                user_by_id(store@, user_id),
                w@,
            ),
            Err(e) => e == Error::NotFound && !user_exists(store@, user_id),
        },
{
    match store.find_user_by_id(user_id) {
        Some(user) => Ok(build_user_listing(store, user)),
        None => Err(Error::NotFound),
    }
}

// ---------------------------------------------------------------------
// Users ordered by name
// ---------------------------------------------------------------------

/// No name inversion: each user's (first name, last name) pair is not
/// below any earlier one.
pub open spec fn users_sorted_by_name(s: Seq<UserView>) -> bool {
    forall|i: int, j: int|
        0 <= i < j < s.len() ==> !pair_lt(
            s[j].first_name,
            s[j].last_name,
            s[i].first_name,
            s[i].last_name,
        )
}

/// The first position whose user's name pair is strictly above the given
/// one.
fn user_upper_bound(v: &Vec<User>, first: &str, last: &str) -> (k: usize)
    requires
        users_sorted_by_name(users_view(v@)),
    ensures
        k <= v.len(),
        forall|j: int|
            0 <= j < k ==> !pair_lt(
                first@,
                last@,
                users_view(v@)[j].first_name,
                users_view(v@)[j].last_name,
            ),
        k < v.len() ==> pair_lt(
            first@,
            last@,
            users_view(v@)[k as int].first_name,
            users_view(v@)[k as int].last_name,
        ),
{
    let n = v.len();
    let mut k: usize = 0;
    while k < n
        invariant
            k <= n,
            n == v.len(),
            users_sorted_by_name(users_view(v@)),
            forall|j: int|
                0 <= j < k ==> !pair_lt(
                    first@,
                    last@,
                    users_view(v@)[j].first_name,
                    users_view(v@)[j].last_name,
                ),
        decreases n - k,
    {
        proof {
            assert(users_view(v@)[k as int] == v@[k as int]@);
        }
        if str_pair_lt(first, last, v[k].first_name.as_str(), v[k].last_name.as_str()) {
            return k;
        }
        k = k + 1;
    }
    k
}

/// Inserts a user into a list ordered by name.
fn insert_user_by_name(v: &mut Vec<User>, x: User)
    requires
        users_sorted_by_name(users_view(old(v)@)),
    ensures
        users_sorted_by_name(users_view(final(v)@)),
        final(v)@.len() == old(v)@.len() + 1,
        forall|uv: UserView|
            users_view(final(v)@).contains(uv) <==> (users_view(old(v)@).contains(uv) || uv
                == x@),
        ((forall|k1: int, k2: int|
            0 <= k1 < k2 < old(v)@.len() ==> users_view(old(v)@)[k1].id != users_view(
                old(v)@,
            )[k2].id) && (forall|k: int|
            0 <= k < old(v)@.len() ==> users_view(old(v)@)[k].id != x@.id)) ==> (forall|
            k1: int,
            k2: int,
        |
            0 <= k1 < k2 < final(v)@.len() ==> users_view(final(v)@)[k1].id != users_view(
                final(v)@,
            )[k2].id),
{
    let ghost olds = users_view(old(v)@);
    let k = user_upper_bound(v, x.first_name.as_str(), x.last_name.as_str());
    v.insert(k, x);
    proof {
        let news = users_view(v@);
        assert(v@ == old(v)@.insert(k as int, x));
        assert(news.len() == olds.len() + 1);
        assert forall|i: int| 0 <= i < k implies news[i] == olds[i] by {
            assert(v@[i] == old(v)@[i]);
        }
        assert(news[k as int] == x@);
        assert forall|i: int| k < i < news.len() implies news[i] == olds[i - 1] by {
            assert(v@[i] == old(v)@[i - 1]);
        }
        assert forall|i: int, j: int|
            0 <= i < j < news.len() implies !pair_lt(
            news[j].first_name,
            news[j].last_name,
            news[i].first_name,
            news[i].last_name,
        ) by {
            if j < k {
                assert(news[i] == olds[i] && news[j] == olds[j]);
            } else if j == k {
                // x is not below any kept prefix entry
                assert(news[i] == olds[i]);
                assert(!pair_lt(x@.first_name, x@.last_name, olds[i].first_name, olds[i].last_name));
            } else {
                assert(news[j] == olds[j - 1]);
                if i == k {
                    // olds[j-1] is not below x: x lies strictly below olds[k],
                    // which itself is not below olds[j-1]
                    assert(k < olds.len());
                    assert(pair_lt(
                        x@.first_name,
                        x@.last_name,
                        olds[k as int].first_name,
                        olds[k as int].last_name,
                    ));
                    if pair_lt(olds[j - 1].first_name, olds[j - 1].last_name, x@.first_name, x@.last_name) {
                        lemma_pair_lt_trans(
                            olds[j - 1].first_name,
                            olds[j - 1].last_name,
                            x@.first_name,
                            x@.last_name,
                            olds[k as int].first_name,
                            olds[k as int].last_name,
                        );
                        if j - 1 == k {
                            crate::order::lemma_lex_lt_irrefl(olds[k as int].first_name);
                            crate::order::lemma_lex_lt_irrefl(olds[k as int].last_name);
                        } else {
                            assert(!pair_lt(
                                olds[j - 1].first_name,
                                olds[j - 1].last_name,
                                olds[k as int].first_name,
                                olds[k as int].last_name,
                            ));
                        }
                    }
                } else if i < k {
                    assert(news[i] == olds[i]);
                    assert(!pair_lt(
                        olds[j - 1].first_name,
                        olds[j - 1].last_name,
                        olds[i].first_name,
                        olds[i].last_name,
                    ));
                } else {
                    assert(news[i] == olds[i - 1]);
                    assert(!pair_lt(
                        olds[j - 1].first_name,
                        olds[j - 1].last_name,
                        olds[i - 1].first_name,
                        olds[i - 1].last_name,
                    ));
                }
            }
        }
        assert forall|uv: UserView|
            news.contains(uv) <==> (olds.contains(uv) || uv == x@) by {
            if news.contains(uv) {
                let i = choose|i: int| 0 <= i < news.len() && news[i] == uv;
                if i < k {
                    assert(olds[i] == uv);
                    assert(olds.contains(uv));
                } else if i > k {
                    assert(olds[i - 1] == uv);
                    assert(olds.contains(uv));
                }
            }
            if olds.contains(uv) {
                let i = choose|i: int| 0 <= i < olds.len() && olds[i] == uv;
                if i < k {
                    assert(news[i] == uv);
                } else {
                    assert(news[i + 1] == uv);
                }
                assert(news.contains(uv));
            }
            if uv == x@ {
                assert(news[k as int] == uv);
                assert(news.contains(uv));
            }
        }
        if (forall|k1: int, k2: int| 0 <= k1 < k2 < olds.len() ==> olds[k1].id != olds[k2].id) && (
        forall|k: int| 0 <= k < olds.len() ==> olds[k].id != x@.id) {
            assert forall|k1: int, k2: int|
                0 <= k1 < k2 < news.len() implies news[k1].id != news[k2].id by {
                let o1: int = if k1 < k { k1 } else { k1 - 1 };
                let o2: int = if k2 < k { k2 } else { k2 - 1 };
                if k1 == k {
                    assert(news[k2] == olds[o2]);
                } else if k2 == k {
                    assert(news[k1] == olds[o1]);
                } else {
                    assert(news[k1] == olds[o1] && news[k2] == olds[o2]);
                }
            }
        }
    }
}

/// The users of the store ordered by first and then last name.
pub fn users_by_name(store: &Store) -> (r: Vec<User>)
    requires
        store.wf(),
    ensures
        users_sorted_by_name(users_view(r@)),
        r@.len() == store@.users.len(),
        forall|uv: UserView| users_view(r@).contains(uv) <==> store@.users.contains(uv),
        forall|k1: int, k2: int|
            0 <= k1 < k2 < r@.len() ==> users_view(r@)[k1].id != users_view(r@)[k2].id,
{
    let n = store.users.len();
    let mut acc: Vec<User> = Vec::new();
    let mut i: usize = 0;
    while i < n
        invariant
            store.wf(),
            i <= n,
            n == store.users.len(),
            users_sorted_by_name(users_view(acc@)),
            acc@.len() == i,
            forall|uv: UserView|
                users_view(acc@).contains(uv) <==> (exists|j: int|
                    0 <= j < i && store@.users[j] == uv),
            forall|k1: int, k2: int|
                0 <= k1 < k2 < acc@.len() ==> users_view(acc@)[k1].id != users_view(acc@)[k2].id,
        decreases n - i,
    {
        let ghost prev = users_view(acc@);
        let x = store.users[i].duplicate();
        proof {
            assert forall|k: int|
                0 <= k < acc@.len() implies users_view(acc@)[k].id != x@.id by {
                assert(users_view(acc@).contains(users_view(acc@)[k]));
                let j = choose|j: int| 0 <= j < i && store@.users[j] == users_view(acc@)[k];
                assert(store@.users[j].id != store@.users[i as int].id);
            }
        }
        insert_user_by_name(&mut acc, x);
        proof {
            assert forall|uv: UserView|
                users_view(acc@).contains(uv) <==> (exists|j: int|
                    0 <= j < i + 1 && store@.users[j] == uv) by {
                if users_view(acc@).contains(uv) {
                    if prev.contains(uv) {
                        let j = choose|j: int| 0 <= j < i && store@.users[j] == uv;
                        assert(0 <= j < i + 1 && store@.users[j] == uv);
                    } else {
                        assert(uv == store@.users[i as int]);
                    }
                }
                if exists|j: int| 0 <= j < i + 1 && store@.users[j] == uv {
                    let j = choose|j: int| 0 <= j < i + 1 && store@.users[j] == uv;
                    if j < i {
                        assert(prev.contains(uv));
                    }
                }
            }
        }
        i = i + 1;
    }
    proof {
        assert forall|uv: UserView|
            users_view(acc@).contains(uv) <==> store@.users.contains(uv) by {}
    }
    acc
}

/// `w` is the listing of one of the store's users.
pub open spec fn listing_of_some_user(s: StoreView, w: UserWithRolesView) -> bool {
    exists|j: int| 0 <= j < s.users.len() && user_listing_ok(s, #[trigger] s.users[j], w)
}

pub open spec fn listings_view(s: Seq<UserWithRoles>) -> Seq<UserWithRolesView> {
    s.map_values(|w: UserWithRoles| w@)
}

/// Some listing in the sequence carries the id.
pub open spec fn id_listed(ws: Seq<UserWithRolesView>, id: u128) -> bool {
    exists|k: int| 0 <= k < ws.len() && (#[trigger] ws[k]).id == id
}

/// Every user of the store, ordered by first and then last name, each
/// with its assigned roles and effective permissions.
pub fn get_users_with_roles(store: &Store) -> (r: Vec<UserWithRoles>)
    requires
        store.wf(),
    ensures
        r@.len() == store@.users.len(),
        forall|k: int|
            0 <= k < r@.len() ==> listing_of_some_user(store@, #[trigger] listings_view(r@)[k]),
        forall|j: int|
            0 <= j < store@.users.len() ==> id_listed(
                listings_view(r@),
                (#[trigger] store@.users[j]).id,
            ),
        forall|i: int, j: int|
            0 <= i < j < r@.len() ==> !pair_lt(
                listings_view(r@)[j].first_name,
                listings_view(r@)[j].last_name,
                listings_view(r@)[i].first_name,
                listings_view(r@)[i].last_name,
            ),
{
    let sorted = users_by_name(store);
    let ghost sortedv = users_view(sorted@);
    let n = sorted.len();
    let mut out: Vec<UserWithRoles> = Vec::new();
    let mut i: usize = 0;
    while i < n
        invariant
            store.wf(),
            i <= n,
            n == sorted.len(),
            users_sorted_by_name(sortedv),
            sortedv == users_view(sorted@),
            sortedv.len() == store@.users.len(),
            forall|uv: UserView| sortedv.contains(uv) <==> store@.users.contains(uv),
            out@.len() == i,
            forall|k: int|
                0 <= k < i ==> user_listing_ok(store@, sortedv[k], (#[trigger] out@[k])@),
        decreases n - i,
    {
        proof {
            assert(sortedv[i as int] == sorted@[i as int]@);
        }
        let w = build_user_listing(store, &sorted[i]);
        out.push(w);
        i = i + 1;
    }
    proof {
        assert forall|k: int|
            0 <= k < out@.len() implies listing_of_some_user(
            store@,
            #[trigger] listings_view(out@)[k],
        ) by {
            assert(listings_view(out@)[k] == out@[k]@);
            assert(user_listing_ok(store@, sortedv[k], out@[k]@));
            assert(sortedv.contains(sortedv[k]));
            let j = choose|j: int| 0 <= j < store@.users.len() && store@.users[j] == sortedv[k];
            assert(user_listing_ok(store@, store@.users[j], out@[k]@));
        }
        assert forall|j: int|
            0 <= j < store@.users.len() implies id_listed(
            listings_view(out@),
            (#[trigger] store@.users[j]).id,
        ) by {
            assert(store@.users.contains(store@.users[j]));
            let k = choose|k: int| 0 <= k < sortedv.len() && sortedv[k] == store@.users[j];
            assert(user_listing_ok(store@, sortedv[k], out@[k]@));
            assert(listings_view(out@)[k] == out@[k]@);
            assert(listings_view(out@)[k].id == store@.users[j].id);
        }
        assert forall|i2: int, j2: int|
            0 <= i2 < j2 < out@.len() implies !pair_lt(
            listings_view(out@)[j2].first_name,
            listings_view(out@)[j2].last_name,
            listings_view(out@)[i2].first_name,
            listings_view(out@)[i2].last_name,
        ) by {
            assert(listings_view(out@)[i2] == out@[i2]@);
            assert(listings_view(out@)[j2] == out@[j2]@);
            assert(user_listing_ok(store@, sortedv[i2], out@[i2]@));
            assert(user_listing_ok(store@, sortedv[j2], out@[j2]@));
            assert(!pair_lt(
                sortedv[j2].first_name,
                sortedv[j2].last_name,
                sortedv[i2].first_name,
                sortedv[i2].last_name,
            ));
        }
    }
    out
}

// ---------------------------------------------------------------------
// Unions over displays
// ---------------------------------------------------------------------

/// A key granted by at least one of the displayed roles, active or not.
pub open spec fn display_union(rs: Seq<RoleDisplayView>) -> Set<Seq<char>> {
    Set::new(
        |p: Seq<char>|
            exists|j: int| 0 <= j < rs.len() && (#[trigger] rs[j]).permissions.contains(p),
    )
}

/// The union of the permission lists of the displayed roles, sorted and
/// deduplicated. Unlike the effective permissions, this reads every
/// listed role, active or not.
pub fn get_user_permissions_from_roles(roles: &Vec<RoleDisplay>) -> (r: Vec<String>)
    ensures
        strictly_sorted(strs_view(r@)),
        forall|p: Seq<char>|
            strs_view(r@).contains(p) <==> display_union(displays_view(roles@)).contains(p),
{
    let mut acc: Vec<String> = Vec::new();
    let n = roles.len();
    let mut i: usize = 0;
    while i < n
        invariant
            i <= n,
            n == roles.len(),
            strictly_sorted(strs_view(acc@)),
            forall|p: Seq<char>|
                strs_view(acc@).contains(p) <==> (exists|j: int|
                    0 <= j < i && (#[trigger] displays_view(roles@)[j]).permissions.contains(p)),
        decreases n - i,
    {
        let m = roles[i].permissions.len();
        let mut j: usize = 0;
        while j < m
            invariant
                i < n,
                n == roles.len(),
                j <= m,
                m == roles@[i as int].permissions.len(),
                strictly_sorted(strs_view(acc@)),
                forall|p: Seq<char>|
                    strs_view(acc@).contains(p) <==> ((exists|l: int|
                        0 <= l < i && (#[trigger] displays_view(roles@)[l]).permissions.contains(
                            p,
                        )) || (exists|l: int|
                        0 <= l < j && displays_view(roles@)[i as int].permissions[l] == p)),
            decreases m - j,
        {
            let key = roles[i].permissions[j].clone();
            proof {
                assert(key@ == displays_view(roles@)[i as int].permissions[j as int]);
            }
            insert_sorted_unique(&mut acc, key);
            proof {
                assert forall|p: Seq<char>|
                    strs_view(acc@).contains(p) <==> ((exists|l: int|
                        0 <= l < i && (#[trigger] displays_view(roles@)[l]).permissions.contains(
                            p,
                        )) || (exists|l: int|
                        0 <= l < j + 1 && displays_view(roles@)[i as int].permissions[l]
                            == p)) by {
                    if p == displays_view(roles@)[i as int].permissions[j as int] {
                        assert(displays_view(roles@)[i as int].permissions[j as int] == p);
                    }
                }
            }
            j = j + 1;
        }
        proof {
            assert forall|p: Seq<char>|
                strs_view(acc@).contains(p) <==> (exists|l: int|
                    0 <= l < i + 1 && (#[trigger] displays_view(roles@)[l]).permissions.contains(
                        p,
                    )) by {
                if exists|l: int|
                    0 <= l < i + 1 && (#[trigger] displays_view(roles@)[l]).permissions.contains(
                        p,
                    ) {
                    let l = choose|l: int|
                        0 <= l < i + 1 && (#[trigger] displays_view(roles@)[l]).permissions.contains(
                            p,
                        );
                    if l == i {
                        let x = choose|x: int|
                            0 <= x < displays_view(roles@)[l].permissions.len() && displays_view(
                                roles@,
                            )[l].permissions[x] == p;
                        assert(strs_view(acc@).contains(p));
                    }
                }
                if strs_view(acc@).contains(p) {
                    if exists|l: int|
                        0 <= l < j && displays_view(roles@)[i as int].permissions[l] == p {
                        assert(displays_view(roles@)[i as int].permissions.contains(p));
                    }
                }
            }
        }
        i = i + 1;
    }
    acc
}

/// Does the list carry the value? The pages use this to mark the boxes
/// of a role's keys.
pub fn contains(s: &Vec<String>, v: &str) -> (r: bool)
    ensures
        r == strs_view(s@).contains(v@),
{
    crate::identity::has_permission(s, v)
}

/// `ds` lists, in name order, the displays of exactly the store's roles,
/// or of just the active ones.
pub open spec fn role_listing_ok(s: StoreView, active_only: bool, ds: Seq<RoleDisplayView>) -> bool {
    &&& forall|i: int, j: int| 0 <= i < j < ds.len() ==> lex_lt(ds[i].name, ds[j].name)
    &&& forall|d: RoleDisplayView|
        ds.contains(d) <==> (exists|rv: RoleView|
            s.roles.contains(rv) && (active_only ==> rv.is_active) && d == #[trigger] display_of(
                rv,
            ))
}

/// The displays of the store's roles ordered by name; with
/// `active_only`, just the active ones.
pub fn role_listing(store: &Store, active_only: bool) -> (r: Vec<RoleDisplay>)
    requires
        store.wf(),
    ensures
        role_listing_ok(store@, active_only, displays_view(r@)),
{
    let roles = roles_by_name(store, active_only);
    let ghost rolesv = roles_view(roles@);
    let displays = displays_of(roles);
    proof {
        let ds = displays_view(displays@);
        assert forall|i: int, j: int|
            0 <= i < j < ds.len() implies lex_lt(ds[i].name, ds[j].name) by {
            assert(ds[i] == display_of(rolesv[i]));
            assert(ds[j] == display_of(rolesv[j]));
            assert(lex_lt(rolesv[i].name, rolesv[j].name));
        }
        assert forall|d: RoleDisplayView|
            ds.contains(d) <==> (exists|rv: RoleView|
                store@.roles.contains(rv) && (active_only ==> rv.is_active) && d
                    == #[trigger] display_of(rv)) by {
            if ds.contains(d) {
                let k = choose|k: int| 0 <= k < ds.len() && ds[k] == d;
                assert(ds[k] == display_of(rolesv[k]));
                assert(rolesv.contains(rolesv[k]));
                assert(store@.roles.contains(rolesv[k]) && (active_only ==> rolesv[k].is_active));
                assert(d == display_of(rolesv[k]));
            }
            if exists|rv: RoleView|
                store@.roles.contains(rv) && (active_only ==> rv.is_active) && d
                    == #[trigger] display_of(rv) {
                let rv = choose|rv: RoleView|
                    store@.roles.contains(rv) && (active_only ==> rv.is_active) && d == display_of(
                        rv,
                    );
                assert(rolesv.contains(rv));
                let k = choose|k: int| 0 <= k < rolesv.len() && rolesv[k] == rv;
                assert(ds[k] == display_of(rv));
                assert(ds.contains(d));
            }
        }
    }
    displays
}

} // verus!
