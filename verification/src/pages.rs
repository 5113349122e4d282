//! The gated team pages: the data each page of the team area shows, with
//! its permission gate applied first.

use vstd::prelude::*;

use crate::catalog::{catalog, get_all_permissions, perms_view, Permission};
use crate::display::{
    display_of, role_listing, role_listing_ok, displays_view, get_user_with_roles,
    get_users_with_roles, id_listed, listing_of_some_user, listings_view, RoleDisplay,
    UserWithRoles,
};
use crate::error::Error;
use crate::gate::{authorize, authorize_spec, opt_view};
use crate::identity::CurrentUser;
use crate::model::{clone_string_vec, strs_view};
use crate::store::{role_by_id, role_exists, user_by_id, user_exists, Store, StoreView};

verus! {

/// The headline counts of the team dashboard.
#[derive(Clone, Copy, PartialEq, Eq, Structural, Debug)]
pub struct TeamStats {
    pub user_count: usize,
    pub role_count: usize,
    pub locked_user_count: usize,
}

pub open spec fn spec_active_role_count(s: StoreView) -> int {
    s.roles.filter(|r: crate::model::RoleView| r.is_active).len() as int
}

pub open spec fn spec_locked_user_count(s: StoreView) -> int {
    s.users.filter(|u: crate::model::UserView| u.is_locked).len() as int
}

/// The team dashboard: how many accounts there are, how many roles are
/// active, and how many accounts are locked. Requires team-read.
pub fn team_dashboard(store: &Store, identity: Option<&CurrentUser>) -> (r: Result<
    TeamStats,
    Error,
>)
    requires
        store.wf(),
    ensures
        match r {
            Ok(st) => authorize_spec(opt_view(identity), "team:read"@) is Ok && st.user_count
                == store@.users.len() && st.role_count == spec_active_role_count(store@)
                && st.locked_user_count == spec_locked_user_count(store@),
            Err(e) => authorize_spec(opt_view(identity), "team:read"@) == Err::<(), Error>(e),
        },
{
    match authorize(identity, "team:read") {
        Err(e) => {
            return Err(e);
        },
        Ok(()) => {},
    }
    let user_count = store.users.len();

    let ghost rpred = |x: crate::model::RoleView| x.is_active;
    let mut role_count: usize = 0;
    let n = store.roles.len();
    let mut i: usize = 0;
    proof {
        assert(store@.roles.take(0) =~= Seq::<crate::model::RoleView>::empty());
        reveal_with_fuel(Seq::filter, 1);
    }
    while i < n
        invariant
            store.wf(),
            i <= n,
            n == store.roles.len(),
            rpred == (|x: crate::model::RoleView| x.is_active),
            role_count <= i,
            role_count as int == store@.roles.take(i as int).filter(rpred).len(),
        decreases n - i,
    {
        proof {
            assert(store@.roles.take(i + 1) =~= store@.roles.take(i as int).push(
                store@.roles[i as int],
            ));
            crate::assign::lemma_filter_push(store@.roles.take(i as int), store@.roles[i as int], rpred);
        }
        if store.roles[i].is_active {
            role_count = role_count + 1;
        }
        i = i + 1;
    }
    proof {
        assert(store@.roles.take(n as int) =~= store@.roles);
    }

    let ghost upred = |x: crate::model::UserView| x.is_locked;
    let mut locked_user_count: usize = 0;
    let m = store.users.len();
    let mut t: usize = 0;
    proof {
        assert(store@.users.take(0) =~= Seq::<crate::model::UserView>::empty());
    }
    while t < m
        invariant
            store.wf(),
            t <= m,
            m == store.users.len(),
            upred == (|x: crate::model::UserView| x.is_locked),
            locked_user_count <= t,
            locked_user_count as int == store@.users.take(t as int).filter(upred).len(),
        decreases m - t,
    {
        proof {
            assert(store@.users.take(t + 1) =~= store@.users.take(t as int).push(
                store@.users[t as int],
            ));
            crate::assign::lemma_filter_push(store@.users.take(t as int), store@.users[t as int], upred);
        }
        if store.users[t].is_locked {
            locked_user_count = locked_user_count + 1;
        }
        t = t + 1;
    }
    proof {
        assert(store@.users.take(m as int) =~= store@.users);
    }

    Ok(TeamStats { user_count, role_count, locked_user_count })
}

/// The user management page: every account with its roles and effective
/// permissions, ordered by name. Requires team-read.
pub fn users_list(store: &Store, identity: Option<&CurrentUser>) -> (r: Result<
    Vec<UserWithRoles>,
    Error,
>)
    requires
        store.wf(),
    ensures
        match r {
            Ok(v) => authorize_spec(opt_view(identity), "team:read"@) is Ok && v@.len()
                == store@.users.len() && (forall|k: int|
                0 <= k < v@.len() ==> listing_of_some_user(
                    store@,
                    #[trigger] listings_view(v@)[k],
                )) && (forall|j: int|
                0 <= j < store@.users.len() ==> id_listed(
                    listings_view(v@),
                    (#[trigger] store@.users[j]).id,
                )),
            Err(e) => authorize_spec(opt_view(identity), "team:read"@) == Err::<(), Error>(e),
        },
{
    match authorize(identity, "team:read") {
        Err(e) => {
            return Err(e);
        },
        Ok(()) => {},
    }
    Ok(get_users_with_roles(store))
}

/// The new-user form: the active roles on offer, ordered by name.
/// Requires team-write.
pub fn user_form(store: &Store, identity: Option<&CurrentUser>) -> (r: Result<
    Vec<RoleDisplay>,
    Error,
>)
    requires
        store.wf(),
    ensures
        match r {
            Ok(v) => authorize_spec(opt_view(identity), "team:write"@) is Ok && role_listing_ok(
                store@,
                true,
                displays_view(v@),
            ),
            Err(e) => authorize_spec(opt_view(identity), "team:write"@) == Err::<(), Error>(e),
        },
{
    match authorize(identity, "team:write") {
        Err(e) => {
            return Err(e);
        },
        Ok(()) => {},
    }
    Ok(role_listing(store, true))
}

/// The edit-user form: the account with its roles, and the active roles
/// on offer. Requires team-write; a missing account is not found.
pub fn user_edit_form(store: &Store, identity: Option<&CurrentUser>, user_id: u128) -> (r: Result<
    (UserWithRoles, Vec<RoleDisplay>),
    Error,
>)
    requires
        store.wf(),
    ensures
        match r {
            Ok(p) => authorize_spec(opt_view(identity), "team:write"@) is Ok && user_exists(
                store@,
                user_id,
            ) && crate::display::user_listing_ok(store@, user_by_id(store@, user_id), p.0@)
                && role_listing_ok(store@, true, displays_view(p.1@)),
            Err(e) => match authorize_spec(opt_view(identity), "team:write"@) {
                Err(g) => e == g,
                Ok(()) => e == Error::NotFound && !user_exists(store@, user_id),
            },
        },
{
    match authorize(identity, "team:write") {
        Err(e) => {
            return Err(e);
        },
        Ok(()) => {},
    }
    let user = match get_user_with_roles(store, user_id) {
        Ok(u) => u,
        Err(e) => {
            return Err(e);
        },
    };
    Ok((user, role_listing(store, true)))
}

/// The role management page: every role, ordered by name. Requires
/// manage-roles.
pub fn roles_list(store: &Store, identity: Option<&CurrentUser>) -> (r: Result<
    Vec<RoleDisplay>,
    Error,
>)
    requires
        store.wf(),
    ensures
        match r {
            Ok(v) => authorize_spec(opt_view(identity), "team:manage_roles"@) is Ok
                && role_listing_ok(store@, false, displays_view(v@)),
            Err(e) => authorize_spec(opt_view(identity), "team:manage_roles"@) == Err::<
                (),
                Error,
            >(e),
        },
{
    match authorize(identity, "team:manage_roles") {
        Err(e) => {
            return Err(e);
        },
        Ok(()) => {},
    }
    Ok(role_listing(store, false))
}

/// The new-role form: the permission catalog to choose from. Requires
/// manage-roles.
pub fn role_form(store: &Store, identity: Option<&CurrentUser>) -> (r: Result<
    Vec<Permission>,
    Error,
>)
    requires
        store.wf(),
    ensures
        match r {
            Ok(v) => authorize_spec(opt_view(identity), "team:manage_roles"@) is Ok && perms_view(
                v@,
            ) == catalog(),
            Err(e) => authorize_spec(opt_view(identity), "team:manage_roles"@) == Err::<
                (),
                Error,
            >(e),
        },
{
    match authorize(identity, "team:manage_roles") {
        Err(e) => {
            return Err(e);
        },
        Ok(()) => {},
    }
    Ok(get_all_permissions())
}

/// The edit-role form: the role's display, the catalog, and the role's
/// own keys for marking the boxes. Requires manage-roles; a missing role
/// is not found.
pub fn role_edit_form(store: &Store, identity: Option<&CurrentUser>, role_id: u128) -> (r: Result<
    (RoleDisplay, Vec<Permission>, Vec<String>),
    Error,
>)
    requires
        store.wf(),
    ensures
        match r {
            Ok(p) => authorize_spec(opt_view(identity), "team:manage_roles"@) is Ok && role_exists(
                store@,
                role_id,
            ) && p.0@ == display_of(role_by_id(store@, role_id)) && perms_view(p.1@) == catalog()
                && strs_view(p.2@) == role_by_id(store@, role_id).permissions,
            Err(e) => match authorize_spec(opt_view(identity), "team:manage_roles"@) {
                Err(g) => e == g,
                Ok(()) => e == Error::NotFound && !role_exists(store@, role_id),
            },
        },
{
    match authorize(identity, "team:manage_roles") {
        Err(e) => {
            return Err(e);
        },
        Ok(()) => {},
    }
    let role = match store.find_role_by_id(role_id) {
        Some(x) => x.duplicate(),
        None => {
            return Err(Error::NotFound);
        },
    };
    let role_permissions = clone_string_vec(&role.permissions);
    proof {
        assert(strs_view(role_permissions@) =~= role_by_id(store@, role_id).permissions);
    }
    Ok((RoleDisplay::from(role), get_all_permissions(), role_permissions))
}

} // verus!
