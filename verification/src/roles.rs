//! Role administration: create, update and delete, behind the
//! manage-roles gate. Stored permission lists are kept as deduplicated,
//! sorted sets of keys; no check ties them to the catalog, by design.

use vstd::prelude::*;
use vstd::string::StringExecFns;

use crate::audit::audit_tr;
use crate::error::Error;
use crate::gate::{authorize, authorize_spec, opt_view};
use crate::identity::CurrentUser;
use crate::model::{strictly_sorted, strs_view, Role, RoleForm, RoleView};
use crate::perms::insert_sorted_unique;
use crate::store::{
    role_exists, role_in_use, role_name_exists, role_name_taken_by_other, user_exists, wf_store,
    Store, StoreView,
};

verus! {

/// The stored form of a permission list: the same keys, deduplicated and
/// sorted.
pub fn normalize_keys(keys: &Vec<String>) -> (r: Vec<String>)
    ensures
        strictly_sorted(strs_view(r@)),
        forall|p: Seq<char>| strs_view(r@).contains(p) <==> strs_view(keys@).contains(p),
{
    let n = keys.len();
    let mut out: Vec<String> = Vec::new();
    let mut i: usize = 0;
    while i < n
        invariant
            i <= n,
            n == keys.len(),
            strictly_sorted(strs_view(out@)),
            forall|p: Seq<char>|
                strs_view(out@).contains(p) <==> (exists|j: int|
                    0 <= j < i && strs_view(keys@)[j] == p),
        decreases n - i,
    {
        insert_sorted_unique(&mut out, keys[i].clone());
        proof {
            assert forall|p: Seq<char>|
                strs_view(out@).contains(p) <==> (exists|j: int|
                    0 <= j < i + 1 && strs_view(keys@)[j] == p) by {
                if p == keys@[i as int]@ {
                    assert(strs_view(keys@)[i as int] == p);
                }
            }
        }
        i = i + 1;
    }
    out
}

/// The description as stored: empty text reads as no description.
pub open spec fn stored_description(d: Seq<char>) -> Option<Seq<char>> {
    if d.len() == 0 {
        None
    } else {
        Some(d)
    }
}

/// The role a create writes: a fresh id, the given fields, both
/// timestamps at `now`, created by the actor.
pub open spec fn new_role_of(
    s: StoreView,
    name: Seq<char>,
    desc: Option<Seq<char>>,
    perms: Seq<Seq<char>>,
    active: bool,
    actor: u128,
    now: i64,
) -> RoleView {
    RoleView {
        id: s.next_id,
        name: name,
        description: desc,
        permissions: perms,
        is_active: active,
        created_at: now,
        updated_at: now,
        created_by: Some(actor),
    }
}

/// What creating a role does: the role inserted and the creation
/// audited, with the form's fields as submitted in the audit payload.
pub open spec fn create_role_tr(
    s: StoreView,
    actor: u128,
    name: Seq<char>,
    desc: Option<Seq<char>>,
    perms: Seq<Seq<char>>,
    active: bool,
    form_desc: Seq<char>,
    form_perms: Seq<Seq<char>>,
    now: i64,
) -> StoreView {
    audit_tr(
        StoreView {
            roles: s.roles.push(new_role_of(s, name, desc, perms, active, actor, now)),
            next_id: (s.next_id + 1) as u128,
            ..s
        },
        actor,
        "create"@,
        "role"@,
        Some(s.next_id),
        None,
        Some(crate::payload::role_payload(name, form_desc, form_perms, active)),
        now,
    )
}

/// One acceptable outcome of creating a role, for a given stored
/// permission list `perms`: the store moved by the creation transition,
/// with `perms` the sorted deduplication of the form's keys.
pub open spec fn create_role_outcome(
    s0: StoreView,
    s1: StoreView,
    actor: u128,
    name: Seq<char>,
    desc: Option<Seq<char>>,
    form_desc: Seq<char>,
    key_texts: Seq<Seq<char>>,
    active: bool,
    now: i64,
    perms: Seq<Seq<char>>,
) -> bool {
    &&& s1 == create_role_tr(s0, actor, name, desc, perms, active, form_desc, key_texts, now)
    &&& strictly_sorted(perms)
    &&& forall|p: Seq<char>| perms.contains(p) <==> key_texts.contains(p)
}

/// Creates a role: requires the manage-roles permission and an unused
/// name; stores the permission keys as a deduplicated ordered set, with
/// no check against the catalog, and audits the creation. Returns the
/// new role's id.
pub fn create_role(
    store: &mut Store,
    identity: Option<&CurrentUser>,
    form: &RoleForm,
    now: i64,
) -> (r: Result<u128, Error>)
    requires
        old(store).wf(),
    ensures
        final(store).wf(),
        match r {
            Ok(rid) => authorize_spec(opt_view(identity), "team:manage_roles"@) is Ok
                && !role_name_exists(old(store)@, form.name@) && old(store)@.next_id < u128::MAX
                && rid == old(store)@.next_id && (opt_view(identity) matches Some(a) && (exists|
                perms: Seq<Seq<char>>,
            |
                #[trigger] create_role_outcome(
                    old(store)@,
                    final(store)@,
                    a.id,
                    form.name@,
                    stored_description(form.description@),
                    form.description@,
                    strs_view(form.permissions@),
                    form.is_active is Some,
                    now,
                    perms,
                ))),
            Err(e) => final(store)@ == old(store)@ && (match authorize_spec(
                opt_view(identity),
                "team:manage_roles"@,
            ) {
                Err(g) => e == g,
                Ok(()) => if role_name_exists(old(store)@, form.name@) {
                    e == Error::Conflict
                } else {
                    e == Error::StoreUnavailable && old(store)@.next_id == u128::MAX
                },
            }),
        },
{
    match authorize(identity, "team:manage_roles") {
        Err(e) => {
            return Err(e);
        },
        Ok(()) => {},
    }
    let actor = match identity {
        Some(a) => a,
        None => {
            proof {
                assert(false);
            }
            return Err(Error::Unauthenticated);
        },
    };
    if store.role_name_taken(form.name.as_str(), None) {
        return Err(Error::Conflict);
    }
    if store.next_id == u128::MAX {
        return Err(Error::StoreUnavailable);
    }
    let description = if form.description.as_str().unicode_len() == 0 {
        None
    } else {
        Some(form.description.clone())
    };
    let perms = normalize_keys(&form.permissions);
    let ghost permsv = strs_view(perms@);
    let ghost oldv = store@;
    let new_id = store.next_id;
    let role = Role {
        id: new_id,
        name: form.name.clone(),
        description: description,
        permissions: perms,
        is_active: form.is_active.is_some(),
        created_at: now,
        updated_at: now,
        created_by: Some(actor.id),
    };
    store.roles.push(role);
    store.next_id = store.next_id + 1;
    proof {
        let newv = store@;
        assert(newv.roles =~= oldv.roles.push(
            new_role_of(
                oldv,
                form.name@,
                stored_description(form.description@),
                permsv,
                form.is_active is Some,
                actor@.id,
                now,
            ),
        ));
        assert forall|i: int, j: int|
            0 <= i < j < newv.roles.len() implies newv.roles[i].id != newv.roles[j].id by {
            if j == newv.roles.len() - 1 {
                assert(newv.roles[i] == oldv.roles[i]);
                assert(oldv.roles[i].id < oldv.next_id);
            } else {
                assert(newv.roles[i] == oldv.roles[i] && newv.roles[j] == oldv.roles[j]);
            }
        }
        assert forall|i: int|
            0 <= i < oldv.roles.len() implies (#[trigger] oldv.roles[i]).name != form.name@ by {
            if oldv.roles[i].name == form.name@ {
                assert(role_name_exists(oldv, form.name@));
            }
        }
        assert forall|i: int, j: int|
            0 <= i < j < newv.roles.len() implies newv.roles[i].name != newv.roles[j].name by {
            if j == newv.roles.len() - 1 {
                assert(newv.roles[i] == oldv.roles[i]);
            } else {
                assert(newv.roles[i] == oldv.roles[i] && newv.roles[j] == oldv.roles[j]);
            }
        }
        assert forall|i: int|
            0 <= i < newv.roles.len() implies strictly_sorted(
            (#[trigger] newv.roles[i]).permissions,
        ) by {
            if i < newv.roles.len() - 1 {
                assert(newv.roles[i] == oldv.roles[i]);
            }
        }
        assert forall|i: int|
            0 <= i < newv.roles.len() implies (#[trigger] newv.roles[i]).id < newv.next_id by {
            if i < newv.roles.len() - 1 {
                assert(newv.roles[i] == oldv.roles[i]);
                assert(oldv.roles[i].id < oldv.next_id);
            }
        }
        assert forall|i: int|
            0 <= i < newv.users.len() implies (#[trigger] newv.users[i]).id < newv.next_id by {
            assert(newv.users[i] == oldv.users[i]);
            assert(oldv.users[i].id < oldv.next_id);
        }
        assert forall|i: int|
            0 <= i < newv.audit.len() implies (#[trigger] newv.audit[i]).id < newv.next_id by {
            assert(newv.audit[i] == oldv.audit[i]);
            assert(oldv.audit[i].id < oldv.next_id);
        }
        assert forall|i: int|
            0 <= i < newv.sessions.len() implies (#[trigger] newv.sessions[i]).id
            < newv.next_id by {
            assert(newv.sessions[i] == oldv.sessions[i]);
            assert(oldv.sessions[i].id < oldv.next_id);
        }
        assert forall|k: int|
            0 <= k < newv.assignments.len() implies user_exists(
            newv,
            (#[trigger] newv.assignments[k]).user_id,
        ) && role_exists(newv, newv.assignments[k].role_id) by {
            assert(user_exists(oldv, oldv.assignments[k].user_id));
            let w = choose|w: int|
                0 <= w < oldv.users.len() && oldv.users[w].id == oldv.assignments[k].user_id;
            assert(newv.users[w].id == newv.assignments[k].user_id);
            assert(role_exists(oldv, oldv.assignments[k].role_id));
            let v = choose|v: int|
                0 <= v < oldv.roles.len() && oldv.roles[v].id == oldv.assignments[k].role_id;
            assert(newv.roles[v] == oldv.roles[v]);
        }
        assert(wf_store(newv));
    }
    store.create_audit_log(
        actor.id,
        String::from_str("create"),
        String::from_str("role"),
        Some(new_id),
        None,
        Some(crate::payload::role_payload_text(
            form.name.as_str(),
            form.description.as_str(),
            &form.permissions,
            form.is_active.is_some(),
        )),
        now,
    );
    proof {
        assert(create_role_outcome(
            old(store)@,
            store@,
            actor@.id,
            form.name@,
            stored_description(form.description@),
            form.description@,
            strs_view(form.permissions@),
            form.is_active is Some,
            now,
            permsv,
        ));
    }
    Ok(new_id)
}

/// The field replacement a role update writes: a full replace of name,
/// description, permissions and active flag, with the update instant.
pub open spec fn updated_role(
    u: RoleView,
    name: Seq<char>,
    desc: Option<Seq<char>>,
    perms: Seq<Seq<char>>,
    active: bool,
    now: i64,
) -> RoleView {
    RoleView {
        name: name,
        description: desc,
        permissions: perms,
        is_active: active,
        updated_at: now,
        ..u
    }
}

/// Updating replaces the target role's fields; every other role is
/// untouched. A target that does not exist changes nothing.
pub open spec fn update_role_tr(
    s: StoreView,
    target: u128,
    name: Seq<char>,
    desc: Option<Seq<char>>,
    perms: Seq<Seq<char>>,
    active: bool,
    now: i64,
) -> StoreView {
    StoreView {
        roles: Seq::new(
            s.roles.len(),
            |i: int|
                if s.roles[i].id == target {
                    updated_role(s.roles[i], name, desc, perms, active, now)
                } else {
                    s.roles[i]
                },
        ),
        ..s
    }
}

/// What updating a role does: fields replaced and the update audited,
/// with the form's fields as submitted in the audit payload.
pub open spec fn update_role_full_tr(
    s: StoreView,
    actor: u128,
    target: u128,
    name: Seq<char>,
    desc: Option<Seq<char>>,
    perms: Seq<Seq<char>>,
    active: bool,
    form_desc: Seq<char>,
    form_perms: Seq<Seq<char>>,
    now: i64,
) -> StoreView {
    audit_tr(
        update_role_tr(s, target, name, desc, perms, active, now),
        actor,
        "update"@,
        "role"@,
        Some(target),
        None,
        Some(crate::payload::role_payload(name, form_desc, form_perms, active)),
        now,
    )
}

/// One acceptable outcome of updating a role, for a given stored
/// permission list `perms`.
pub open spec fn update_role_outcome(
    s0: StoreView,
    s1: StoreView,
    actor: u128,
    target: u128,
    name: Seq<char>,
    desc: Option<Seq<char>>,
    form_desc: Seq<char>,
    key_texts: Seq<Seq<char>>,
    active: bool,
    now: i64,
    perms: Seq<Seq<char>>,
) -> bool {
    &&& s1 == update_role_full_tr(
        s0,
        actor,
        target,
        name,
        desc,
        perms,
        active,
        form_desc,
        key_texts,
        now,
    )
    &&& strictly_sorted(perms)
    &&& forall|p: Seq<char>| perms.contains(p) <==> key_texts.contains(p)
}

/// Updates a role: requires the manage-roles permission; replaces name,
/// description, permissions and active flag wholesale, and audits the
/// update. A target that does not exist still records the attempt; a new
/// name already carried by another role is a conflict.
pub fn update_role(
    store: &mut Store,
    identity: Option<&CurrentUser>,
    role_id: u128,
    form: &RoleForm,
    now: i64,
) -> (r: Result<(), Error>)
    requires
        old(store).wf(),
    ensures
        final(store).wf(),
        match r {
            Ok(()) => authorize_spec(opt_view(identity), "team:manage_roles"@) is Ok && (
            role_exists(old(store)@, role_id) ==> !role_name_taken_by_other(
                old(store)@,
                form.name@,
                role_id,
            )) && (opt_view(identity) matches Some(a) && (exists|perms: Seq<Seq<char>>|
                #[trigger] update_role_outcome(
                    old(store)@,
                    final(store)@,
                    a.id,
                    role_id,
                    form.name@,
                    stored_description(form.description@),
                    form.description@,
                    strs_view(form.permissions@),
                    form.is_active is Some,
                    now,
                    perms,
                ))),
            Err(e) => final(store)@ == old(store)@ && (match authorize_spec(
                opt_view(identity),
                "team:manage_roles"@,
            ) {
                Err(g) => e == g,
                Ok(()) => e == Error::Conflict && role_exists(old(store)@, role_id)
                    && role_name_taken_by_other(old(store)@, form.name@, role_id),
            }),
        },
{
    match authorize(identity, "team:manage_roles") {
        Err(e) => {
            return Err(e);
        },
        Ok(()) => {},
    }
    let actor = match identity {
        Some(a) => a,
        None => {
            proof {
                assert(false);
            }
            return Err(Error::Unauthenticated);
        },
    };
    let perms = normalize_keys(&form.permissions);
    let ghost permsv = strs_view(perms@);
    let ghost oldv = store@;
    let ghost desc = stored_description(form.description@);
    match store.find_role_idx(role_id) {
        Some(i) => {
            if store.role_name_taken(form.name.as_str(), Some(role_id)) {
                return Err(Error::Conflict);
            }
            let u = &store.roles[i];
            let description = if form.description.as_str().unicode_len() == 0 {
                None
            } else {
                Some(form.description.clone())
            };
            let updated = Role {
                name: form.name.clone(),
                description: description,
                permissions: perms,
                is_active: form.is_active.is_some(),
                updated_at: now,
                ..u.duplicate()
            };
            store.roles[i] = updated;
            proof {
                assert(store@.roles =~= update_role_tr(
                    oldv,
                    role_id,
                    form.name@,
                    desc,
                    permsv,
                    form.is_active is Some,
                    now,
                ).roles);
                assert(store@ =~= update_role_tr(
                    oldv,
                    role_id,
                    form.name@,
                    desc,
                    permsv,
                    form.is_active is Some,
                    now,
                ));
                let newv = store@;
                assert forall|a: int, b: int|
                    0 <= a < b < newv.roles.len() implies newv.roles[a].name
                    != newv.roles[b].name by {
                    if a == i as int {
                        assert(oldv.roles[b].id != role_id);
                        assert(!(oldv.roles[b].name == form.name@ && oldv.roles[b].id != role_id));
                    } else if b == i as int {
                        assert(oldv.roles[a].id != role_id);
                        assert(!(oldv.roles[a].name == form.name@ && oldv.roles[a].id != role_id));
                    } else {
                        assert(newv.roles[a] == oldv.roles[a]);
                        assert(newv.roles[b] == oldv.roles[b]);
                    }
                }
                assert forall|a: int, b: int|
                    0 <= a < b < newv.roles.len() implies newv.roles[a].id != newv.roles[b].id by {
                    assert(newv.roles[a].id == oldv.roles[a].id);
                    assert(newv.roles[b].id == oldv.roles[b].id);
                }
                assert forall|k: int|
                    0 <= k < newv.roles.len() implies strictly_sorted(
                    (#[trigger] newv.roles[k]).permissions,
                ) && newv.roles[k].id < newv.next_id by {
                    if k != i as int {
                        assert(newv.roles[k] == oldv.roles[k]);
                    }
                    assert(newv.roles[k].id == oldv.roles[k].id);
                }
                assert forall|x: u128| role_exists(oldv, x) implies role_exists(newv, x) by {
                    let w = choose|w: int| 0 <= w < oldv.roles.len() && oldv.roles[w].id == x;
                    assert(newv.roles[w].id == x);
                }
                assert forall|k: int|
                    0 <= k < newv.assignments.len() implies user_exists(
                    newv,
                    (#[trigger] newv.assignments[k]).user_id,
                ) && role_exists(newv, newv.assignments[k].role_id) by {
                    assert(user_exists(oldv, oldv.assignments[k].user_id));
                    assert(role_exists(oldv, oldv.assignments[k].role_id));
                }
                assert(wf_store(newv));
            }
        },
        None => {
            proof {
                assert(store@.roles =~= update_role_tr(
                    oldv,
                    role_id,
                    form.name@,
                    desc,
                    permsv,
                    form.is_active is Some,
                    now,
                ).roles);
                assert(store@ =~= update_role_tr(
                    oldv,
                    role_id,
                    form.name@,
                    desc,
                    permsv,
                    form.is_active is Some,
                    now,
                ));
            }
        },
    }
    store.create_audit_log(
        actor.id,
        String::from_str("update"),
        String::from_str("role"),
        Some(role_id),
        None,
        Some(crate::payload::role_payload_text(
            form.name.as_str(),
            form.description.as_str(),
            &form.permissions,
            form.is_active.is_some(),
        )),
        now,
    );
    proof {
        assert(update_role_outcome(
            old(store)@,
            store@,
            actor@.id,
            role_id,
            form.name@,
            desc,
            form.description@,
            strs_view(form.permissions@),
            form.is_active is Some,
            now,
            permsv,
        ));
    }
    Ok(())
}

/// Deleting removes the role row; assignments were checked to be absent.
pub open spec fn delete_role_tr(s: StoreView, target: u128) -> StoreView {
    StoreView { roles: s.roles.filter(|x: RoleView| x.id != target), ..s }
}

/// Filtering keeps role rows pairwise distinct in id and name.
proof fn lemma_filter_roles_distinct(s: Seq<RoleView>, p: spec_fn(RoleView) -> bool)
    requires
        forall|i: int, j: int| 0 <= i < j < s.len() ==> s[i].id != s[j].id,
        forall|i: int, j: int| 0 <= i < j < s.len() ==> s[i].name != s[j].name,
    ensures
        forall|i: int, j: int|
            0 <= i < j < s.filter(p).len() ==> s.filter(p)[i].id != s.filter(p)[j].id,
        forall|i: int, j: int|
            0 <= i < j < s.filter(p).len() ==> s.filter(p)[i].name != s.filter(p)[j].name,
    decreases s.len(),
{
    reveal_with_fuel(Seq::filter, 1);
    if s.len() > 0 {
        let rest = s.drop_last();
        let l = s.last();
        assert forall|i: int, j: int|
            0 <= i < j < rest.len() implies rest[i].id != rest[j].id && rest[i].name
            != rest[j].name by {
            assert(rest[i] == s[i] && rest[j] == s[j]);
        }
        lemma_filter_roles_distinct(rest, p);
        if p(l) {
            let f = rest.filter(p);
            assert(s.filter(p) == f.push(l));
            assert forall|i: int, j: int|
                0 <= i < j < f.push(l).len() implies f.push(l)[i].id != f.push(l)[j].id && f.push(
                l,
            )[i].name != f.push(l)[j].name by {
                if j == f.len() {
                    assert(f.push(l)[i] == f[i]);
                    assert(f.contains(f[i]));
                    rest.lemma_filter_contains_rev(p, f[i]);
                    let w = choose|w: int| 0 <= w < rest.len() && rest[w] == f[i];
                    assert(s[w] == f[i] && s[s.len() - 1] == l);
                } else {
                    assert(f.push(l)[i] == f[i] && f.push(l)[j] == f[j]);
                }
            }
        }
    }
}

/// Deletes a role: requires the manage-roles permission; refused with a
/// conflict exactly when at least one assignment row still references the
/// role, reports a missing target, and otherwise removes the row and
/// audits the deletion.
pub fn delete_role(
    store: &mut Store,
    identity: Option<&CurrentUser>,
    role_id: u128,
    now: i64,
) -> (r: Result<(), Error>)
    requires
        old(store).wf(),
    ensures
        final(store).wf(),
        match r {
            Ok(()) => authorize_spec(opt_view(identity), "team:manage_roles"@) is Ok
                && !role_in_use(old(store)@, role_id) && role_exists(old(store)@, role_id) && (
            opt_view(identity) matches Some(a) && final(store)@ == audit_tr(
                delete_role_tr(old(store)@, role_id),
                a.id,
                "delete"@,
                "role"@,
                Some(role_id),
                Some(crate::payload::role_delete_payload(
                    crate::store::role_by_id(old(store)@, role_id).name,
                    crate::store::role_by_id(old(store)@, role_id).description,
                    crate::store::role_by_id(old(store)@, role_id).permissions,
                )),
                None,
                now,
            )),
            Err(e) => final(store)@ == old(store)@ && (match authorize_spec(
                opt_view(identity),
                "team:manage_roles"@,
            ) {
                Err(g) => e == g,
                Ok(()) => if role_in_use(old(store)@, role_id) {
                    e == Error::Conflict
                } else {
                    e == Error::NotFound && !role_exists(old(store)@, role_id)
                },
            }),
        },
{
    match authorize(identity, "team:manage_roles") {
        Err(e) => {
            return Err(e);
        },
        Ok(()) => {},
    }
    let actor = match identity {
        Some(a) => a,
        None => {
            proof {
                assert(false);
            }
            return Err(Error::Unauthenticated);
        },
    };
    if store.role_referenced(role_id) {
        return Err(Error::Conflict);
    }
    let removed = match store.find_role_by_id(role_id) {
        Some(x) => x.duplicate(),
        None => {
            return Err(Error::NotFound);
        },
    };
    let ghost oldv = store@;
    let ghost rpred = |x: RoleView| x.id != role_id;
    let mut kept: Vec<Role> = Vec::new();
    let n = store.roles.len();
    let mut i: usize = 0;
    proof {
        assert(oldv.roles.take(0) =~= Seq::<RoleView>::empty());
        reveal_with_fuel(Seq::filter, 1);
    }
    while i < n
        invariant
            store.wf(),
            store@ == oldv,
            i <= n,
            n == store.roles.len(),
            rpred == (|x: RoleView| x.id != role_id),
            crate::model::roles_view(kept@) == oldv.roles.take(i as int).filter(rpred),
        decreases n - i,
    {
        proof {
            assert(oldv.roles.take(i + 1) =~= oldv.roles.take(i as int).push(
                oldv.roles[i as int],
            ));
            crate::assign::lemma_filter_push(oldv.roles.take(i as int), oldv.roles[i as int], rpred);
        }
        if store.roles[i].id != role_id {
            let x = store.roles[i].duplicate();
            kept.push(x);
            proof {
                assert(crate::model::roles_view(kept@) =~= oldv.roles.take(i + 1).filter(rpred));
            }
        }
        i = i + 1;
    }
    proof {
        assert(oldv.roles.take(n as int) =~= oldv.roles);
    }
    store.roles = kept;
    proof {
        let newv = store@;
        assert(newv =~= delete_role_tr(oldv, role_id));
        lemma_filter_roles_distinct(oldv.roles, rpred);
        assert forall|k: int|
            0 <= k < newv.roles.len() implies (#[trigger] newv.roles[k]).id < newv.next_id
            && strictly_sorted(newv.roles[k].permissions) by {
            assert(newv.roles.contains(newv.roles[k]));
            oldv.roles.lemma_filter_contains_rev(rpred, newv.roles[k]);
            let w = choose|w: int| 0 <= w < oldv.roles.len() && oldv.roles[w] == newv.roles[k];
            assert(oldv.roles[w].id < oldv.next_id);
            assert(strictly_sorted(oldv.roles[w].permissions));
        }
        assert forall|k: int|
            0 <= k < newv.assignments.len() implies user_exists(
            newv,
            (#[trigger] newv.assignments[k]).user_id,
        ) && role_exists(newv, newv.assignments[k].role_id) by {
            assert(user_exists(oldv, oldv.assignments[k].user_id));
            assert(role_exists(oldv, oldv.assignments[k].role_id));
            let v = choose|v: int|
                0 <= v < oldv.roles.len() && oldv.roles[v].id == oldv.assignments[k].role_id;
            if oldv.assignments[k].role_id == role_id {
                assert(role_in_use(oldv, role_id));
            }
            assert(rpred(oldv.roles[v]));
            oldv.roles.lemma_filter_contains(rpred, v);
            assert(newv.roles.contains(oldv.roles[v]));
            let nk = choose|nk: int| 0 <= nk < newv.roles.len() && newv.roles[nk] == oldv.roles[v];
            assert(newv.roles[nk].id == newv.assignments[k].role_id);
        }
        assert(wf_store(newv));
    }
    store.create_audit_log(
        actor.id,
        String::from_str("delete"),
        String::from_str("role"),
        Some(role_id),
        Some(crate::payload::role_delete_payload_text(
            removed.name.as_str(),
            &removed.description,
            &removed.permissions,
        )),
        None,
        now,
    );
    Ok(())
}

} // verus!
