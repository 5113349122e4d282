//! Team administration: the gated operations over user accounts and
//! roles. Each one resolves its gate first, mutates the store, and then
//! records an audit entry; audit recording is best-effort and never fails
//! the operation.

use vstd::prelude::*;
use vstd::string::StringExecFns;

use crate::audit::audit_tr;
use crate::error::Error;
use crate::gate::{authorize_user_action, authorize_user_action_spec, opt_view};
use crate::identity::CurrentUser;
use crate::model::{User, UserView};
use crate::store::{role_exists, user_exists, wf_store, Store, StoreView};

verus! {

// ---------------------------------------------------------------------
// Transition helpers
// ---------------------------------------------------------------------

pub open spec fn locked_user(u: UserView, actor: u128, now: i64) -> UserView {
    UserView { is_locked: true, locked_at: Some(now), locked_by: Some(actor), ..u }
}

pub open spec fn unlocked_user(u: UserView) -> UserView {
    UserView { is_locked: false, locked_at: None, locked_by: None, ..u }
}

/// Locking marks the target locked, by whom and when; every other
/// account is untouched. A target that does not exist changes nothing.
pub open spec fn lock_tr(s: StoreView, actor: u128, target: u128, now: i64) -> StoreView {
    StoreView {
        users: Seq::new(
            s.users.len(),
            |i: int|
                if s.users[i].id == target {
                    locked_user(s.users[i], actor, now)
                } else {
                    s.users[i]
                },
        ),
        ..s
    }
}

/// Unlocking clears the lock marks of the target.
pub open spec fn unlock_tr(s: StoreView, target: u128) -> StoreView {
    StoreView {
        users: Seq::new(
            s.users.len(),
            |i: int|
                if s.users[i].id == target {
                    unlocked_user(s.users[i])
                } else {
                    s.users[i]
                },
        ),
        ..s
    }
}

/// A store whose users keep their ids and emails stays well-formed.
proof fn lemma_wf_users_same_keys(s1: StoreView, s2: StoreView)
    requires
        wf_store(s1),
        s2.roles == s1.roles,
        s2.assignments == s1.assignments,
        s2.audit == s1.audit,
        s2.sessions == s1.sessions,
        s2.next_id == s1.next_id,
        s2.users.len() == s1.users.len(),
        forall|i: int|
            0 <= i < s1.users.len() ==> (#[trigger] s2.users[i]).id == s1.users[i].id
                && s2.users[i].email == s1.users[i].email,
    ensures
        wf_store(s2),
{
    assert forall|x: u128| user_exists(s1, x) implies user_exists(s2, x) by {
        let w = choose|i: int| 0 <= i < s1.users.len() && s1.users[i].id == x;
        assert(s2.users[w].id == x);
    }
    assert forall|x: u128| role_exists(s1, x) implies role_exists(s2, x) by {
        let w = choose|i: int| 0 <= i < s1.roles.len() && s1.roles[i].id == x;
        assert(s2.roles[w].id == x);
    }
    assert forall|i: int|
        0 <= i < s2.assignments.len() implies user_exists(
        s2,
        (#[trigger] s2.assignments[i]).user_id,
    ) by {
        assert(user_exists(s1, s1.assignments[i].user_id));
    }
    assert forall|i: int|
        0 <= i < s2.assignments.len() implies role_exists(
        s2,
        (#[trigger] s2.assignments[i]).role_id,
    ) by {
        assert(role_exists(s1, s1.assignments[i].role_id));
    }
}

// ---------------------------------------------------------------------
// Lock and unlock
// ---------------------------------------------------------------------

/// Locks a team member's account. Requires the team-write permission
/// and refuses a self-lock with an invalid-request error, whatever the
/// permissions. A target that does not exist still records the attempt.
pub fn lock_user(
    store: &mut Store,
    identity: Option<&CurrentUser>,
    user_id: u128,
    now: i64,
) -> (r: Result<(), Error>)
    requires
        old(store).wf(),
    ensures
        final(store).wf(),
        match r {
            Ok(()) => authorize_user_action_spec(opt_view(identity), "team:write"@, user_id)
                is Ok && (opt_view(identity) matches Some(a) && final(store)@ == audit_tr(
                lock_tr(old(store)@, a.id, user_id, now),
                a.id,
                "lock"@,
                "user"@,
                Some(user_id),
                None,
                Some("{\"locked\":true}"@),
                now,
            )),
            Err(e) => authorize_user_action_spec(opt_view(identity), "team:write"@, user_id)
                == Err::<(), Error>(e) && final(store)@ == old(store)@,
        },
{
    match authorize_user_action(identity, "team:write", user_id) {
        Err(e) => {
            return Err(e);
        },
        Ok(()) => {},
    }
    let actor = match identity {
        Some(a) => a,
        None => {
            proof {
                assert(false);
            }
            return Err(Error::Unauthenticated);
        },
    };
    let ghost oldv = store@;
    match store.find_user_idx(user_id) {
        Some(i) => {
            let u = &store.users[i];
            let updated = User {
                is_locked: true,
                locked_at: Some(now),
                locked_by: Some(actor.id),
                ..u.duplicate()
            };
            store.users[i] = updated;
            proof {
                assert(store@.users =~= lock_tr(oldv, actor.id, user_id, now).users);
                assert(store@ =~= lock_tr(oldv, actor.id, user_id, now));
                lemma_wf_users_same_keys(oldv, store@);
            }
        },
        None => {
            proof {
                assert(store@.users =~= lock_tr(oldv, actor.id, user_id, now).users);
                assert(store@ =~= lock_tr(oldv, actor.id, user_id, now));
            }
        },
    }
    store.create_audit_log(
        actor.id,
        String::from_str("lock"),
        String::from_str("user"),
        Some(user_id),
        None,
        Some(String::from_str("{\"locked\":true}")),
        now,
    );
    Ok(())
}

/// Unlocks a team member's account. Requires the team-write permission;
/// the target being the caller is irrelevant here, so there is no
/// self-action guard.
pub fn unlock_user(
    store: &mut Store,
    identity: Option<&CurrentUser>,
    user_id: u128,
    now: i64,
) -> (r: Result<(), Error>)
    requires
        old(store).wf(),
    ensures
        final(store).wf(),
        match r {
            Ok(()) => crate::gate::authorize_spec(opt_view(identity), "team:write"@) is Ok && (
            opt_view(identity) matches Some(a) && final(store)@ == audit_tr(
                unlock_tr(old(store)@, user_id),
                a.id,
                "unlock"@,
                "user"@,
                Some(user_id),
                None,
                Some("{\"locked\":false}"@),
                now,
            )),
            Err(e) => crate::gate::authorize_spec(opt_view(identity), "team:write"@) == Err::<
                (),
                Error,
            >(e) && final(store)@ == old(store)@,
        },
{
    match crate::gate::authorize(identity, "team:write") {
        Err(e) => {
            return Err(e);
        },
        Ok(()) => {},
    }
    let actor = match identity {
        Some(a) => a,
        None => {
            proof {
                assert(false);
            }
            return Err(Error::Unauthenticated);
        },
    };
    let ghost oldv = store@;
    match store.find_user_idx(user_id) {
        Some(i) => {
            let u = &store.users[i];
            let updated = User { is_locked: false, locked_at: None, locked_by: None, ..u.duplicate() };
            store.users[i] = updated;
            proof {
                assert(store@.users =~= unlock_tr(oldv, user_id).users);
                assert(store@ =~= unlock_tr(oldv, user_id));
                lemma_wf_users_same_keys(oldv, store@);
            }
        },
        None => {
            proof {
                assert(store@.users =~= unlock_tr(oldv, user_id).users);
                assert(store@ =~= unlock_tr(oldv, user_id));
            }
        },
    }
    store.create_audit_log(
        actor.id,
        String::from_str("unlock"),
        String::from_str("user"),
        Some(user_id),
        None,
        Some(String::from_str("{\"locked\":false}")),
        now,
    );
    Ok(())
}

// ---------------------------------------------------------------------
// Delete
// ---------------------------------------------------------------------

/// Deleting removes the account and, in cascade, every assignment row
/// that referenced it.
pub open spec fn delete_user_tr(s: StoreView, target: u128) -> StoreView {
    StoreView {
        users: s.users.filter(|u: UserView| u.id != target),
        assignments: crate::assign::without_user(s.assignments, target),
        ..s
    }
}

/// Filtering keeps user rows pairwise distinct in id and email.
proof fn lemma_filter_users_distinct(s: Seq<UserView>, p: spec_fn(UserView) -> bool)
    requires
        forall|i: int, j: int| 0 <= i < j < s.len() ==> s[i].id != s[j].id,
        forall|i: int, j: int| 0 <= i < j < s.len() ==> s[i].email != s[j].email,
    ensures
        forall|i: int, j: int|
            0 <= i < j < s.filter(p).len() ==> s.filter(p)[i].id != s.filter(p)[j].id,
        forall|i: int, j: int|
            0 <= i < j < s.filter(p).len() ==> s.filter(p)[i].email != s.filter(p)[j].email,
    decreases s.len(),
{
    reveal_with_fuel(Seq::filter, 1);
    if s.len() > 0 {
        let rest = s.drop_last();
        let l = s.last();
        assert forall|i: int, j: int|
            0 <= i < j < rest.len() implies rest[i].id != rest[j].id && rest[i].email
            != rest[j].email by {
            assert(rest[i] == s[i] && rest[j] == s[j]);
        }
        lemma_filter_users_distinct(rest, p);
        if p(l) {
            let f = rest.filter(p);
            assert(s.filter(p) == f.push(l));
            assert forall|i: int, j: int|
                0 <= i < j < f.push(l).len() implies f.push(l)[i].id != f.push(l)[j].id && f.push(
                l,
            )[i].email != f.push(l)[j].email by {
                if j == f.len() {
                    assert(f.push(l)[i] == f[i]);
                    assert(f.contains(f[i]));
                    rest.lemma_filter_contains_rev(p, f[i]);
                    let w = choose|w: int| 0 <= w < rest.len() && rest[w] == f[i];
                    assert(s[w] == f[i] && s[s.len() - 1] == l);
                } else {
                    assert(f.push(l)[i] == f[i] && f.push(l)[j] == f[j]);
                }
            }
        }
    }
}

/// Deletes a team member's account. Requires the team-delete permission,
/// refuses a self-delete, and reports a missing target; deletion removes
/// the account's role assignments with it.
pub fn delete_user(
    store: &mut Store,
    identity: Option<&CurrentUser>,
    user_id: u128,
    now: i64,
) -> (r: Result<(), Error>)
    requires
        old(store).wf(),
    ensures
        final(store).wf(),
        match r {
            Ok(()) => authorize_user_action_spec(opt_view(identity), "team:delete"@, user_id)
                is Ok && user_exists(old(store)@, user_id) && (opt_view(identity) matches Some(a)
                && final(store)@ == audit_tr(
                delete_user_tr(old(store)@, user_id),
                a.id,
                "delete"@,
                "user"@,
                Some(user_id),
                Some(crate::payload::user_delete_payload(
                    crate::store::user_by_id(old(store)@, user_id).email,
                    crate::store::user_by_id(old(store)@, user_id).first_name,
                    crate::store::user_by_id(old(store)@, user_id).last_name,
                )),
                None,
                now,
            )),
            Err(e) => final(store)@ == old(store)@ && (match authorize_user_action_spec(
                opt_view(identity),
                "team:delete"@,
                user_id,
            ) {
                Err(g) => e == g,
                Ok(()) => e == Error::NotFound && !user_exists(old(store)@, user_id),
            }),
        },
{
    match authorize_user_action(identity, "team:delete", user_id) {
        Err(e) => {
            return Err(e);
        },
        Ok(()) => {},
    }
    let actor = match identity {
        Some(a) => a,
        None => {
            proof {
                assert(false);
            }
            return Err(Error::Unauthenticated);
        },
    };
    let removed = match store.find_user_by_id(user_id) {
        Some(u) => u.duplicate(),
        None => {
            return Err(Error::NotFound);
        },
    };
    let ghost oldv = store@;
    let ghost upred = |u: UserView| u.id != user_id;
    let ghost apred = |a: crate::model::UserRoleView| a.user_id != user_id;

    // remove the account
    let mut kept_users: Vec<User> = Vec::new();
    let n = store.users.len();
    let mut i: usize = 0;
    proof {
        assert(oldv.users.take(0) =~= Seq::<UserView>::empty());
        reveal_with_fuel(Seq::filter, 1);
    }
    while i < n
        invariant
            store.wf(),
            store@ == oldv,
            i <= n,
            n == store.users.len(),
            upred == (|u: UserView| u.id != user_id),
            crate::model::users_view(kept_users@) == oldv.users.take(i as int).filter(upred),
        decreases n - i,
    {
        proof {
            assert(oldv.users.take(i + 1) =~= oldv.users.take(i as int).push(
                oldv.users[i as int],
            ));
            crate::assign::lemma_filter_push(oldv.users.take(i as int), oldv.users[i as int], upred);
        }
        if store.users[i].id != user_id {
            let u = store.users[i].duplicate();
            kept_users.push(u);
            proof {
                assert(crate::model::users_view(kept_users@) =~= oldv.users.take(i + 1).filter(
                    upred,
                ));
            }
        }
        i = i + 1;
    }
    proof {
        assert(oldv.users.take(n as int) =~= oldv.users);
    }

    // cascade: remove the account's assignment rows
    let mut kept_asn: Vec<crate::model::UserRole> = Vec::new();
    let m = store.assignments.len();
    let mut t: usize = 0;
    proof {
        assert(oldv.assignments.take(0) =~= Seq::<crate::model::UserRoleView>::empty());
    }
    while t < m
        invariant
            store.wf(),
            store@ == oldv,
            t <= m,
            m == store.assignments.len(),
            apred == (|a: crate::model::UserRoleView| a.user_id != user_id),
            crate::model::user_roles_view(kept_asn@) == oldv.assignments.take(t as int).filter(
                apred,
            ),
        decreases m - t,
    {
        proof {
            assert(oldv.assignments.take(t + 1) =~= oldv.assignments.take(t as int).push(
                oldv.assignments[t as int],
            ));
            crate::assign::lemma_filter_push(
                oldv.assignments.take(t as int),
                oldv.assignments[t as int],
                apred,
            );
        }
        let a = store.assignments[t];
        if a.user_id != user_id {
            kept_asn.push(a);
            proof {
                assert(crate::model::user_roles_view(kept_asn@) =~= oldv.assignments.take(
                    t + 1,
                ).filter(apred));
            }
        }
        t = t + 1;
    }
    proof {
        assert(oldv.assignments.take(m as int) =~= oldv.assignments);
    }

    store.users = kept_users;
    store.assignments = kept_asn;
    proof {
        let newv = store@;
        assert(newv =~= delete_user_tr(oldv, user_id));
        lemma_filter_users_distinct(oldv.users, upred);
        crate::assign::lemma_filter_distinct_pairs(oldv.assignments, apred);
        assert forall|k: int|
            0 <= k < newv.users.len() implies (#[trigger] newv.users[k]).id < newv.next_id by {
            assert(newv.users.contains(newv.users[k]));
            oldv.users.lemma_filter_contains_rev(upred, newv.users[k]);
            let w = choose|w: int| 0 <= w < oldv.users.len() && oldv.users[w] == newv.users[k];
            assert(oldv.users[w].id < oldv.next_id);
        }
        assert forall|k: int|
            0 <= k < newv.assignments.len() implies user_exists(
            newv,
            (#[trigger] newv.assignments[k]).user_id,
        ) && role_exists(newv, newv.assignments[k].role_id) by {
            assert(newv.assignments.contains(newv.assignments[k]));
            oldv.assignments.lemma_filter_contains_rev(apred, newv.assignments[k]);
            let w = choose|w: int|
                0 <= w < oldv.assignments.len() && oldv.assignments[w] == newv.assignments[k];
            // the user end survives the filter
            assert(user_exists(oldv, oldv.assignments[w].user_id));
            let uw = choose|uw: int|
                0 <= uw < oldv.users.len() && oldv.users[uw].id == oldv.assignments[w].user_id;
            assert(upred(oldv.users[uw]));
            oldv.users.lemma_filter_contains(upred, uw);
            assert(newv.users.contains(oldv.users[uw]));
            let nk = choose|nk: int|
                0 <= nk < newv.users.len() && newv.users[nk] == oldv.users[uw];
            assert(newv.users[nk].id == newv.assignments[k].user_id);
            // the role end is untouched
            assert(role_exists(oldv, oldv.assignments[w].role_id));
            let rw = choose|rw: int|
                0 <= rw < oldv.roles.len() && oldv.roles[rw].id == oldv.assignments[w].role_id;
            assert(newv.roles[rw].id == newv.assignments[k].role_id);
        }
        assert(wf_store(newv));
    }
    store.create_audit_log(
        actor.id,
        String::from_str("delete"),
        String::from_str("user"),
        Some(user_id),
        Some(crate::payload::user_delete_payload_text(
            removed.email.as_str(),
            removed.first_name.as_str(),
            removed.last_name.as_str(),
        )),
        None,
        now,
    );
    Ok(())
}

// ---------------------------------------------------------------------
// Create and update
// ---------------------------------------------------------------------

/// A password acceptable for an account: present and at least six
/// characters.
pub open spec fn acceptable_new_password(p: Option<Seq<char>>) -> bool {
    p matches Some(q) && q.len() >= 6
}

/// The account a create writes: a fresh id, the given fields, unlocked,
/// with both timestamps at `now`.
pub open spec fn new_user_of(
    s: StoreView,
    email: Seq<char>,
    first: Seq<char>,
    last: Seq<char>,
    hash: Seq<char>,
    active: bool,
    now: i64,
) -> UserView {
    UserView {
        id: s.next_id,
        email: email,
        password_hash: hash,
        first_name: first,
        last_name: last,
        is_active: active,
        is_locked: false,
        last_login: None,
        locked_at: None,
        locked_by: None,
        created_at: now,
        updated_at: now,
    }
}

pub open spec fn insert_user_tr(
    s: StoreView,
    email: Seq<char>,
    first: Seq<char>,
    last: Seq<char>,
    hash: Seq<char>,
    active: bool,
    now: i64,
) -> StoreView {
    StoreView {
        users: s.users.push(new_user_of(s, email, first, last, hash, active, now)),
        next_id: (s.next_id + 1) as u128,
        ..s
    }
}

/// One acceptable outcome of creating a user, for a given fresh hash `h`
/// and parsed role-id list `ids`: the store moved by the creation
/// transition, the hash accepts the form's password, and `ids` is
/// exactly what the form's role-id texts parse to, so in particular it
/// holds every role id whose canonical text stood in the form.
pub open spec fn create_user_outcome(
    s0: StoreView,
    s1: StoreView,
    actor: u128,
    email: Seq<char>,
    first: Seq<char>,
    last: Seq<char>,
    active: bool,
    password: Option<Seq<char>>,
    role_texts: Seq<Seq<char>>,
    now: i64,
    h: Seq<char>,
    ids: Seq<u128>,
) -> bool {
    &&& s1 == create_user_tr(s0, actor, email, first, last, h, active, ids, now)
    &&& (password matches Some(p) && crate::credential::password_verifies(p, h))
    &&& ids == crate::ids::parsed_ids(role_texts)
    &&& forall|id: u128|
        (exists|j: int|
            0 <= j < role_texts.len() && role_texts[j] == #[trigger] crate::ids::uuid_text(id))
            ==> ids.contains(id)
}

/// What creating a user does: the account inserted, the supplied roles
/// assigned to it, and the creation audited.
pub open spec fn create_user_tr(
    s: StoreView,
    actor: u128,
    email: Seq<char>,
    first: Seq<char>,
    last: Seq<char>,
    hash: Seq<char>,
    active: bool,
    ids: Seq<u128>,
    now: i64,
) -> StoreView {
    audit_tr(
        crate::assign::assign_roles_tr(
            insert_user_tr(s, email, first, last, hash, active, now),
            s.next_id,
            ids,
            actor,
            now,
        ),
        actor,
        "create"@,
        "user"@,
        Some(s.next_id),
        None,
        Some(crate::payload::user_payload(email, first, last, active)),
        now,
    )
}

/// Creates a team member account: requires the team-write permission, a
/// password of at least six characters, and an unused email; assigns the
/// parseable, existing roles of the form and audits the creation.
/// Returns the new account's id.
pub fn create_user(
    store: &mut Store,
    identity: Option<&CurrentUser>,
    form: &crate::model::UserForm,
    now: i64,
) -> (r: Result<u128, Error>)
    requires
        old(store).wf(),
    ensures
        final(store).wf(),
        match r {
            Ok(uid) => crate::gate::authorize_spec(opt_view(identity), "team:write"@) is Ok
                && acceptable_new_password(crate::model::opt_str_view(form.password))
                && !crate::store::email_exists(old(store)@, form.email@) && old(store)@.next_id
                < u128::MAX && uid == old(store)@.next_id && (opt_view(identity) matches Some(a)
                && (exists|h: Seq<char>, ids: Seq<u128>|
                    #[trigger] create_user_outcome(
                        old(store)@,
                        final(store)@,
                        a.id,
                        form.email@,
                        form.first_name@,
                        form.last_name@,
                        form.is_active is Some,
                        crate::model::opt_str_view(form.password),
                        crate::model::strs_view(form.role_ids@),
                        now,
                        h,
                        ids,
                    ))),
            Err(e) => final(store)@ == old(store)@ && (match crate::gate::authorize_spec(
                opt_view(identity),
                "team:write"@,
            ) {
                Err(g) => e == g,
                Ok(()) => if !acceptable_new_password(crate::model::opt_str_view(form.password)) {
                    e == Error::InvalidRequest
                } else if crate::store::email_exists(old(store)@, form.email@) {
                    e == Error::Conflict
                } else {
                    e == Error::StoreUnavailable
                },
            }),
        },
{
    match crate::gate::authorize(identity, "team:write") {
        Err(e) => {
            return Err(e);
        },
        Ok(()) => {},
    }
    let actor = match identity {
        Some(a) => a,
        None => {
            proof {
                assert(false);
            }
            return Err(Error::Unauthenticated);
        },
    };
    let password = match &form.password {
        Some(p) => p,
        None => {
            return Err(Error::InvalidRequest);
        },
    };
    if password.as_str().unicode_len() < 6 {
        return Err(Error::InvalidRequest);
    }
    if store.find_user_by_email(form.email.as_str()).is_some() {
        return Err(Error::Conflict);
    }
    if store.next_id == u128::MAX {
        return Err(Error::StoreUnavailable);
    }
    let password_hash = match crate::credential::hash_password(password.as_str()) {
        Ok(h) => h,
        Err(_) => {
            return Err(Error::StoreUnavailable);
        },
    };
    let ghost h = password_hash@;
    let is_active = form.is_active.is_some();
    let ghost oldv = store@;
    let new_id = store.next_id;
    let user = User {
        id: new_id,
        email: form.email.clone(),
        password_hash: password_hash,
        first_name: form.first_name.clone(),
        last_name: form.last_name.clone(),
        is_active: is_active,
        is_locked: false,
        last_login: None,
        locked_at: None,
        locked_by: None,
        created_at: now,
        updated_at: now,
    };
    store.users.push(user);
    store.next_id = store.next_id + 1;
    proof {
        let newv = store@;
        assert(newv =~= insert_user_tr(
            oldv,
            form.email@,
            form.first_name@,
            form.last_name@,
            h,
            is_active,
            now,
        ));
        assert forall|i: int, j: int|
            0 <= i < j < newv.users.len() implies newv.users[i].id != newv.users[j].id by {
            if j == newv.users.len() - 1 {
                assert(newv.users[i] == oldv.users[i]);
                assert(oldv.users[i].id < oldv.next_id);
            } else {
                assert(newv.users[i] == oldv.users[i] && newv.users[j] == oldv.users[j]);
            }
        }
        assert forall|i: int|
            0 <= i < oldv.users.len() implies (#[trigger] oldv.users[i]).email != form.email@ by {
            if oldv.users[i].email == form.email@ {
                assert(crate::store::email_exists(oldv, form.email@));
            }
        }
        assert forall|i: int, j: int|
            0 <= i < j < newv.users.len() implies newv.users[i].email != newv.users[j].email by {
            if j == newv.users.len() - 1 {
                assert(newv.users[i] == oldv.users[i]);
            } else {
                assert(newv.users[i] == oldv.users[i] && newv.users[j] == oldv.users[j]);
            }
        }
        assert forall|k: int|
            0 <= k < newv.assignments.len() implies user_exists(
            newv,
            (#[trigger] newv.assignments[k]).user_id,
        ) && role_exists(newv, newv.assignments[k].role_id) by {
            assert(user_exists(oldv, oldv.assignments[k].user_id));
            let w = choose|w: int|
                0 <= w < oldv.users.len() && oldv.users[w].id == oldv.assignments[k].user_id;
            assert(newv.users[w] == oldv.users[w]);
            assert(role_exists(oldv, oldv.assignments[k].role_id));
            let v = choose|v: int|
                0 <= v < oldv.roles.len() && oldv.roles[v].id == oldv.assignments[k].role_id;
            assert(newv.roles[v].id == newv.assignments[k].role_id);
        }
        assert(wf_store(newv));
    }
    let ids = crate::ids::parse_role_ids(&form.role_ids);
    store.assign_roles(new_id, &ids, actor.id, now);
    store.create_audit_log(
        actor.id,
        String::from_str("create"),
        String::from_str("user"),
        Some(new_id),
        None,
        Some(crate::payload::user_payload_text(
            form.email.as_str(),
            form.first_name.as_str(),
            form.last_name.as_str(),
            is_active,
        )),
        now,
    );
    proof {
        assert(store@ == create_user_tr(
            oldv,
            actor.id,
            form.email@,
            form.first_name@,
            form.last_name@,
            h,
            is_active,
            ids@,
            now,
        ));
        assert forall|id: u128|
            (exists|j: int|
                0 <= j < crate::model::strs_view(form.role_ids@).len()
                    && crate::model::strs_view(form.role_ids@)[j]
                    == #[trigger] crate::ids::uuid_text(id)) implies ids@.contains(id) by {
            let j = choose|j: int|
                0 <= j < crate::model::strs_view(form.role_ids@).len()
                    && crate::model::strs_view(form.role_ids@)[j] == crate::ids::uuid_text(id);
            assert(form.role_ids@[j]@ == crate::ids::uuid_text(id));
        }
        assert(create_user_outcome(
            old(store)@,
            store@,
            actor@.id,
            form.email@,
            form.first_name@,
            form.last_name@,
            form.is_active is Some,
            crate::model::opt_str_view(form.password),
            crate::model::strs_view(form.role_ids@),
            now,
            h,
            ids@,
        ));
    }
    Ok(new_id)
}

/// The field replacement an update writes: email, names, active flag and
/// the update instant; the password hash only when a change was asked.
pub open spec fn updated_user(
    u: UserView,
    email: Seq<char>,
    first: Seq<char>,
    last: Seq<char>,
    active: bool,
    pw: Option<Seq<char>>,
    now: i64,
) -> UserView {
    UserView {
        email: email,
        first_name: first,
        last_name: last,
        is_active: active,
        updated_at: now,
        password_hash: (match pw {
            Some(h) => h,
            None => u.password_hash,
        }),
        ..u
    }
}

/// Updating replaces the target's profile fields; every other account is
/// untouched. A target that does not exist changes nothing.
pub open spec fn update_user_tr(
    s: StoreView,
    target: u128,
    email: Seq<char>,
    first: Seq<char>,
    last: Seq<char>,
    active: bool,
    pw: Option<Seq<char>>,
    now: i64,
) -> StoreView {
    StoreView {
        users: Seq::new(
            s.users.len(),
            |i: int|
                if s.users[i].id == target {
                    updated_user(s.users[i], email, first, last, active, pw, now)
                } else {
                    s.users[i]
                },
        ),
        ..s
    }
}

/// What updating a user does: fields replaced, roles replaced wholesale,
/// and the update audited.
pub open spec fn update_user_full_tr(
    s: StoreView,
    actor: u128,
    target: u128,
    email: Seq<char>,
    first: Seq<char>,
    last: Seq<char>,
    active: bool,
    pw: Option<Seq<char>>,
    ids: Seq<u128>,
    now: i64,
) -> StoreView {
    audit_tr(
        crate::assign::assign_roles_tr(
            update_user_tr(s, target, email, first, last, active, pw, now),
            target,
            ids,
            actor,
            now,
        ),
        actor,
        "update"@,
        "user"@,
        Some(target),
        None,
        Some(crate::payload::user_payload(email, first, last, active)),
        now,
    )
}

/// One acceptable outcome of updating a user, for a given password
/// change `pw` and parsed role-id list `ids`: a password change happens
/// exactly when the form asked for an acceptable one, the hash accepts
/// it, and `ids` is exactly what the form's role-id texts parse to, so
/// in particular it holds every role id whose canonical text stood in
/// the form.
pub open spec fn update_user_outcome(
    s0: StoreView,
    s1: StoreView,
    actor: u128,
    target: u128,
    email: Seq<char>,
    first: Seq<char>,
    last: Seq<char>,
    active: bool,
    password: Option<Seq<char>>,
    role_texts: Seq<Seq<char>>,
    now: i64,
    pw: Option<Seq<char>>,
    ids: Seq<u128>,
) -> bool {
    &&& s1 == update_user_full_tr(s0, actor, target, email, first, last, active, pw, ids, now)
    &&& (acceptable_new_password(password) ==> (pw matches Some(h) && (password matches Some(p)
        && crate::credential::password_verifies(p, h))))
    &&& (!acceptable_new_password(password) ==> pw is None)
    &&& ids == crate::ids::parsed_ids(role_texts)
    &&& forall|id: u128|
        (exists|j: int|
            0 <= j < role_texts.len() && role_texts[j] == #[trigger] crate::ids::uuid_text(id))
            ==> ids.contains(id)
}

/// A store whose users keep their ids, and whose emails stay pairwise
/// distinct, stays well-formed.
proof fn lemma_wf_users_same_ids(s1: StoreView, s2: StoreView)
    requires
        wf_store(s1),
        s2.roles == s1.roles,
        s2.assignments == s1.assignments,
        s2.audit == s1.audit,
        s2.sessions == s1.sessions,
        s2.next_id == s1.next_id,
        s2.users.len() == s1.users.len(),
        forall|i: int|
            0 <= i < s1.users.len() ==> (#[trigger] s2.users[i]).id == s1.users[i].id,
        forall|i: int, j: int|
            0 <= i < j < s2.users.len() ==> s2.users[i].email != s2.users[j].email,
    ensures
        wf_store(s2),
{
    assert forall|x: u128| user_exists(s1, x) implies user_exists(s2, x) by {
        let w = choose|i: int| 0 <= i < s1.users.len() && s1.users[i].id == x;
        assert(s2.users[w].id == x);
    }
    assert forall|x: u128| role_exists(s1, x) implies role_exists(s2, x) by {
        let w = choose|i: int| 0 <= i < s1.roles.len() && s1.roles[i].id == x;
        assert(s2.roles[w].id == x);
    }
    assert forall|i: int|
        0 <= i < s2.assignments.len() implies user_exists(
        s2,
        (#[trigger] s2.assignments[i]).user_id,
    ) by {
        assert(user_exists(s1, s1.assignments[i].user_id));
    }
    assert forall|i: int|
        0 <= i < s2.assignments.len() implies role_exists(
        s2,
        (#[trigger] s2.assignments[i]).role_id,
    ) by {
        assert(role_exists(s1, s1.assignments[i].role_id));
    }
}

/// Updates a team member account: requires the team-write permission;
/// replaces the profile fields, changes the password only when the form
/// carries an acceptable one, replaces the role assignments wholesale,
/// and audits the update. A target that does not exist still records the
/// attempt; a new email already carried by another account is a
/// conflict.
pub fn update_user(
    store: &mut Store,
    identity: Option<&CurrentUser>,
    user_id: u128,
    form: &crate::model::UserForm,
    now: i64,
) -> (r: Result<(), Error>)
    requires
        old(store).wf(),
    ensures
        final(store).wf(),
        match r {
            Ok(()) => crate::gate::authorize_spec(opt_view(identity), "team:write"@) is Ok && (
            user_exists(old(store)@, user_id) ==> !crate::store::email_taken_by_other(
                old(store)@,
                form.email@,
                user_id,
            )) && (opt_view(identity) matches Some(a) && (exists|pw: Option<Seq<char>>, ids: Seq<u128>|
                #[trigger] update_user_outcome(
                    old(store)@,
                    final(store)@,
                    a.id,
                    user_id,
                    form.email@,
                    form.first_name@,
                    form.last_name@,
                    form.is_active is Some,
                    crate::model::opt_str_view(form.password),
                    crate::model::strs_view(form.role_ids@),
                    now,
                    pw,
                    ids,
                ))),
            Err(e) => final(store)@ == old(store)@ && (match crate::gate::authorize_spec(
                opt_view(identity),
                "team:write"@,
            ) {
                Err(g) => e == g,
                Ok(()) => (e == Error::Conflict || e == Error::StoreUnavailable) && (e
                    == Error::Conflict ==> user_exists(old(store)@, user_id)
                    && crate::store::email_taken_by_other(old(store)@, form.email@, user_id)) && (e
                    == Error::StoreUnavailable ==> acceptable_new_password(
                    crate::model::opt_str_view(form.password),
                )),
            }),
        },
{
    match crate::gate::authorize(identity, "team:write") {
        Err(e) => {
            return Err(e);
        },
        Ok(()) => {},
    }
    let actor = match identity {
        Some(a) => a,
        None => {
            proof {
                assert(false);
            }
            return Err(Error::Unauthenticated);
        },
    };
    let pw_hash: Option<String> = match &form.password {
        Some(p) => {
            if p.as_str().unicode_len() >= 6 {
                match crate::credential::hash_password(p.as_str()) {
                    Ok(hh) => Some(hh),
                    Err(_) => {
                        return Err(Error::StoreUnavailable);
                    },
                }
            } else {
                None
            }
        },
        None => None,
    };
    let ghost pw = crate::model::opt_str_view(pw_hash);
    let ghost oldv = store@;
    match store.find_user_idx(user_id) {
        Some(i) => {
            if store.email_taken(form.email.as_str(), user_id) {
                return Err(Error::Conflict);
            }
            let u = &store.users[i];
            let password_hash = match &pw_hash {
                Some(hh) => hh.clone(),
                None => u.password_hash.clone(),
            };
            let updated = User {
                email: form.email.clone(),
                first_name: form.first_name.clone(),
                last_name: form.last_name.clone(),
                is_active: form.is_active.is_some(),
                updated_at: now,
                password_hash: password_hash,
                ..u.duplicate()
            };
            store.users[i] = updated;
            proof {
                assert(store@.users =~= update_user_tr(
                    oldv,
                    user_id,
                    form.email@,
                    form.first_name@,
                    form.last_name@,
                    form.is_active is Some,
                    pw,
                    now,
                ).users);
                assert(store@ =~= update_user_tr(
                    oldv,
                    user_id,
                    form.email@,
                    form.first_name@,
                    form.last_name@,
                    form.is_active is Some,
                    pw,
                    now,
                ));
                assert forall|a: int, b: int|
                    0 <= a < b < store@.users.len() implies store@.users[a].email
                    != store@.users[b].email by {
                    if a == i as int {
                        assert(oldv.users[b].id != user_id);
                        assert(!(oldv.users[b].email == form.email@ && oldv.users[b].id
                            != user_id));
                    } else if b == i as int {
                        assert(oldv.users[a].id != user_id);
                        assert(!(oldv.users[a].email == form.email@ && oldv.users[a].id
                            != user_id));
                    } else {
                        assert(store@.users[a] == oldv.users[a]);
                        assert(store@.users[b] == oldv.users[b]);
                    }
                }
                lemma_wf_users_same_ids(oldv, store@);
            }
        },
        None => {
            proof {
                assert(store@.users =~= update_user_tr(
                    oldv,
                    user_id,
                    form.email@,
                    form.first_name@,
                    form.last_name@,
                    form.is_active is Some,
                    pw,
                    now,
                ).users);
                assert(store@ =~= update_user_tr(
                    oldv,
                    user_id,
                    form.email@,
                    form.first_name@,
                    form.last_name@,
                    form.is_active is Some,
                    pw,
                    now,
                ));
            }
        },
    }
    let ids = crate::ids::parse_role_ids(&form.role_ids);
    store.assign_roles(user_id, &ids, actor.id, now);
    store.create_audit_log(
        actor.id,
        String::from_str("update"),
        String::from_str("user"),
        Some(user_id),
        None,
        Some(crate::payload::user_payload_text(
            form.email.as_str(),
            form.first_name.as_str(),
            form.last_name.as_str(),
            form.is_active.is_some(),
        )),
        now,
    );
    proof {
        assert forall|id: u128|
            (exists|j: int|
                0 <= j < crate::model::strs_view(form.role_ids@).len()
                    && crate::model::strs_view(form.role_ids@)[j]
                    == #[trigger] crate::ids::uuid_text(id)) implies ids@.contains(id) by {
            let j = choose|j: int|
                0 <= j < crate::model::strs_view(form.role_ids@).len()
                    && crate::model::strs_view(form.role_ids@)[j] == crate::ids::uuid_text(id);
            assert(form.role_ids@[j]@ == crate::ids::uuid_text(id));
        }
        assert(update_user_outcome(
            old(store)@,
            store@,
            actor@.id,
            user_id,
            form.email@,
            form.first_name@,
            form.last_name@,
            form.is_active is Some,
            crate::model::opt_str_view(form.password),
            crate::model::strs_view(form.role_ids@),
            now,
            pw,
            ids@,
        ));
    }
    Ok(())
}

} // verus!
