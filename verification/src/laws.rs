//! The library's laws: properties that tie several operations together,
//! stated over the same views and transition functions the operations'
//! own contracts use, and proved once for every store and input.

use vstd::prelude::*;

use crate::assign::{assign_roles_tr, inserted_ids, lemma_inserted_ids_props, rows_of};
use crate::error::Error;
use crate::gate::{authorize_spec, authorize_user_action_spec};
use crate::identity::CurrentUserView;
use crate::model::strictly_sorted;
use crate::order::{lemma_lex_lt_asym, lemma_lex_lt_irrefl, lex_lt};
use crate::perms::effective_permissions;
use crate::roles::delete_role_tr;
use crate::store::{is_assigned, role_exists, user_exists, StoreView};
use crate::token::{token_verdict, ClaimsView};

verus! {

/// A user holding only inactive roles has no effective permissions: an
/// inactive role contributes nothing, however it is assigned.
pub proof fn lemma_inactive_roles_grant_nothing(s: StoreView, user_id: u128)
    requires
        forall|i: int|
            0 <= i < s.roles.len() && is_assigned(s, user_id, (#[trigger] s.roles[i]).id)
                ==> !s.roles[i].is_active,
    ensures
        effective_permissions(s, user_id) =~= Set::<Seq<char>>::empty(),
{
    assert forall|p: Seq<char>| !effective_permissions(s, user_id).contains(p) by {
        if effective_permissions(s, user_id).contains(p) {
            let k = choose|k: int|
                0 <= k < s.roles.len() && (#[trigger] s.roles[k]).is_active && is_assigned(
                    s,
                    user_id,
                    s.roles[k].id,
                ) && s.roles[k].permissions.contains(p);
            assert(!s.roles[k].is_active);
        }
    }
}

/// The sorted, deduplicated listing of a permission set is canonical:
/// two strictly sorted lists with the same members are the same list.
pub proof fn lemma_sorted_unique_canonical(a: Seq<Seq<char>>, b: Seq<Seq<char>>)
    requires
        strictly_sorted(a),
        strictly_sorted(b),
        forall|p: Seq<char>| a.contains(p) <==> b.contains(p),
    ensures
        a == b,
    decreases a.len(),
{
    if a.len() == 0 {
        if b.len() > 0 {
            assert(b.contains(b[0]));
            assert(a.contains(b[0]));
        }
        assert(a =~= b);
    } else if b.len() == 0 {
        assert(a.contains(a[0]));
        assert(b.contains(a[0]));
    } else {
        // the heads agree: each is the other's minimum
        assert(a.contains(a[0]));
        assert(b.contains(a[0]));
        let j = choose|j: int| 0 <= j < b.len() && b[j] == a[0];
        assert(b.contains(b[0]));
        assert(a.contains(b[0]));
        let i = choose|i: int| 0 <= i < a.len() && a[i] == b[0];
        if a[0] != b[0] {
            assert(j != 0 && i != 0);
            assert(lex_lt(b[0], b[j]));
            assert(lex_lt(a[0], a[i]));
            lemma_lex_lt_asym(a[0], b[0]);
        }
        let ta = a.drop_first();
        let tb = b.drop_first();
        assert forall|x: int, y: int| 0 <= x < y < ta.len() implies lex_lt(ta[x], ta[y]) by {
            assert(ta[x] == a[x + 1] && ta[y] == a[y + 1]);
        }
        assert forall|x: int, y: int| 0 <= x < y < tb.len() implies lex_lt(tb[x], tb[y]) by {
            assert(tb[x] == b[x + 1] && tb[y] == b[y + 1]);
        }
        assert forall|p: Seq<char>| ta.contains(p) <==> tb.contains(p) by {
            if ta.contains(p) {
                let x = choose|x: int| 0 <= x < ta.len() && ta[x] == p;
                assert(a[x + 1] == p);
                assert(a.contains(p));
                assert(lex_lt(a[0], p));
                lemma_lex_lt_irrefl(p);
                let y = choose|y: int| 0 <= y < b.len() && b[y] == p;
                assert(y != 0);
                assert(tb[y - 1] == p);
                assert(tb.contains(p));
            }
            if tb.contains(p) {
                let x = choose|x: int| 0 <= x < tb.len() && tb[x] == p;
                assert(b[x + 1] == p);
                assert(b.contains(p));
                assert(lex_lt(b[0], p));
                lemma_lex_lt_irrefl(p);
                let y = choose|y: int| 0 <= y < a.len() && a[y] == p;
                assert(y != 0);
                assert(ta[y - 1] == p);
                assert(ta.contains(p));
            }
        }
        lemma_sorted_unique_canonical(ta, tb);
        assert forall|x: int| 0 <= x < a.len() implies a[x] == b[x] by {
            if x >= 1 {
                assert(a[x] == ta[x - 1] && b[x] == tb[x - 1]);
            }
        }
        assert(a =~= b);
    }
}

/// What one replace-all assignment leaves: the user holds exactly the
/// listed roles that exist, and everyone else's assignments stand as
/// they were.
pub proof fn lemma_assign_roles_sets(
    s: StoreView,
    user_id: u128,
    ids: Seq<u128>,
    by: u128,
    now: i64,
)
    ensures
        forall|rid: u128|
            #![trigger is_assigned(assign_roles_tr(s, user_id, ids, by, now), user_id, rid)]
            is_assigned(assign_roles_tr(s, user_id, ids, by, now), user_id, rid) <==> (user_exists(
                s,
                user_id,
            ) && role_exists(s, rid) && ids.contains(rid)),
        forall|u2: u128, rid: u128|
            #![trigger is_assigned(assign_roles_tr(s, user_id, ids, by, now), u2, rid)]
            u2 != user_id ==> (is_assigned(assign_roles_tr(s, user_id, ids, by, now), u2, rid)
                <==> is_assigned(s, u2, rid)),
{
    let s1 = assign_roles_tr(s, user_id, ids, by, now);
    let pred = |a: crate::model::UserRoleView| a.user_id != user_id;
    let kept = s.assignments.filter(pred);
    let ins = inserted_ids(s, user_id, ids);
    let added = rows_of(ins, user_id, by, now);
    lemma_inserted_ids_props(s, user_id, ids);
    assert(s1.assignments == kept + added);
    assert forall|k: int|
        0 <= k < kept.len() implies (#[trigger] kept[k]).user_id != user_id by {
        Seq::lemma_filter_pred(s.assignments, pred, k);
    }
    assert forall|rid: u128|
        #![trigger is_assigned(assign_roles_tr(s, user_id, ids, by, now), user_id, rid)]
        is_assigned(s1, user_id, rid) <==> (user_exists(s, user_id) && role_exists(s, rid)
            && ids.contains(rid)) by {
        if is_assigned(s1, user_id, rid) {
            let k = choose|k: int|
                0 <= k < s1.assignments.len() && s1.assignments[k].user_id == user_id
                    && s1.assignments[k].role_id == rid;
            if k < kept.len() {
                assert(kept[k].user_id != user_id);
            } else {
                assert(s1.assignments[k] == added[k - kept.len()]);
                assert(added[k - kept.len()].role_id == ins[k - kept.len()]);
                assert(ins.contains(rid));
            }
        }
        if user_exists(s, user_id) && role_exists(s, rid) && ids.contains(rid) {
            assert(ins.contains(rid));
            let k = choose|k: int| 0 <= k < ins.len() && ins[k] == rid;
            assert(added[k].user_id == user_id && added[k].role_id == rid);
            assert(s1.assignments[kept.len() + k] == added[k]);
        }
    }
    assert forall|u2: u128, rid: u128|
        #![trigger is_assigned(assign_roles_tr(s, user_id, ids, by, now), u2, rid)]
        u2 != user_id implies (is_assigned(s1, u2, rid) <==> is_assigned(s, u2, rid)) by {
        if is_assigned(s1, u2, rid) {
            let k = choose|k: int|
                0 <= k < s1.assignments.len() && s1.assignments[k].user_id == u2
                    && s1.assignments[k].role_id == rid;
            if k < kept.len() {
                assert(kept.contains(kept[k]));
                s.assignments.lemma_filter_contains_rev(pred, kept[k]);
                let w = choose|w: int|
                    0 <= w < s.assignments.len() && s.assignments[w] == kept[k];
                assert(is_assigned(s, u2, rid));
            } else {
                assert(s1.assignments[k] == added[k - kept.len()]);
                assert(added[k - kept.len()].user_id == user_id);
            }
        }
        if is_assigned(s, u2, rid) {
            let k = choose|k: int|
                0 <= k < s.assignments.len() && s.assignments[k].user_id == u2
                    && s.assignments[k].role_id == rid;
            Seq::lemma_filter_contains(s.assignments, pred, k);
            assert(kept.contains(s.assignments[k]));
            let w = choose|w: int| 0 <= w < kept.len() && kept[w] == s.assignments[k];
            assert(s1.assignments[w] == s.assignments[k]);
        }
    }
}

/// Replace, not merge: assigning one list and then another leaves the
/// user with exactly the second list's existing roles, whatever the
/// first said.
pub proof fn lemma_assign_roles_replaces(
    s: StoreView,
    user_id: u128,
    ids1: Seq<u128>,
    ids2: Seq<u128>,
    by1: u128,
    by2: u128,
    t1: i64,
    t2: i64,
)
    ensures
        forall|rid: u128|
            is_assigned(
                assign_roles_tr(assign_roles_tr(s, user_id, ids1, by1, t1), user_id, ids2, by2, t2),
                user_id,
                rid,
            ) <==> (user_exists(s, user_id) && role_exists(s, rid) && ids2.contains(rid)),
{
    let s1 = assign_roles_tr(s, user_id, ids1, by1, t1);
    lemma_assign_roles_sets(s, user_id, ids1, by1, t1);
    lemma_assign_roles_sets(s1, user_id, ids2, by2, t2);
    assert(s1.users == s.users);
    assert(s1.roles == s.roles);
    assert forall|rid: u128|
        #![trigger is_assigned(
            assign_roles_tr(assign_roles_tr(s, user_id, ids1, by1, t1), user_id, ids2, by2, t2),
            user_id,
            rid,
        )]
        is_assigned(assign_roles_tr(s1, user_id, ids2, by2, t2), user_id, rid) <==> (user_exists(
            s,
            user_id,
        ) && role_exists(s, rid) && ids2.contains(rid)) by {
        assert(is_assigned(assign_roles_tr(s1, user_id, ids2, by2, t2), user_id, rid) <==> (
        user_exists(s1, user_id) && role_exists(s1, rid) && ids2.contains(rid)));
        if user_exists(s1, user_id) {
            let w = choose|w: int| 0 <= w < s1.users.len() && s1.users[w].id == user_id;
            assert(s.users[w].id == user_id);
        }
        if user_exists(s, user_id) {
            let w = choose|w: int| 0 <= w < s.users.len() && s.users[w].id == user_id;
            assert(s1.users[w].id == user_id);
        }
        if role_exists(s1, rid) {
            let w = choose|w: int| 0 <= w < s1.roles.len() && s1.roles[w].id == rid;
            assert(s.roles[w].id == rid);
        }
        if role_exists(s, rid) {
            let w = choose|w: int| 0 <= w < s.roles.len() && s.roles[w].id == rid;
            assert(s1.roles[w].id == rid);
        }
    }
}

/// Deleting a role removes its row: no role with that id remains.
pub proof fn lemma_delete_role_removes(s: StoreView, role_id: u128)
    ensures
        !role_exists(delete_role_tr(s, role_id), role_id),
{
    let pred = |x: crate::model::RoleView| x.id != role_id;
    let s1 = delete_role_tr(s, role_id);
    if role_exists(s1, role_id) {
        let k = choose|k: int| 0 <= k < s1.roles.len() && s1.roles[k].id == role_id;
        Seq::lemma_filter_pred(s.roles, pred, k);
    }
}

/// A token carrying given claims verifies to exactly those claims at any
/// instant before its expiry, and is refused from the expiry on.
pub proof fn lemma_issue_verify(
    token: Seq<char>,
    secret: Seq<u8>,
    sub: Seq<char>,
    email: Seq<char>,
    exp: i64,
    iat: i64,
    t: i64,
)
    requires
        crate::token::jwt_payload(token, secret) == Some((sub, email, exp, iat)),
    ensures
        t < exp ==> token_verdict(token, secret, t) == Some(
            ClaimsView { sub: sub, email: email, exp: exp, iat: iat },
        ),
        t >= exp ==> token_verdict(token, secret, t) is None,
{
}

/// Holding a single key authorizes exactly the operations requiring that
/// key: any other required key is refused as forbidden.
pub proof fn lemma_gate_key_discrimination(
    u: CurrentUserView,
    held: Seq<char>,
    required: Seq<char>,
)
    requires
        u.permissions == seq![held],
    ensures
        authorize_spec(Some(u), held) == Ok::<(), Error>(()),
        required != held ==> authorize_spec(Some(u), required) == Err::<(), Error>(
            Error::Forbidden,
        ),
{
    assert(u.permissions[0] == held);
    assert(u.permissions.contains(held));
    if required != held && u.permissions.contains(required) {
        let k = choose|k: int| 0 <= k < u.permissions.len() && u.permissions[k] == required;
        assert(k == 0);
    }
}

/// The self-action guard: an identity aiming a user operation at itself
/// is refused as an invalid request, not as forbidden and not as
/// success, whatever permissions it holds.
pub proof fn lemma_self_action_guard(u: CurrentUserView, required: Seq<char>)
    requires
        u.permissions.contains(required),
    ensures
        authorize_user_action_spec(Some(u), required, u.id) == Err::<(), Error>(
            Error::InvalidRequest,
        ),
{
}

} // verus!
