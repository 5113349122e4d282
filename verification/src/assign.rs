//! Replace-all role assignment: updating a user's roles deletes every
//! existing assignment row for the user and inserts one row per supplied
//! role id. A role id that does not exist, or repeats, is silently
//! skipped; nothing is merged.

use vstd::prelude::*;

use crate::model::{UserRole, UserRoleView};
use crate::store::{role_exists, user_exists, wf_store, Store, StoreView};

verus! {

/// The assignment row that a replace writes.
pub open spec fn asn_of(user_id: u128, role_id: u128, by: u128, now: i64) -> UserRoleView {
    UserRoleView { user_id: user_id, role_id: role_id, assigned_at: now, assigned_by: Some(by) }
}

/// The rows written for a list of role ids.
pub open spec fn rows_of(ids: Seq<u128>, user_id: u128, by: u128, now: i64) -> Seq<UserRoleView> {
    ids.map_values(|r: u128| asn_of(user_id, r, by, now))
}

/// Everyone else's assignment rows: the rows a replace keeps.
pub open spec fn without_user(asn: Seq<UserRoleView>, user_id: u128) -> Seq<UserRoleView> {
    asn.filter(|a: UserRoleView| a.user_id != user_id)
}

/// The role ids a replace actually inserts, in first-occurrence order:
/// ids naming an existing role, for an existing user, each at most once.
pub open spec fn inserted_ids(s: StoreView, user_id: u128, ids: Seq<u128>) -> Seq<u128>
    decreases ids.len(),
{
    if ids.len() == 0 {
        Seq::empty()
    } else {
        let prev = inserted_ids(s, user_id, ids.drop_last());
        if user_exists(s, user_id) && role_exists(s, ids.last()) && !prev.contains(ids.last()) {
            prev.push(ids.last())
        } else {
            prev
        }
    }
}

/// What a replace-all assignment does to the store.
pub open spec fn assign_roles_tr(
    s: StoreView,
    user_id: u128,
    ids: Seq<u128>,
    by: u128,
    now: i64,
) -> StoreView {
    StoreView {
        assignments: without_user(s.assignments, user_id) + rows_of(
            inserted_ids(s, user_id, ids),
            user_id,
            by,
            now,
        ),
        ..s
    }
}

pub proof fn lemma_inserted_ids_props(s: StoreView, user_id: u128, ids: Seq<u128>)
    ensures
        forall|r: u128|
            #[trigger] inserted_ids(s, user_id, ids).contains(r) <==> (user_exists(s, user_id)
                && role_exists(s, r) && ids.contains(r)),
        forall|a: int, b: int|
            0 <= a < b < inserted_ids(s, user_id, ids).len() ==> inserted_ids(s, user_id, ids)[a]
                != inserted_ids(s, user_id, ids)[b],
    decreases ids.len(),
{
    let out = inserted_ids(s, user_id, ids);
    if ids.len() == 0 {
        assert forall|r: u128| #[trigger] out.contains(r) implies false by {}
        assert forall|r: u128| ids.contains(r) implies false by {}
    } else {
        let rest = ids.drop_last();
        let prev = inserted_ids(s, user_id, rest);
        lemma_inserted_ids_props(s, user_id, rest);
        assert forall|r: u128|
            #[trigger] out.contains(r) <==> (user_exists(s, user_id) && role_exists(s, r)
                && ids.contains(r)) by {
            if out.contains(r) {
                let i = choose|i: int| 0 <= i < out.len() && out[i] == r;
                if i < prev.len() {
                    assert(prev[i] == r);
                    assert(prev.contains(r));
                    let j = choose|j: int| 0 <= j < rest.len() && rest[j] == r;
                    assert(ids[j] == r);
                    assert(ids.contains(r));
                } else {
                    assert(r == ids.last());
                    assert(ids.contains(r));
                }
            }
            if user_exists(s, user_id) && role_exists(s, r) && ids.contains(r) {
                let j = choose|j: int| 0 <= j < ids.len() && ids[j] == r;
                if j < ids.len() - 1 {
                    assert(rest[j] == r);
                    assert(rest.contains(r));
                    assert(prev.contains(r));
                    let i = choose|i: int| 0 <= i < prev.len() && prev[i] == r;
                    assert(out[i] == r);
                    assert(out.contains(r));
                } else {
                    if prev.contains(r) {
                        let i = choose|i: int| 0 <= i < prev.len() && prev[i] == r;
                        assert(out[i] == r);
                        assert(out.contains(r));
                    } else {
                        assert(out.last() == r);
                        assert(out.contains(r));
                    }
                }
            }
        }
        assert forall|a: int, b: int|
            0 <= a < b < out.len() implies out[a] != out[b] by {
            if out.len() > prev.len() {
                // out == prev.push(ids.last()) and ids.last() is not in prev
                if b == out.len() - 1 {
                    assert(out[a] == prev[a]);
                    assert(out[b] == ids.last());
                    if prev[a] == ids.last() {
                        assert(prev.contains(ids.last()));
                    }
                } else {
                    assert(out[a] == prev[a] && out[b] == prev[b]);
                }
            }
        }
    }
}

/// No two rows bind the same user to the same role.
pub open spec fn distinct_pairs(s: Seq<UserRoleView>) -> bool {
    forall|a: int, b: int|
        0 <= a < b < s.len() ==> !(s[a].user_id == s[b].user_id && s[a].role_id == s[b].role_id)
}

/// Filtering keeps assignment rows pairwise distinct.
pub proof fn lemma_filter_distinct_pairs(s: Seq<UserRoleView>, p: spec_fn(UserRoleView) -> bool)
    requires
        distinct_pairs(s),
    ensures
        distinct_pairs(s.filter(p)),
    decreases s.len(),
{
    reveal_with_fuel(Seq::filter, 1);
    if s.len() > 0 {
        let rest = s.drop_last();
        let l = s.last();
        assert forall|a: int, b: int|
            0 <= a < b < rest.len() implies !(rest[a].user_id == rest[b].user_id && rest[a].role_id
            == rest[b].role_id) by {
            assert(rest[a] == s[a] && rest[b] == s[b]);
        }
        lemma_filter_distinct_pairs(rest, p);
        if p(l) {
            let f = rest.filter(p);
            assert(s.filter(p) == f.push(l));
            assert forall|a: int, b: int|
                0 <= a < b < f.push(l).len() implies !(f.push(l)[a].user_id == f.push(
                l,
            )[b].user_id && f.push(l)[a].role_id == f.push(l)[b].role_id) by {
                if b == f.len() {
                    assert(f.push(l)[a] == f[a]);
                    assert(f.contains(f[a]));
                    rest.lemma_filter_contains_rev(p, f[a]);
                    let j = choose|j: int| 0 <= j < rest.len() && rest[j] == f[a];
                    assert(s[j] == f[a] && s[s.len() - 1] == l);
                } else {
                    assert(f.push(l)[a] == f[a] && f.push(l)[b] == f[b]);
                }
            }
        }
    }
}

/// Pushing an element through a filter.
pub proof fn lemma_filter_push<A>(s: Seq<A>, e: A, p: spec_fn(A) -> bool)
    ensures
        s.push(e).filter(p) == (if p(e) {
            s.filter(p).push(e)
        } else {
            s.filter(p)
        }),
{
    assert(s.push(e) =~= s + seq![e]);
    Seq::<A>::filter_distributes_over_add(s, seq![e], p);
    reveal_with_fuel(Seq::filter, 2);
    assert(seq![e].drop_last() =~= Seq::<A>::empty());
    if p(e) {
        assert(seq![e].filter(p) =~= seq![e]);
        assert(s.filter(p) + seq![e] =~= s.filter(p).push(e));
    } else {
        assert(seq![e].filter(p) =~= Seq::<A>::empty());
        assert(s.filter(p) + Seq::<A>::empty() =~= s.filter(p));
    }
}

fn contains_role(v: &Vec<UserRole>, role_id: u128) -> (r: bool)
    ensures
        r == (exists|k: int| 0 <= k < v@.len() && v@[k].role_id == role_id),
{
    let n = v.len();
    let mut i: usize = 0;
    while i < n
        invariant
            i <= n,
            n == v.len(),
            forall|k: int| 0 <= k < i ==> v@[k].role_id != role_id,
        decreases n - i,
    {
        if v[i].role_id == role_id {
            return true;
        }
        i = i + 1;
    }
    false
}

impl Store {
    /// Replaces the user's role assignments wholesale: every existing row
    /// for the user is removed, then one row is inserted per supplied role
    /// id, recording the assigner and the time. Unknown or repeated role
    /// ids are silently skipped.
    pub fn assign_roles(&mut self, user_id: u128, role_ids: &Vec<u128>, assigned_by: u128, now: i64)
        requires
            old(self).wf(),
        ensures
            final(self).wf(),
            final(self)@ == assign_roles_tr(old(self)@, user_id, role_ids@, assigned_by, now),
    {
        let ghost oldv = self@;
        let ghost pred = |a: UserRoleView| a.user_id != user_id;

        // who stays
        let mut kept: Vec<UserRole> = Vec::new();
        let n = self.assignments.len();
        let mut i: usize = 0;
        proof {
            assert(oldv.assignments.take(0) =~= Seq::<UserRoleView>::empty());
            reveal_with_fuel(Seq::filter, 1);
        }
        while i < n
            invariant
                self.wf(),
                self@ == oldv,
                i <= n,
                n == self.assignments.len(),
                crate::model::user_roles_view(kept@) == oldv.assignments.take(i as int).filter(
                    pred,
                ),
                pred == (|a: UserRoleView| a.user_id != user_id),
                forall|k: int|
                    0 <= k < kept@.len() ==> (#[trigger] kept@[k])@.user_id != user_id,
                forall|k: int| #![trigger kept@[k]]
                    0 <= k < kept@.len() ==> exists|j: int|
                        0 <= j < i && kept@[k]@ == #[trigger] oldv.assignments[j],
            decreases n - i,
        {
            let a = self.assignments[i];
            proof {
                assert(oldv.assignments.take(i + 1) =~= oldv.assignments.take(i as int).push(
                    oldv.assignments[i as int],
                ));
                lemma_filter_push(oldv.assignments.take(i as int), oldv.assignments[i as int], pred);
            }
            if a.user_id != user_id {
                kept.push(a);
                proof {
                    assert(crate::model::user_roles_view(kept@) =~= oldv.assignments.take(
                        i + 1,
                    ).filter(pred));
                    assert forall|k: int| #![trigger kept@[k]]
                        0 <= k < kept@.len() implies exists|j: int|
                        0 <= j < i + 1 && kept@[k]@ == #[trigger] oldv.assignments[j] by {
                        if k < kept@.len() - 1 {
                            let j = choose|j: int|
                                0 <= j < i && kept@[k]@ == #[trigger] oldv.assignments[j];
                            assert(0 <= j < i + 1 && kept@[k]@ == oldv.assignments[j]);
                        } else {
                            assert(kept@[k]@ == oldv.assignments[i as int]);
                        }
                    }
                }
            }
            i = i + 1;
        }
        proof {
            assert(oldv.assignments.take(n as int) =~= oldv.assignments);
        }

        // who comes in
        let user_ok = self.find_user_by_id(user_id).is_some();
        let mut add: Vec<UserRole> = Vec::new();
        let m = role_ids.len();
        let mut t: usize = 0;
        proof {
            assert(role_ids@.take(0) =~= Seq::<u128>::empty());
            assert(crate::model::user_roles_view(add@) =~= rows_of(
                inserted_ids(oldv, user_id, role_ids@.take(0)),
                user_id,
                assigned_by,
                now,
            ));
        }
        while t < m
            invariant
                self.wf(),
                self@ == oldv,
                t <= m,
                m == role_ids.len(),
                user_ok == user_exists(oldv, user_id),
                crate::model::user_roles_view(add@) == rows_of(
                    inserted_ids(oldv, user_id, role_ids@.take(t as int)),
                    user_id,
                    assigned_by,
                    now,
                ),
            decreases m - t,
        {
            let rid = role_ids[t];
            let ghost prefix = role_ids@.take(t as int);
            let ghost prev = inserted_ids(oldv, user_id, prefix);
            proof {
                assert(role_ids@.take(t + 1) =~= prefix.push(rid));
                assert(role_ids@.take(t + 1).drop_last() =~= prefix);
                assert(role_ids@.take(t + 1).last() == rid);
            }
            let role_ok = self.find_role_by_id(rid).is_some();
            let already = contains_role(&add, rid);
            proof {
                // `add` holds exactly the rows for `prev`
                assert(rows_of(prev, user_id, assigned_by, now).len() == prev.len());
                assert(add@.len() == prev.len());
                assert forall|k: int|
                    0 <= k < add@.len() implies (#[trigger] add@[k])@.role_id == prev[k] by {
                    assert(add@[k]@ == rows_of(prev, user_id, assigned_by, now)[k]);
                }
                if already {
                    let k = choose|k: int| 0 <= k < add@.len() && add@[k].role_id == rid;
                    assert(add@[k]@.role_id == rid);
                    assert(prev[k] == rid);
                    assert(prev.contains(rid));
                }
                if prev.contains(rid) {
                    let k = choose|k: int| 0 <= k < prev.len() && prev[k] == rid;
                    assert(add@[k]@.role_id == rid);
                }
            }
            if user_ok && role_ok && !already {
                add.push(UserRole {
                    user_id: user_id,
                    role_id: rid,
                    assigned_at: now,
                    assigned_by: Some(assigned_by),
                });
                proof {
                    assert(inserted_ids(oldv, user_id, role_ids@.take(t + 1)) =~= prev.push(rid));
                    assert(rows_of(prev.push(rid), user_id, assigned_by, now) =~= rows_of(
                        prev,
                        user_id,
                        assigned_by,
                        now,
                    ).push(asn_of(user_id, rid, assigned_by, now)));
                    assert(crate::model::user_roles_view(add@) =~= rows_of(
                        inserted_ids(oldv, user_id, role_ids@.take(t + 1)),
                        user_id,
                        assigned_by,
                        now,
                    ));
                }
            } else {
                proof {
                    assert(inserted_ids(oldv, user_id, role_ids@.take(t + 1)) =~= prev);
                }
            }
            t = t + 1;
        }
        proof {
            assert(role_ids@.take(m as int) =~= role_ids@);
        }

        // splice
        let ghost addv = crate::model::user_roles_view(add@);
        let ghost keptv = crate::model::user_roles_view(kept@);
        let mut combined = kept;
        combined.append(&mut add);
        proof {
            assert(crate::model::user_roles_view(combined@) =~= keptv + addv);
        }
        self.assignments = combined;

        proof {
            let newv = self@;
            let tr = assign_roles_tr(oldv, user_id, role_ids@, assigned_by, now);
            assert(newv.assignments =~= keptv + addv);
            assert(newv =~= tr);

            // well-formedness
            lemma_inserted_ids_props(oldv, user_id, role_ids@);
            let ins = inserted_ids(oldv, user_id, role_ids@);
            assert(addv.len() == ins.len());
            assert forall|k: int| 0 <= k < addv.len() implies #[trigger] addv[k] == asn_of(
                user_id,
                ins[k],
                assigned_by,
                now,
            ) by {}
            // every kept row keeps its witness in the old store
            assert forall|k: int|
                0 <= k < newv.assignments.len() implies user_exists(
                newv,
                (#[trigger] newv.assignments[k]).user_id,
            ) && role_exists(newv, newv.assignments[k].role_id) by {
                assert(newv.users == oldv.users);
                assert(newv.roles == oldv.roles);
                if k < keptv.len() {
                    let j = choose|j: int|
                        0 <= j < oldv.assignments.len() && keptv[k] == #[trigger] oldv.assignments[j];
                    assert(user_exists(oldv, oldv.assignments[j].user_id));
                    assert(role_exists(oldv, oldv.assignments[j].role_id));
                } else {
                    let idx = k - keptv.len();
                    assert(newv.assignments[k] == addv[idx]);
                    assert(addv[idx] == rows_of(ins, user_id, assigned_by, now)[idx]);
                    assert(addv[idx] == asn_of(user_id, ins[idx], assigned_by, now));
                    assert(ins.contains(ins[idx]));
                    assert(user_exists(oldv, user_id));
                    assert(role_exists(oldv, ins[idx]));
                }
            }
            assert forall|a: int, b: int|
                0 <= a < b < newv.assignments.len() implies !(newv.assignments[a].user_id
                == newv.assignments[b].user_id && newv.assignments[a].role_id
                == newv.assignments[b].role_id) by {
                if a < keptv.len() && b < keptv.len() {
                    lemma_filter_distinct_pairs(oldv.assignments, pred);
                    assert(keptv == oldv.assignments.filter(pred));
                } else if a < keptv.len() {
                    assert(newv.assignments[a].user_id != user_id);
                    assert(newv.assignments[b].user_id == user_id);
                } else {
                    assert(newv.assignments[a] == addv[a - keptv.len()]);
                    assert(newv.assignments[b] == addv[b - keptv.len()]);
                    assert(ins[a - keptv.len()] != ins[b - keptv.len()]);
                }
            }
            assert(wf_store(newv));
        }
    }
}

} // verus!
