//! Effective permissions: the deduplicated, sorted union of the
//! permission keys of every active role a user holds.

use vstd::prelude::*;

use crate::model::{strictly_sorted, strs_view};
use crate::order::{lex_lt, lemma_lex_lt_trans, lemma_lex_trichotomy, str_eq, str_lt};
use crate::store::{is_assigned, Store, StoreView};

verus! {

/// `p` is granted by one of the first `n` roles of the store: that role is
/// active, assigned to the user, and carries the key.
pub open spec fn in_effective_upto(s: StoreView, user_id: u128, n: int, p: Seq<char>) -> bool {
    exists|k: int|
        0 <= k < n && k < s.roles.len() && (#[trigger] s.roles[k]).is_active
            && is_assigned(s, user_id, s.roles[k].id) && s.roles[k].permissions.contains(p)
}

/// The permission set a user actually has: the union of the keys of all
/// active roles currently assigned to the user.
pub open spec fn effective_permissions(s: StoreView, user_id: u128) -> Set<Seq<char>> {
    Set::new(|p: Seq<char>| in_effective_upto(s, user_id, s.roles.len() as int, p))
}

/// The first position whose entry is not lexicographically below `x`.
fn lower_bound(v: &Vec<String>, x: &str) -> (k: usize)
    requires
        strictly_sorted(strs_view(v@)),
    ensures
        k <= v.len(),
        forall|j: int| 0 <= j < k ==> lex_lt(strs_view(v@)[j], x@),
        k < v.len() ==> !lex_lt(strs_view(v@)[k as int], x@),
{
    let n = v.len();
    let mut k: usize = 0;
    while k < n
        invariant
            k <= n,
            n == v.len(),
            strictly_sorted(strs_view(v@)),
            forall|j: int| 0 <= j < k ==> lex_lt(strs_view(v@)[j], x@),
        decreases n - k,
    {
        if str_lt(v[k].as_str(), x) {
            assert(lex_lt(strs_view(v@)[k as int], x@));
            k = k + 1;
        } else {
            return k;
        }
    }
    k
}

/// Inserts `x` into a strictly sorted list, keeping it sorted and
/// duplicate-free; a key already present is left alone.
pub fn insert_sorted_unique(v: &mut Vec<String>, x: String)
    requires
        strictly_sorted(strs_view(old(v)@)),
    ensures
        strictly_sorted(strs_view(final(v)@)),
        forall|p: Seq<char>|
            strs_view(final(v)@).contains(p) <==> (strs_view(old(v)@).contains(p) || p == x@),
{
    let ghost olds = strs_view(old(v)@);
    let k = lower_bound(v, x.as_str());
    if k < v.len() && str_eq(v[k].as_str(), x.as_str()) {
        proof {
            assert(olds[k as int] == x@);
            assert(olds.contains(x@));
            assert forall|p: Seq<char>|
                strs_view(v@).contains(p) <==> (olds.contains(p) || p == x@) by {
                if p == x@ {
                    assert(strs_view(v@)[k as int] == x@);
                    assert(strs_view(v@).contains(p));
                }
            }
        }
    } else {
        proof {
            if k < v.len() {
                lemma_lex_trichotomy(x@, olds[k as int]);
                assert(lex_lt(x@, olds[k as int]));
            }
        }
        v.insert(k, x);
        proof {
            let news = strs_view(v@);
            assert(v@ == old(v)@.insert(k as int, x));
            assert(news.len() == olds.len() + 1);
            assert forall|i: int| 0 <= i < k implies news[i] == olds[i] by {
                assert(v@[i] == old(v)@[i]);
            }
            assert(news[k as int] == x@);
            assert forall|i: int| k < i < news.len() implies news[i] == olds[i - 1] by {
                assert(v@[i] == old(v)@[i - 1]);
            }
            // sortedness
            assert forall|i: int, j: int| 0 <= i < j < news.len() implies lex_lt(
                news[i],
                news[j],
            ) by {
                if j < k {
                    assert(lex_lt(olds[i], olds[j]));
                } else if j == k {
                    // news[i] == olds[i] and olds[i] < x
                    assert(lex_lt(olds[i], x@));
                } else {
                    // j > k
                    if i < k {
                        if olds.len() > k {
                            lemma_lex_lt_trans(olds[i], x@, olds[k as int]);
                            if j - 1 > k {
                                lemma_lex_lt_trans(olds[i], olds[k as int], olds[j - 1]);
                            }
                        } else {
                            assert(j - 1 < olds.len());
                            assert(lex_lt(olds[i], olds[j - 1]));
                        }
                    } else if i == k {
                        assert(lex_lt(x@, olds[k as int]));
                        if j - 1 > k {
                            lemma_lex_lt_trans(x@, olds[k as int], olds[j - 1]);
                        }
                    } else {
                        assert(lex_lt(olds[i - 1], olds[j - 1]));
                    }
                }
            }
            // membership
            assert forall|p: Seq<char>|
                news.contains(p) <==> (olds.contains(p) || p == x@) by {
                if news.contains(p) {
                    let i = choose|i: int| 0 <= i < news.len() && news[i] == p;
                    if i < k {
                        assert(olds[i] == p);
                        assert(olds.contains(p));
                    } else if i == k {
                        assert(p == x@);
                    } else {
                        assert(olds[i - 1] == p);
                        assert(olds.contains(p));
                    }
                }
                if olds.contains(p) {
                    let i = choose|i: int| 0 <= i < olds.len() && olds[i] == p;
                    if i < k {
                        assert(news[i] == p);
                    } else {
                        assert(news[i + 1] == p);
                    }
                    assert(news.contains(p));
                }
                if p == x@ {
                    assert(news[k as int] == p);
                    assert(news.contains(p));
                }
            }
        }
    }
}

/// The effective permission set of a user, as a sorted, deduplicated list
/// of keys: the union over all active roles assigned to the user.
pub fn get_user_permissions(store: &Store, user_id: u128) -> (r: Vec<String>)
    requires
        store.wf(),
    ensures
        strictly_sorted(strs_view(r@)),
        forall|p: Seq<char>|
            strs_view(r@).contains(p) <==> effective_permissions(store@, user_id).contains(p),
{
    let mut acc: Vec<String> = Vec::new();
    let nroles = store.roles.len();
    let mut i: usize = 0;
    while i < nroles
        invariant
            store.wf(),
            i <= nroles,
            nroles == store.roles.len(),
            strictly_sorted(strs_view(acc@)),
            forall|p: Seq<char>|
                strs_view(acc@).contains(p) <==> in_effective_upto(store@, user_id, i as int, p),
        decreases nroles - i,
    {
        let active = store.roles[i].is_active;
        let role_id = store.roles[i].id;
        if active && store.assigned(user_id, role_id) {
            let nperms = store.roles[i].permissions.len();
            let mut j: usize = 0;
            while j < nperms
                invariant
                    store.wf(),
                    i < nroles,
                    nroles == store.roles.len(),
                    j <= nperms,
                    nperms == store.roles[i as int].permissions.len(),
                    store@.roles[i as int].is_active,
                    is_assigned(store@, user_id, store@.roles[i as int].id),
                    strictly_sorted(strs_view(acc@)),
                    forall|p: Seq<char>|
                        strs_view(acc@).contains(p) <==> (in_effective_upto(
                            store@,
                            user_id,
                            i as int,
                            p,
                        ) || (exists|l: int|
                            0 <= l < j && store@.roles[i as int].permissions[l] == p)),
                decreases nperms - j,
            {
                let key = store.roles[i].permissions[j].clone();
                assert(key@ == store@.roles[i as int].permissions[j as int]);
                insert_sorted_unique(&mut acc, key);
                proof {
                    assert forall|p: Seq<char>|
                        strs_view(acc@).contains(p) <==> (in_effective_upto(
                            store@,
                            user_id,
                            i as int,
                            p,
                        ) || (exists|l: int|
                            0 <= l < j + 1 && store@.roles[i as int].permissions[l] == p)) by {
                        if p == store@.roles[i as int].permissions[j as int] {
                            assert(store@.roles[i as int].permissions[j as int] == p);
                        }
                    }
                }
                j = j + 1;
            }
            proof {
                assert forall|p: Seq<char>|
                    strs_view(acc@).contains(p) <==> in_effective_upto(
                        store@,
                        user_id,
                        i as int + 1,
                        p,
                    ) by {
                    if in_effective_upto(store@, user_id, i as int + 1, p) {
                        let k = choose|k: int|
                            0 <= k < i as int + 1 && k < store@.roles.len() && (#[trigger] store@
                                .roles[k]).is_active && is_assigned(
                                store@,
                                user_id,
                                store@.roles[k].id,
                            ) && store@.roles[k].permissions.contains(p);
                        if k < i as int {
                            assert(in_effective_upto(store@, user_id, i as int, p));
                        } else {
                            let l = choose|l: int|
                                0 <= l < store@.roles[k].permissions.len()
                                    && store@.roles[k].permissions[l] == p;
                            assert(store@.roles[i as int].permissions[l] == p);
                        }
                    }
                    if strs_view(acc@).contains(p) {
                        if in_effective_upto(store@, user_id, i as int, p) {
                            let k = choose|k: int|
                                0 <= k < i as int && k < store@.roles.len() && (#[trigger] store@
                                    .roles[k]).is_active && is_assigned(
                                    store@,
                                    user_id,
                                    store@.roles[k].id,
                                ) && store@.roles[k].permissions.contains(p);
                            assert(in_effective_upto(store@, user_id, i as int + 1, p));
                        } else {
                            let l = choose|l: int|
                                0 <= l < nperms as int && store@.roles[i as int].permissions[l]
                                    == p;
                            assert(store@.roles[i as int].permissions.contains(p));
                            assert(in_effective_upto(store@, user_id, i as int + 1, p));
                        }
                    }
                }
            }
        } else {
            proof {
                assert forall|p: Seq<char>|
                    in_effective_upto(store@, user_id, i as int + 1, p) <==> in_effective_upto(
                        store@,
                        user_id,
                        i as int,
                        p,
                    ) by {
                    if in_effective_upto(store@, user_id, i as int + 1, p) {
                        let k = choose|k: int|
                            0 <= k < i as int + 1 && k < store@.roles.len() && (#[trigger] store@
                                .roles[k]).is_active && is_assigned(
                                store@,
                                user_id,
                                store@.roles[k].id,
                            ) && store@.roles[k].permissions.contains(p);
                        assert(k < i as int);
                    }
                }
            }
        }
        i = i + 1;
    }
    acc
}

} // verus!
