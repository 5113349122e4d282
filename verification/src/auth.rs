//! Login and registration: credential checking against the store, token
//! issue, the session tracking record, and account self-registration.

use vstd::prelude::*;
use vstd::string::StringExecFns;

use crate::credential::{hash_password, password_verifies, verify_password};
use crate::error::Error;
use crate::ids::uuid_text;
use crate::model::{CreateUser, LoginForm, RegisterForm, Session, SessionView, User, UserView};
use crate::store::{email_exists, user_by_email, user_exists, wf_store, Store, StoreView};
use crate::team::insert_user_tr;
use crate::token::{create_token_at, jwt_payload, jwt_token, TOKEN_TTL_SECONDS};

verus! {

/// The login credentials name an account that is active, unlocked, and
/// whose stored hash accepts the password.
pub open spec fn credentials_good(s: StoreView, email: Seq<char>, password: Seq<char>) -> bool {
    &&& email_exists(s, email)
    &&& user_by_email(s, email).is_active
    &&& !user_by_email(s, email).is_locked
    &&& password_verifies(password, user_by_email(s, email).password_hash)
}

/// Checks the credentials: the account must exist by email, be active
/// and unlocked, and the password must verify against the stored hash.
/// Every failure reads the same way; nothing says which part failed.
pub fn authenticate_user(store: &Store, email: &str, password: &str) -> (r: Result<User, Error>)
    requires
        store.wf(),
    ensures
        match r {
            Ok(u) => credentials_good(store@, email@, password@) && u@ == user_by_email(
                store@,
                email@,
            ),
            Err(e) => e == Error::Unauthenticated && !credentials_good(store@, email@, password@),
        },
{
    match store.find_user_by_email(email) {
        Some(user) => {
            if user.is_active && !user.is_locked && verify_password(password, user.password_hash.as_str()) {
                Ok(user.duplicate())
            } else {
                Err(Error::Unauthenticated)
            }
        },
        None => Err(Error::Unauthenticated),
    }
}

/// What a successful login does to the store: a session tracking record
/// appended (dropped without error when no identifier is left) and the
/// account's last-login instant set.
pub open spec fn login_tr(s: StoreView, user_id: u128, now: i64) -> StoreView {
    let with_session = if s.next_id == u128::MAX {
        s
    } else {
        StoreView {
            sessions: s.sessions.push(
                SessionView { id: s.next_id, user_id: user_id, expires_at: (now
                    + TOKEN_TTL_SECONDS) as i64 },
            ),
            next_id: (s.next_id + 1) as u128,
            ..s
        }
    };
    StoreView {
        users: Seq::new(
            with_session.users.len(),
            |i: int|
                if with_session.users[i].id == user_id {
                    UserView { last_login: Some(now), ..with_session.users[i] }
                } else {
                    with_session.users[i]
                },
        ),
        ..with_session
    }
}

/// Logs an account in: checks the credentials, issues a signed token
/// expiring a day later, writes the session tracking record (best
/// effort) and sets the last-login instant. Good credentials always log
/// in; bad ones read as one kind of failure, whatever was wrong with
/// them.
pub fn login(store: &mut Store, form: &LoginForm, secret: &[u8], now: i64) -> (r: Result<
    String,
    Error,
>)
    requires
        old(store).wf(),
        now + TOKEN_TTL_SECONDS <= i64::MAX,
    ensures
        final(store).wf(),
        credentials_good(old(store)@, form.email@, form.password@) ==> r is Ok,
        match r {
            Ok(t) => credentials_good(old(store)@, form.email@, form.password@) && t@ == jwt_token(
                uuid_text(user_by_email(old(store)@, form.email@).id),
                user_by_email(old(store)@, form.email@).email,
                (now + TOKEN_TTL_SECONDS) as i64,
                now,
                secret@,
            ) && jwt_payload(t@, secret@) == Some(
                (
                    uuid_text(user_by_email(old(store)@, form.email@).id),
                    user_by_email(old(store)@, form.email@).email,
                    (now + TOKEN_TTL_SECONDS) as i64,
                    now,
                ),
            ) && final(store)@ == login_tr(
                old(store)@,
                user_by_email(old(store)@, form.email@).id,
                now,
            ),
            Err(e) => final(store)@ == old(store)@ && e == Error::Unauthenticated
                && !credentials_good(old(store)@, form.email@, form.password@),
        },
{
    let user = match authenticate_user(store, form.email.as_str(), form.password.as_str()) {
        Ok(u) => u,
        Err(e) => {
            return Err(e);
        },
    };
    let token = match create_token_at(user.id, user.email.as_str(), secret, now) {
        Ok(t) => t,
        Err(_) => {
            proof {
                assert(false);
            }
            return Err(Error::StoreUnavailable);
        },
    };
    let ghost oldv = store@;

    // session tracking record, best effort
    if store.next_id < u128::MAX {
        let session = Session { id: store.next_id, user_id: user.id, expires_at: now
            + TOKEN_TTL_SECONDS };
        store.sessions.push(session);
        store.next_id = store.next_id + 1;
    }
    let ghost midv = store@;
    proof {
        if oldv.next_id == u128::MAX {
            assert(midv =~= oldv);
        } else {
            assert(midv =~= (StoreView {
                sessions: oldv.sessions.push(
                    SessionView { id: oldv.next_id, user_id: user@.id, expires_at: (now
                        + TOKEN_TTL_SECONDS) as i64 },
                ),
                next_id: (oldv.next_id + 1) as u128,
                ..oldv
            }));
            assert forall|i: int|
                0 <= i < midv.sessions.len() implies (#[trigger] midv.sessions[i]).id
                < midv.next_id by {
                if i < midv.sessions.len() - 1 {
                    assert(midv.sessions[i] == oldv.sessions[i]);
                    assert(oldv.sessions[i].id < oldv.next_id);
                }
            }
            assert forall|i: int|
                0 <= i < midv.users.len() implies (#[trigger] midv.users[i]).id
                < midv.next_id by {
                assert(oldv.users[i].id < oldv.next_id);
            }
            assert forall|i: int|
                0 <= i < midv.roles.len() implies (#[trigger] midv.roles[i]).id
                < midv.next_id by {
                assert(oldv.roles[i].id < oldv.next_id);
            }
            assert forall|i: int|
                0 <= i < midv.audit.len() implies (#[trigger] midv.audit[i]).id
                < midv.next_id by {
                assert(oldv.audit[i].id < oldv.next_id);
            }
            assert forall|k: int|
                0 <= k < midv.assignments.len() implies user_exists(
                midv,
                (#[trigger] midv.assignments[k]).user_id,
            ) && crate::store::role_exists(midv, midv.assignments[k].role_id) by {
                assert(user_exists(oldv, oldv.assignments[k].user_id));
                assert(crate::store::role_exists(oldv, oldv.assignments[k].role_id));
            }
            assert(wf_store(midv));
        }
    }

    // last login
    match store.find_user_idx(user.id) {
        Some(i) => {
            let u = &store.users[i];
            let updated = User { last_login: Some(now), ..u.duplicate() };
            store.users[i] = updated;
            proof {
                assert(store@.users =~= login_tr(oldv, user@.id, now).users);
                assert(store@ =~= login_tr(oldv, user@.id, now));
                assert forall|a: int, b: int|
                    0 <= a < b < store@.users.len() implies store@.users[a].id
                    != store@.users[b].id && store@.users[a].email != store@.users[b].email by {
                    assert(store@.users[a].id == midv.users[a].id && store@.users[a].email
                        == midv.users[a].email);
                    assert(store@.users[b].id == midv.users[b].id && store@.users[b].email
                        == midv.users[b].email);
                }
                assert forall|x: u128| user_exists(midv, x) implies user_exists(store@, x) by {
                    let w = choose|w: int| 0 <= w < midv.users.len() && midv.users[w].id == x;
                    assert(store@.users[w].id == x);
                }
                assert forall|x: u128|
                    crate::store::role_exists(midv, x) implies crate::store::role_exists(
                    store@,
                    x,
                ) by {
                    let w = choose|w: int| 0 <= w < midv.roles.len() && midv.roles[w].id == x;
                    assert(store@.roles[w].id == x);
                }
                assert forall|k: int|
                    0 <= k < store@.assignments.len() implies user_exists(
                    store@,
                    (#[trigger] store@.assignments[k]).user_id,
                ) && crate::store::role_exists(store@, store@.assignments[k].role_id) by {
                    assert(user_exists(midv, midv.assignments[k].user_id));
                    assert(crate::store::role_exists(midv, midv.assignments[k].role_id));
                }
                assert(wf_store(store@));
            }
        },
        None => {
            proof {
                assert(store@.users =~= login_tr(oldv, user@.id, now).users);
                assert(store@ =~= login_tr(oldv, user@.id, now));
            }
        },
    }
    Ok(token)
}

/// Inserts a registered account: active, unlocked, with the given
/// already-computed password hash. The email must be unused.
pub fn create_user_in_db(
    store: &mut Store,
    user_data: &CreateUser,
    password_hash: &str,
    now: i64,
) -> (r: Result<u128, Error>)
    requires
        old(store).wf(),
    ensures
        final(store).wf(),
        match r {
            Ok(uid) => !email_exists(old(store)@, user_data.email@) && old(store)@.next_id
                < u128::MAX && uid == old(store)@.next_id && final(store)@ == insert_user_tr(
                old(store)@,
                user_data.email@,
                user_data.first_name@,
                user_data.last_name@,
                password_hash@,
                true,
                now,
            ),
            Err(e) => final(store)@ == old(store)@ && (if email_exists(
                old(store)@,
                user_data.email@,
            ) {
                e == Error::InvalidRequest
            } else {
                e == Error::StoreUnavailable && old(store)@.next_id == u128::MAX
            }),
        },
{
    if store.find_user_by_email(user_data.email.as_str()).is_some() {
        return Err(Error::InvalidRequest);
    }
    if store.next_id == u128::MAX {
        return Err(Error::StoreUnavailable);
    }
    let ghost oldv = store@;
    let new_id = store.next_id;
    let user = User {
        id: new_id,
        email: user_data.email.clone(),
        password_hash: String::from_str(password_hash),
        first_name: user_data.first_name.clone(),
        last_name: user_data.last_name.clone(),
        is_active: true,
        is_locked: false,
        last_login: None,
        locked_at: None,
        locked_by: None,
        created_at: now,
        updated_at: now,
    };
    store.users.push(user);
    store.next_id = store.next_id + 1;
    proof {
        let newv = store@;
        assert(newv =~= insert_user_tr(
            oldv,
            user_data.email@,
            user_data.first_name@,
            user_data.last_name@,
            password_hash@,
            true,
            now,
        ));
        assert forall|i: int, j: int|
            0 <= i < j < newv.users.len() implies newv.users[i].id != newv.users[j].id
            && newv.users[i].email != newv.users[j].email by {
            if j == newv.users.len() - 1 {
                assert(newv.users[i] == oldv.users[i]);
                assert(oldv.users[i].id < oldv.next_id);
                if oldv.users[i].email == user_data.email@ {
                    assert(email_exists(oldv, user_data.email@));
                }
            } else {
                assert(newv.users[i] == oldv.users[i] && newv.users[j] == oldv.users[j]);
            }
        }
        assert forall|k: int|
            0 <= k < newv.assignments.len() implies user_exists(
            newv,
            (#[trigger] newv.assignments[k]).user_id,
        ) && crate::store::role_exists(newv, newv.assignments[k].role_id) by {
            assert(user_exists(oldv, oldv.assignments[k].user_id));
            let w = choose|w: int|
                0 <= w < oldv.users.len() && oldv.users[w].id == oldv.assignments[k].user_id;
            assert(newv.users[w] == oldv.users[w]);
            assert(crate::store::role_exists(oldv, oldv.assignments[k].role_id));
            let v = choose|v: int|
                0 <= v < oldv.roles.len() && oldv.roles[v].id == oldv.assignments[k].role_id;
            assert(newv.roles[v].id == newv.assignments[k].role_id);
        }
        assert(wf_store(newv));
    }
    Ok(new_id)
}

/// One acceptable outcome of a registration, for a given fresh hash `h`.
pub open spec fn register_outcome(
    s0: StoreView,
    s1: StoreView,
    email: Seq<char>,
    first: Seq<char>,
    last: Seq<char>,
    password: Seq<char>,
    now: i64,
    h: Seq<char>,
) -> bool {
    &&& s1 == insert_user_tr(s0, email, first, last, h, true, now)
    &&& password_verifies(password, h)
}

/// Registers a new account: hashes the password and inserts an active,
/// unlocked account. A used email is refused as a bad request.
pub fn register(store: &mut Store, form: &RegisterForm, now: i64) -> (r: Result<u128, Error>)
    requires
        old(store).wf(),
    ensures
        final(store).wf(),
        match r {
            Ok(uid) => !email_exists(old(store)@, form.email@) && old(store)@.next_id < u128::MAX
                && uid == old(store)@.next_id && (exists|h: Seq<char>|
                #[trigger] register_outcome(
                    old(store)@,
                    final(store)@,
                    form.email@,
                    form.first_name@,
                    form.last_name@,
                    form.password@,
                    now,
                    h,
                )),
            Err(e) => final(store)@ == old(store)@ && (e == Error::InvalidRequest ==> email_exists(
                old(store)@,
                form.email@,
            )) && (e == Error::InvalidRequest || e == Error::StoreUnavailable),
        },
{
    let password_hash = match hash_password(form.password.as_str()) {
        Ok(h) => h,
        Err(_) => {
            return Err(Error::StoreUnavailable);
        },
    };
    let user_data = CreateUser {
        email: form.email.clone(),
        password: form.password.clone(),
        first_name: form.first_name.clone(),
        last_name: form.last_name.clone(),
    };
    match create_user_in_db(store, &user_data, password_hash.as_str(), now) {
        Ok(uid) => {
            proof {
                assert(register_outcome(
                    old(store)@,
                    store@,
                    form.email@,
                    form.first_name@,
                    form.last_name@,
                    form.password@,
                    now,
                    password_hash@,
                ));
            }
            Ok(uid)
        },
        Err(e) => Err(e),
    }
}

} // verus!
