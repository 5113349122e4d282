//! The authorization gate: the pure check every mutating or sensitive
//! operation applies right after identity resolution and before any side
//! effect.

use vstd::prelude::*;

use crate::error::Error;
use crate::identity::{has_permission, CurrentUser, CurrentUserView};

verus! {

pub open spec fn opt_view(identity: Option<&CurrentUser>) -> Option<CurrentUserView> {
    match identity {
        Some(u) => Some(u@),
        None => None,
    }
}

/// Decides authorization for one required permission key.
pub open spec fn authorize_spec(identity: Option<CurrentUserView>, required: Seq<char>) -> Result<
    (),
    Error,
> {
    match identity {
        None => Err(Error::Unauthenticated),
        Some(u) => if u.permissions.contains(required) {
            Ok(())
        } else {
            Err(Error::Forbidden)
        },
    }
}

/// Decides authorization for an operation on a target user account.
pub open spec fn authorize_user_action_spec(
    identity: Option<CurrentUserView>,
    required: Seq<char>,
    target: u128,
) -> Result<(), Error> {
    match identity {
        None => Err(Error::Unauthenticated),
        Some(u) => if !u.permissions.contains(required) {
            Err(Error::Forbidden)
        } else if u.id == target {
            Err(Error::InvalidRequest)
        } else {
            Ok(())
        },
    }
}

/// Checks that the identity exists and holds the required permission
/// key. Keys compare exactly: case-sensitive, no wildcards.
pub fn authorize(identity: Option<&CurrentUser>, required: &str) -> (r: Result<(), Error>)
    ensures
        r == authorize_spec(opt_view(identity), required@),
{
    match identity {
        None => Err(Error::Unauthenticated),
        Some(u) => {
            if has_permission(&u.permissions, required) {
                Ok(())
            } else {
                Err(Error::Forbidden)
            }
        },
    }
}

/// [`authorize`], plus the self-action guard for operations aimed at a
/// target user.
pub fn authorize_user_action(identity: Option<&CurrentUser>, required: &str, target: u128) -> (r:
    Result<(), Error>)
    ensures
        r == authorize_user_action_spec(opt_view(identity), required@, target),
{
    match identity {
        None => Err(Error::Unauthenticated),
        Some(u) => {
            if !has_permission(&u.permissions, required) {
                Err(Error::Forbidden)
            } else if u.id == target {
                Err(Error::InvalidRequest)
            } else {
                Ok(())
            }
        },
    }
}

} // verus!
