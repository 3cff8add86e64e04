//! Session resolution: a session token names a user, and stands only if the
//! store holds a user with that identity.
use vstd::prelude::*;
use crate::model::{UsedIdError, UserId};
use crate::query::{query_with, GraphQuery, ParamValue};

verus! {

/// Fetches the user with a given identity.
pub const USER_BY_ID: &'static str = "MATCH (u:User) WHERE u.id = $id RETURN u";

/// The query that looks up the user a session token names.
pub fn get_user_from_db(token: &String) -> (q: GraphQuery)
    ensures
        q@ == (USER_BY_ID@, seq![("id"@, ParamValue::Text(token@))]),
{
    query_with(USER_BY_ID, "id", token)
}

/// Resolves a session: no token is `Missing`; a token for which the lookup
/// found no user is `Invalid`; otherwise the token is the user's identity.
pub fn resolve_identity(token: Option<String>, user_found: bool) -> (r: Result<UserId, UsedIdError>)
    ensures
        token is None ==> r == Err::<UserId, UsedIdError>(UsedIdError::Missing),
        token is Some && !user_found ==> r == Err::<UserId, UsedIdError>(UsedIdError::Invalid),
        token is Some && user_found ==> r is Ok && r->Ok_0.0@ == token->0@,
{
    match token {
        None => Err(UsedIdError::Missing),
        Some(t) => if user_found {
            Ok(UserId(t))
        } else {
            Err(UsedIdError::Invalid)
        },
    }
}

} // verus!
