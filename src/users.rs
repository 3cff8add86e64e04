//! User accounts: checking a registration, detecting a taken user name or
//! e-mail address, storing the account, and deciding a login.
use vstd::prelude::*;
use vstd::string::*;
use crate::model::{Status, User};
use crate::query::{bind, query_with, query_with2, text, GraphQuery, Param, ParamValue, QueryView};
use crate::records::{parse_uuid, text_or_empty, uuid_value};
use crate::credentials::{argon2_accepts, hash_new_password};

verus! {

/// The fewest characters a user name may have.
pub const MIN_USERNAME_LEN: u64 = 3;

/// The fewest characters a password may have.
pub const MIN_PASSWORD_LEN: u64 = 10;

/// The role a new account gets.
pub const DEFAULT_ROLE: &'static str = "pentacoob";

/// Fetches a user that already has the user name or the e-mail address.
pub const USER_CONFLICT: &'static str =
    "MATCH (u:User) WHERE u.username = $u_name OR u.email = $u_mail RETURN u";

/// Stores a new account.
pub const CREATE_USER: &'static str =
    "CREATE (:User {username: $uname, id: $uid, password: $pass, email: $mail, role: $role})";

/// Fetches the user with a given user name.
pub const USER_BY_NAME: &'static str = "MATCH (u:User) WHERE u.username = $name RETURN u";

/// Whether a text is a valid e-mail address, as the validator crate decides.
pub uninterp spec fn email_ok(s: Seq<char>) -> bool;

/// Relies on validator's `validate_email`: its verdict depends on the text
/// alone, and it rejects a text that is empty or has no `@`.
#[verifier::external_body]
fn validate_email(s: &String) -> (r: bool)
    ensures
        r == email_ok(s@),
        r ==> s@.len() > 0 && s@.contains('@'),
{
    validator::validate_email(s)
}

/// Relies on validator's `validate_length` with only a minimum: true when
/// the text has at least `min` characters.
#[verifier::external_body]
fn validate_min_length(s: &String, min: u64) -> (r: bool)
    ensures
        r == (s@.len() >= min),
{
    validator::validate_length(s, Some(min), None, None)
}

/// A registration is acceptable: a valid e-mail address, a user name of at
/// least three characters and a password of at least ten.
pub open spec fn registration_ok(user: User) -> bool {
    &&& email_ok(text_or_empty(user.email))
    &&& user.username@.len() >= MIN_USERNAME_LEN
    &&& user.password@.len() >= MIN_PASSWORD_LEN
}

/// Checks a registration; an absent e-mail address counts as the empty text.
pub fn validate_new_user(user: &User) -> (r: bool)
    ensures
        r == registration_ok(*user),
{
    let empty = String::new();
    let email = match &user.email {
        Some(e) => e,
        None => &empty,
    };
    assert(email@ == text_or_empty(user.email));
    validate_email(email) && validate_min_length(&user.username, MIN_USERNAME_LEN)
        && validate_min_length(&user.password, MIN_PASSWORD_LEN)
}

/// The query that looks for an account with the user name or e-mail address.
pub fn conflict_lookup(username: &String, email: &String) -> (q: GraphQuery)
    ensures
        q@ == (
            USER_CONFLICT@,
            seq![("u_name"@, ParamValue::Text(username@)), ("u_mail"@, ParamValue::Text(email@))],
        ),
{
    query_with2(USER_CONFLICT, "u_name", username, "u_mail", email)
}

/// The conflict that an account found by the lookup, given as its user name
/// and e-mail address, makes with a registration.
pub open spec fn conflict_outcome(
    existing: Option<(String, String)>,
    username: Seq<char>,
    email: Seq<char>,
) -> Option<Status> {
    match existing {
        None => None,
        Some(found) => if found.0@ == username {
            Some(Status::Forbidden)
        } else if found.1@ == email {
            Some(Status::Unauthorized)
        } else {
            None
        },
    }
}

/// Decides on the account that the conflict lookup found, given as its user
/// name and e-mail address: a taken user name is `Forbidden`, a taken e-mail
/// address `Unauthorized`; no account, or one that matches neither, is no
/// conflict.
pub fn registration_conflict(existing: Option<(String, String)>, username: &String, email: &String) -> (r:
    Option<Status>)
    ensures
        r == conflict_outcome(existing, username@, email@),
{
    match existing {
        None => None,
        Some((name, mail)) => {
            if name == *username {
                Some(Status::Forbidden)
            } else if mail == *email {
                Some(Status::Unauthorized)
            } else {
                None
            }
        },
    }
}

/// The parameters with which an account is stored.
pub open spec fn account_params(user: User, id: Seq<char>, password_hash: Seq<char>) -> Seq<
    (Seq<char>, ParamValue),
> {
    seq![
        ("uname"@, ParamValue::Text(user.username@)),
        ("uid"@, ParamValue::Text(id)),
        ("pass"@, ParamValue::Text(password_hash)),
        ("mail"@, ParamValue::Text(text_or_empty(user.email))),
        ("role"@, ParamValue::Text(DEFAULT_ROLE@)),
    ]
}

/// The query that stores a new account with identity `id` and the hash of
/// its password; the account gets the default role.
pub fn create_account(user: &User, id: &String, password_hash: &String) -> (q: GraphQuery)
    ensures
        q@ == (CREATE_USER@, account_params(*user, id@, password_hash@)),
{
    let mut q = query_with2(CREATE_USER, "uname", &user.username, "uid", id);
    bind(&mut q, "pass", text(password_hash));
    let mail = match &user.email {
        Some(e) => text(e),
        None => Param::Text(String::new()),
    };
    bind(&mut q, "mail", mail);
    bind(&mut q, "role", Param::Text(String::from_str(DEFAULT_ROLE)));
    assert(q@.1 =~= account_params(*user, id@, password_hash@));
    q
}

/// The outcome of a registration that passed its checks, from the hash of
/// its password: no hash is an internal failure and stores nothing; a hash
/// gives `Created` and the query that stores the account.
pub fn account_outcome(user: &User, id: &String, password_hash: Option<String>) -> (r: (
    Status,
    Option<GraphQuery>,
))
    ensures
        password_hash is None ==> r.0 == Status::InternalError && r.1 is None,
        password_hash is Some ==> r.0 == Status::Created && r.1 is Some && r.1->0@ == (
            CREATE_USER@,
            account_params(*user, id@, password_hash->0@),
        ),
{
    match password_hash {
        None => (Status::InternalError, None),
        Some(h) => (Status::Created, Some(create_account(user, id, &h))),
    }
}

/// Registers a new account with identity `id`, given the account that the
/// conflict lookup found, if any: an invalid registration is `BadRequest`;
/// a taken user name `Forbidden`, a taken e-mail address `Unauthorized`;
/// otherwise the password is hashed with a fresh salt, and the outcome is
/// `Created` with the query that stores the account under a hash that
/// accepts the password, or an internal failure when hashing fails. Only
/// `Created` comes with a query.
pub fn new_user(user: &User, existing: Option<(String, String)>, id: &String) -> (r: (
    Status,
    Option<GraphQuery>,
))
    ensures
        !registration_ok(*user) ==> r.0 == Status::BadRequest && r.1 is None,
        registration_ok(*user) && conflict_outcome(existing, user.username@, text_or_empty(user.email))
            is Some ==> r.0 == conflict_outcome(existing, user.username@, text_or_empty(user.email))->0
            && r.1 is None,
        registration_ok(*user) && conflict_outcome(existing, user.username@, text_or_empty(user.email))
            is None ==> (r.0 == Status::Created || r.0 == Status::InternalError),
        r.1 is Some <==> r.0 == Status::Created,
        r.1 is Some ==> exists|h: Seq<char>|
            argon2_accepts(user.password@, h) && r.1->0@ == (
                CREATE_USER@,
                account_params(*user, id@, h),
            ),
{
    if !validate_new_user(user) {
        return (Status::BadRequest, None);
    }
    let empty = String::new();
    let email = match &user.email {
        Some(e) => e,
        None => &empty,
    };
    assert(email@ == text_or_empty(user.email));
    match registration_conflict(existing, &user.username, email) {
        Some(conflict) => (conflict, None),
        None => {
            let hash = hash_new_password(&user.password);
            account_outcome(user, id, hash)
        },
    }
}

/// The query that fetches the account of a user name.
pub fn login_lookup(username: &String) -> (q: GraphQuery)
    ensures
        q@ == (USER_BY_NAME@, seq![("name"@, ParamValue::Text(username@))]),
{
    query_with(USER_BY_NAME, "name", username)
}

/// Decides a login: no such account is `Unauthorized`; a password that
/// matches the stored hash is `Accepted`; any other is `Forbidden`.
pub fn login(user_found: bool, password_ok: bool) -> (r: Status)
    ensures
        !user_found ==> r == Status::Unauthorized,
        user_found && password_ok ==> r == Status::Accepted,
        user_found && !password_ok ==> r == Status::Forbidden,
{
    if !user_found {
        Status::Unauthorized
    } else if password_ok {
        Status::Accepted
    } else {
        Status::Forbidden
    }
}

/// The account a user node describes once its identity text is parsed; the
/// password is never handed out. `None` when the identity is not a UUID.
pub fn user_from_node(id: Option<u128>, username: String, email: String, role: String) -> (r: Option<
    User,
>)
    ensures
        id is None <==> r is None,
        r is Some ==> ({
            let u = r->0;
            &&& u.id == id
            &&& u.username@ == username@
            &&& u.password@.len() == 0
            &&& u.email is Some && u.email->0@ == email@
            &&& u.role is Some && u.role->0@ == role@
        }),
{
    match id {
        None => None,
        Some(v) => Some(
            User {
                id: Some(v),
                username,
                password: String::new(),
                email: Some(email),
                role: Some(role),
            },
        ),
    }
}

/// The account a user node describes, its identity text parsed as a UUID.
pub fn user_from_record(id: &String, username: String, email: String, role: String) -> (r: Option<User>)
    ensures
        r is Some <==> uuid_value(id@) is Some,
        r is Some ==> ({
            let u = r->0;
            &&& u.id == uuid_value(id@)
            &&& u.username@ == username@
            &&& u.password@.len() == 0
            &&& u.email is Some && u.email->0@ == email@
            &&& u.role is Some && u.role->0@ == role@
        }),
{
    user_from_node(parse_uuid(id.as_str()), username, email, role)
}

} // verus!
