use recipe_graph::credentials::{hash_new_password, hash_with_salt, login_attempt};
use recipe_graph::identity::{resolve_identity, get_user_from_db, USER_BY_ID};
use recipe_graph::model::{Status, UsedIdError, User};
use recipe_graph::query::Param;
use recipe_graph::reads::{get_public_recipe, get_recipe};
use recipe_graph::users::{
    account_outcome, create_account, login, new_user, registration_conflict, user_from_record,
    validate_new_user, CREATE_USER, DEFAULT_ROLE,
};

fn user(name: &str, password: &str, email: Option<&str>) -> User {
    User {
        id: None,
        username: name.to_string(),
        password: password.to_string(),
        email: email.map(|s| s.to_string()),
        role: None,
    }
}

#[test]
fn accepts_a_valid_registration() {
    assert!(validate_new_user(&user("ann", "0123456789", Some("ann@example.com"))));
}

#[test]
fn rejects_short_names_and_passwords() {
    assert!(!validate_new_user(&user("an", "0123456789", Some("ann@example.com"))));
    assert!(!validate_new_user(&user("ann", "012345678", Some("ann@example.com"))));
}

#[test]
fn rejects_bad_or_missing_email() {
    assert!(!validate_new_user(&user("ann", "0123456789", Some("not an address"))));
    assert!(!validate_new_user(&user("ann", "0123456789", None)));
}

#[test]
fn conflicts_on_name_or_email() {
    let name = "ann".to_string();
    let mail = "ann@example.com".to_string();
    let taken_name = Some(("ann".to_string(), "x@example.com".to_string()));
    let taken_mail = Some(("bob".to_string(), "ann@example.com".to_string()));
    let neither = Some(("bob".to_string(), "bob@example.com".to_string()));
    assert_eq!(registration_conflict(taken_name, &name, &mail), Some(Status::Forbidden));
    assert_eq!(registration_conflict(taken_mail, &name, &mail), Some(Status::Unauthorized));
    assert_eq!(registration_conflict(neither, &name, &mail), None);
    assert_eq!(registration_conflict(None, &name, &mail), None);
}

#[test]
fn stores_an_account_with_the_default_role() {
    let q = create_account(&user("ann", "secret-pass", Some("a@b.c")), &"id-1".to_string(), &"hash".to_string());
    assert_eq!(q.text, CREATE_USER);
    let values: Vec<String> = q
        .params
        .iter()
        .map(|p| match &p.1 {
            Param::Text(t) => t.clone(),
            _ => String::new(),
        })
        .collect();
    assert_eq!(values, vec!["ann", "id-1", "hash", "a@b.c", DEFAULT_ROLE]);
}

#[test]
fn login_outcomes() {
    assert_eq!(login(false, false), Status::Unauthorized);
    assert_eq!(login(true, true), Status::Accepted);
    assert_eq!(login(true, false), Status::Forbidden);
}

#[test]
fn resolves_sessions() {
    assert!(matches!(resolve_identity(None, true), Err(UsedIdError::Missing)));
    assert!(matches!(resolve_identity(Some("t".to_string()), false), Err(UsedIdError::Invalid)));
    let id = resolve_identity(Some("t".to_string()), true).unwrap();
    assert_eq!(id.0, "t");
    let q = get_user_from_db(&"t".to_string());
    assert_eq!(q.text, USER_BY_ID);
}

#[test]
fn reads_a_user_node() {
    let u = user_from_record(
        &"67e55044-10b1-426f-9247-bb680e5fe0c8".to_string(),
        "ann".to_string(),
        "a@b.c".to_string(),
        "cook".to_string(),
    )
    .unwrap();
    assert_eq!(u.id, Some(0x67e55044_10b1_426f_9247_bb680e5fe0c8));
    assert_eq!(u.password, "");
    assert_eq!(u.email, Some("a@b.c".to_string()));
    assert_eq!(u.role, Some("cook".to_string()));
    assert!(user_from_record(&"nope".to_string(), String::new(), String::new(), String::new()).is_none());
}

#[test]
fn missing_recipes_are_reported() {
    assert!(matches!(get_recipe(None), Err(Status::NotFound)));
    assert!(matches!(get_public_recipe(None), Err(Status::NotFound)));
}

#[test]
fn new_password_hashes_check_out() {
    let password = "correct horse battery".to_string();
    let hash = hash_new_password(&password).expect("a hash");
    assert_ne!(hash, password);
    assert!(hash.starts_with("$argon2"));
    assert_eq!(login_attempt(&password, &Some(hash.clone())), Status::Accepted);
    assert_eq!(login_attempt(&"wrong password".to_string(), &Some(hash)), Status::Forbidden);
    assert_eq!(login_attempt(&password, &None), Status::Unauthorized);
    assert_eq!(login_attempt(&password, &Some("not a hash".to_string())), Status::Forbidden);
}

#[test]
fn registration_outcomes() {
    let id = "id-9".to_string();
    let bad = user("an", "0123456789", Some("ann@example.com"));
    let (s, q) = new_user(&bad, None, &id);
    assert_eq!(s, Status::BadRequest);
    assert!(q.is_none());
    let good = user("ann", "0123456789", Some("ann@example.com"));
    let taken = Some(("ann".to_string(), "other@example.com".to_string()));
    let (s, q) = new_user(&good, taken, &id);
    assert_eq!(s, Status::Forbidden);
    assert!(q.is_none());
    let mail_taken = Some(("bob".to_string(), "ann@example.com".to_string()));
    assert_eq!(new_user(&good, mail_taken, &id).0, Status::Unauthorized);
    let (s, q) = new_user(&good, None, &id);
    assert_eq!(s, Status::Created);
    let q = q.expect("the account query");
    assert_eq!(q.text, CREATE_USER);
    let hash = match &q.params[2].1 {
        Param::Text(t) => t.clone(),
        _ => panic!("no hash"),
    };
    assert_ne!(hash, "0123456789");
    assert_eq!(login_attempt(&"0123456789".to_string(), &Some(hash)), Status::Accepted);
}

#[test]
fn account_outcome_without_hash_is_an_internal_failure() {
    let u = user("ann", "0123456789", None);
    let (s, q) = account_outcome(&u, &"id".to_string(), None);
    assert_eq!(s, Status::InternalError);
    assert!(q.is_none());
    let (s, q) = account_outcome(&u, &"id".to_string(), Some("h".to_string()));
    assert_eq!(s, Status::Created);
    assert!(q.is_some());
}

#[test]
fn hashing_with_a_given_salt_is_repeatable() {
    let password = "correct horse battery".to_string();
    let salt = "c2FsdHNhbHRzYWx0".to_string();
    let a = hash_with_salt(&password, &salt).expect("a hash");
    let b = hash_with_salt(&password, &salt).expect("a hash");
    assert_eq!(a, b);
    assert!(a.contains("c2FsdHNhbHRzYWx0"));
    assert_eq!(login_attempt(&password, &Some(a)), Status::Accepted);
    assert!(hash_with_salt(&password, &"!".to_string()).is_none());
}
