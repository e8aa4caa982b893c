use zero2prod::authentication::middleware::{reject_anonymous_users, UserId};
use zero2prod::authentication::password::{
    change_password, check_costs, check_password, compute_password_hash, get_stored_credentials,
    hash_outcome, hash_password_with_salt, store_password_hash, validate_credentials, verdict,
    AuthError, AuthFailure, Credentials, CredentialsProblem, HashError, PasswordCheck,
    HASH_M_COST, HASH_P_COST, HASH_T_COST, MAX_STORED_COST, SALT_LENGTH,
};
use zero2prod::database::{Database, PersistenceError};

fn credentials(username: &str, password: &str) -> Credentials {
    Credentials { username: username.to_string(), password: password.to_string() }
}

fn store_with_user(username: &str, password: &str) -> Database {
    let mut db = Database::new();
    let hash = compute_password_hash(password.to_string()).expect("the password can be hashed");
    db.add_user(1, username.to_string(), hash).expect("a fresh user");
    db
}

#[test]
fn a_password_hash_is_a_phc_string_with_the_costs_of_the_library() {
    assert_eq!((HASH_M_COST, HASH_T_COST, HASH_P_COST), (15000, 2, 1));
    let hash = compute_password_hash("hunter42".to_string()).expect("the password can be hashed");
    assert!(hash.starts_with("$argon2id$v=19$m=15000,t=2,p=1$"), "{}", hash);
}

#[test]
fn the_same_password_is_hashed_under_a_fresh_salt_each_time() {
    let first = compute_password_hash("hunter42".to_string()).expect("hashed");
    let second = compute_password_hash("hunter42".to_string()).expect("hashed");
    assert_ne!(first, second);
    assert_eq!(check_password("hunter42", &first), PasswordCheck::Match);
    assert_eq!(check_password("hunter42", &second), PasswordCheck::Match);
}

#[test]
fn a_password_is_checked_against_a_stored_hash() {
    let hash = compute_password_hash("hunter42".to_string()).expect("hashed");
    assert_eq!(check_password("hunter42", &hash), PasswordCheck::Match);
    assert_eq!(check_password("something else", &hash), PasswordCheck::Mismatch);
    assert_eq!(check_password("", &hash), PasswordCheck::Mismatch);
    assert_eq!(check_password("Hunter42", &hash), PasswordCheck::Mismatch);
}

#[test]
fn a_stored_hash_that_is_no_phc_string_is_malformed() {
    for malformed in ["", "plain-text-password", "argon2id$v=19$m=15000", "$", "$$$"] {
        assert_eq!(check_password("hunter42", malformed), PasswordCheck::Malformed, "{}", malformed);
    }
}

#[test]
fn the_check_of_the_password_decides_the_login() {
    assert_eq!(verdict(9, PasswordCheck::Match), Ok(9));
    assert_eq!(
        verdict(9, PasswordCheck::Mismatch),
        Err(AuthError::InvalidCredentials(CredentialsProblem::InvalidPassword))
    );
    assert_eq!(
        verdict(9, PasswordCheck::Malformed),
        Err(AuthError::UnexpectedError(AuthFailure::MalformedHash))
    );
}

#[test]
fn valid_credentials_give_the_id_of_the_user() {
    let db = store_with_user("admin", "hunter42");
    assert_eq!(validate_credentials(&db, credentials("admin", "hunter42")), Ok(1));
}

#[test]
fn an_unknown_user_is_refused() {
    let db = store_with_user("admin", "hunter42");
    assert_eq!(
        validate_credentials(&db, credentials("random-username", "random-password")),
        Err(AuthError::InvalidCredentials(CredentialsProblem::UnknownUsername))
    );
    assert!(get_stored_credentials(&db, &"random-username".to_string()).is_none());
}

#[test]
fn a_wrong_password_is_refused() {
    let db = store_with_user("admin", "hunter42");
    assert_eq!(
        validate_credentials(&db, credentials("admin", "hunter43")),
        Err(AuthError::InvalidCredentials(CredentialsProblem::InvalidPassword))
    );
}

#[test]
fn a_malformed_stored_hash_is_a_failure_and_no_refusal() {
    let mut db = Database::new();
    db.add_user(1, "admin".to_string(), "not-a-hash".to_string()).expect("a fresh user");
    assert_eq!(
        validate_credentials(&db, credentials("admin", "hunter42")),
        Err(AuthError::UnexpectedError(AuthFailure::MalformedHash))
    );
}

#[test]
fn the_stored_credentials_of_a_user_are_found_by_name() {
    let mut db = Database::new();
    db.add_user(5, "admin".to_string(), "stored-hash".to_string()).expect("a fresh user");
    let stored = get_stored_credentials(&db, &"admin".to_string()).expect("stored");
    assert_eq!(stored.user_id, 5);
    assert_eq!(stored.password_hash, "stored-hash");
}

#[test]
fn user_ids_and_user_names_are_unique() {
    let mut db = Database::new();
    db.add_user(1, "admin".to_string(), "h".to_string()).expect("a fresh user");
    assert_eq!(
        db.add_user(1, "other".to_string(), "h".to_string()),
        Err(PersistenceError::DuplicateKey)
    );
    assert_eq!(
        db.add_user(2, "admin".to_string(), "h".to_string()),
        Err(PersistenceError::DuplicateKey)
    );
    assert_eq!(db.add_user(2, "other".to_string(), "h".to_string()), Ok(()));
    assert_eq!(db.user_by_id(2).expect("stored").username, "other");
    assert_eq!(db.user_by_name(&"admin".to_string()).expect("stored").user_id, 1);
    assert_eq!(db.user_by_id(3), None);
}

#[test]
fn changing_the_password_replaces_the_stored_hash() {
    let mut db = store_with_user("admin", "hunter42");
    assert_eq!(change_password(&mut db, 1, "correct horse".to_string()), Ok(()));
    assert_eq!(validate_credentials(&db, credentials("admin", "correct horse")), Ok(1));
    assert_eq!(
        validate_credentials(&db, credentials("admin", "hunter42")),
        Err(AuthError::InvalidCredentials(CredentialsProblem::InvalidPassword))
    );
}

#[test]
fn a_hash_is_stored_for_the_user_it_belongs_to_only() {
    let mut db = Database::new();
    db.add_user(1, "one".to_string(), "old-1".to_string()).expect("fresh");
    db.add_user(2, "two".to_string(), "old-2".to_string()).expect("fresh");
    assert_eq!(store_password_hash(&mut db, 2, Ok("new-2".to_string())), Ok(()));
    assert_eq!(db.user_by_id(1).expect("stored").password_hash, "old-1");
    assert_eq!(db.user_by_id(2).expect("stored").password_hash, "new-2");
    assert_eq!(store_password_hash(&mut db, 3, Ok("new-3".to_string())), Ok(()));
    assert_eq!(db.user_by_id(3), None);
    assert_eq!(
        store_password_hash(&mut db, 1, Err(HashError::HashingFailed)),
        Err(HashError::HashingFailed)
    );
    assert_eq!(db.user_by_id(1).expect("stored").password_hash, "old-1");
}

#[test]
fn a_refusal_does_not_say_what_was_wrong() {
    assert_eq!(
        AuthError::InvalidCredentials(CredentialsProblem::UnknownUsername).message(),
        "Invalid credentials"
    );
    assert_eq!(
        AuthError::InvalidCredentials(CredentialsProblem::InvalidPassword).message(),
        "Invalid credentials"
    );
    assert_eq!(
        AuthError::UnexpectedError(AuthFailure::MalformedHash).message(),
        "Failed to parse hash in PHC string format"
    );
    assert_eq!(
        AuthFailure::StoreUnavailable.message(),
        "Failed to perform a query to fetch user credentials."
    );
    assert_eq!(AuthFailure::TaskFailed.message(), "Failed to spawn blocking task");
}

#[test]
fn you_must_be_logged_in_to_reach_the_admin_pages() {
    let response = reject_anonymous_users(None).expect_err("nobody is logged in");
    assert_eq!(response.status_code, 303);
    assert_eq!(response.headers[0].name, "location");
    assert_eq!(response.headers[0].value, b"/login".to_vec());
    assert_eq!(reject_anonymous_users(Some(12)), Ok(UserId(12)));
}

#[test]
fn the_same_password_and_salt_give_the_same_hash() {
    let salt = "c29tZXNhbHRzb21lc2FsdA";
    let first = hash_password_with_salt("hunter42", salt).expect("hashed");
    let second = hash_password_with_salt("hunter42", salt).expect("hashed");
    assert_eq!(first, second);
    assert!(
        first.starts_with("$argon2id$v=19$m=15000,t=2,p=1$c29tZXNhbHRzb21lc2FsdA$"),
        "{}",
        first
    );
    assert_eq!(check_password("hunter42", &first), PasswordCheck::Match);
    assert_eq!(check_password("hunter43", &first), PasswordCheck::Mismatch);
}

#[test]
fn another_salt_or_another_password_gives_another_hash() {
    let salt = "c29tZXNhbHRzb21lc2FsdA";
    let hash = hash_password_with_salt("hunter42", salt).expect("hashed");
    let other_salt =
        hash_password_with_salt("hunter42", "b3RoZXJzYWx0b3RoZXJzYQ").expect("hashed");
    let other_password = hash_password_with_salt("hunter43", salt).expect("hashed");
    assert_ne!(hash, other_salt);
    assert_ne!(hash, other_password);
    assert_eq!(check_password("hunter42", &other_salt), PasswordCheck::Match);
}

#[test]
fn a_salt_that_argon2_refuses_fails_the_hashing() {
    for refused in ["", "abc", "not base64!!", "c29tZXNhbHRzb21lc2Fs dA"] {
        assert_eq!(
            hash_password_with_salt("hunter42", refused),
            Err(HashError::HashingFailed),
            "{:?}",
            refused
        );
    }
}

#[test]
fn a_password_is_hashed_under_a_salt_of_22_base64_characters() {
    assert_eq!(SALT_LENGTH, 22);
    let hash = compute_password_hash("hunter42".to_string()).expect("hashed");
    let fields: Vec<&str> = hash.split('$').collect();
    assert_eq!(fields.len(), 6, "{}", hash);
    let salt = fields[4];
    assert_eq!(salt.chars().count(), 22);
    assert!(salt.chars().all(|c| c.is_ascii_alphanumeric() || c == '+' || c == '/'), "{}", salt);
    // The hash is the one that the password gives under that salt.
    assert_eq!(hash_password_with_salt("hunter42", salt), Ok(hash));
}

#[test]
fn any_error_of_argon2_is_a_failure_to_hash() {
    assert_eq!(
        hash_outcome(Err(argon2::password_hash::Error::Password)),
        Err(HashError::HashingFailed)
    );
    assert_eq!(
        hash_outcome(Err(argon2::password_hash::Error::Algorithm)),
        Err(HashError::HashingFailed)
    );
    assert_eq!(hash_outcome(Ok("$argon2id$".to_string())), Ok("$argon2id$".to_string()));
}

#[test]
fn a_password_change_stores_the_hash_of_the_new_password() {
    let mut db = store_with_user("admin", "hunter42");
    assert_eq!(change_password(&mut db, 1, "correct horse".to_string()), Ok(()));
    let stored = db.user_by_id(1).expect("stored").password_hash;
    let fields: Vec<&str> = stored.split('$').collect();
    assert_eq!(hash_password_with_salt("correct horse", fields[4]), Ok(stored.clone()));
    // A user who is not stored gets no row, and the change still succeeds.
    assert_eq!(change_password(&mut db, 9, "correct horse".to_string()), Ok(()));
    assert_eq!(db.user_by_id(9), None);
    assert_eq!(db.user_by_id(1).expect("stored").password_hash, stored);
}

#[test]
fn the_costs_of_a_stored_hash_are_in_reach_up_to_a_bound() {
    assert_eq!(MAX_STORED_COST, 1_048_576);
    assert!(check_costs(""));
    assert!(check_costs("m=15000,t=2,p=1"));
    assert!(check_costs("m=1048576,t=1048576,p=1048576"));
    assert!(check_costs("m=0001048576"));
    assert!(check_costs("keyid=abc,data=x1y2"));
}

#[test]
fn a_number_beyond_the_bound_puts_a_stored_hash_out_of_reach() {
    for params in [
        "m=1048577,t=2,p=1",
        "m=15000,t=1048577,p=1",
        "m=15000,t=2,p=536870912",
        "m=15000,t=2,p=4294967295",
        "m=15000,t=2,p=99999999999999999999999999999",
        "m=15000,t=2,p=1,p=536870912",
        "p=536870912,p=1",
        "keyid=abc1048577",
    ] {
        assert!(!check_costs(params), "{}", params);
    }
}

#[test]
fn a_stored_hash_with_too_many_lanes_is_malformed_and_is_not_checked() {
    let good = hash_password_with_salt("hunter42", "c29tZXNhbHRzb21lc2FsdA").expect("hashed");
    assert!(good.contains("$m=15000,t=2,p=1$"), "{}", good);
    for params in [
        "$m=15000,t=2,p=536870912$",
        "$m=4294967295,t=2,p=536870912$",
        "$m=15000,t=2,p=4294967295$",
        "$m=15000,t=2,p=1,p=536870912$",
        "$m=1048577,t=2,p=1$",
    ] {
        let stored = good.replace("$m=15000,t=2,p=1$", params);
        assert_eq!(check_password("hunter42", &stored), PasswordCheck::Malformed, "{}", stored);
    }
}

#[test]
fn a_stored_hash_with_other_costs_in_reach_is_checked_and_does_not_match() {
    let good = hash_password_with_salt("hunter42", "c29tZXNhbHRzb21lc2FsdA").expect("hashed");
    for params in ["$m=15000,t=2,p=2$", "$m=15000,t=3,p=1$", "$m=8,t=1,p=1$", "$m=8,t=1,p=2$"] {
        let stored = good.replace("$m=15000,t=2,p=1$", params);
        assert_eq!(check_password("hunter42", &stored), PasswordCheck::Mismatch, "{}", stored);
    }
    assert_eq!(check_password("hunter42", &good), PasswordCheck::Match);
}
