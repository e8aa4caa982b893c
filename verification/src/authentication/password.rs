//! Passwords: hashing with Argon2, and the check of credentials against
//! the stored hash.

use crate::database::{Database, DatabaseView, UserView};
use vstd::prelude::*;

verus! {

#[verifier::external_type_specification]
#[verifier::external_body]
pub struct ExPasswordHashError(argon2::password_hash::Error);

/// Why a login was refused.
#[derive(Debug, Clone, Copy, PartialEq, Eq, Structural)]
pub enum CredentialsProblem {
    /// No user has this name.
    UnknownUsername,
    /// The password does not match the stored hash.
    InvalidPassword,
}

/// What went wrong while credentials were checked, short of a refusal.
#[derive(Debug, Clone, Copy, PartialEq, Eq, Structural)]
pub enum AuthFailure {
    /// The stored hash is not a PHC string.
    MalformedHash,
    /// The stored credentials could not be read.
    StoreUnavailable,
    /// The task that checks the password did not finish.
    TaskFailed,
}

#[derive(Debug, Clone, Copy, PartialEq, Eq, Structural)]
pub enum AuthError {
    InvalidCredentials(CredentialsProblem),
    UnexpectedError(AuthFailure),
}

impl AuthFailure {
    /// What the failure says of itself.
    pub open spec fn text(self) -> Seq<char> {
        match self {
            AuthFailure::MalformedHash => "Failed to parse hash in PHC string format"@,
            AuthFailure::StoreUnavailable => "Failed to perform a query to fetch user credentials."@,
            AuthFailure::TaskFailed => "Failed to spawn blocking task"@,
        }
    }

    pub fn message(&self) -> (text: &'static str)
        ensures
            text@ == self.text(),
    {
        match self {
            AuthFailure::MalformedHash => "Failed to parse hash in PHC string format",
            AuthFailure::StoreUnavailable => "Failed to perform a query to fetch user credentials.",
            AuthFailure::TaskFailed => "Failed to spawn blocking task",
        }
    }
}

impl AuthError {
    /// What the error says of itself: a refusal does not tell what was wrong
    /// with the credentials, a failure gives its cause.
    pub open spec fn text(self) -> Seq<char> {
        match self {
            AuthError::InvalidCredentials(_) => "Invalid credentials"@,
            AuthError::UnexpectedError(failure) => failure.text(),
        }
    }

    pub fn message(&self) -> (text: &'static str)
        ensures
            text@ == self.text(),
    {
        match self {
            AuthError::InvalidCredentials(_) => "Invalid credentials",
            AuthError::UnexpectedError(failure) => failure.message(),
        }
    }
}

pub struct Credentials {
    pub username: String,
    pub password: String,
}

/// What is stored for a user to check a password against.
pub struct StoredCredentials {
    pub user_id: u128,
    pub password_hash: String,
}

/// The largest number that the parameters of a stored hash may hold. It
/// bounds the memory of a check by 1 GiB, and its passes and lanes by about
/// a million each.
pub const MAX_STORED_COST: u64 = 0x10_0000;

/// The parameters of the password hash `phc`, a PHC string, as text of the
/// form `name=value,name=value`; `None` where `phc` does not parse, as
/// `PasswordHash::new` decides it.
pub uninterp spec fn phc_params(phc: Seq<char>) -> Option<Seq<char>>;

/// Reads the parameters of a password hash in the PHC string format.
///
/// Parses `phc` with `argon2::PasswordHash::new` and hands out the text of
/// its `params` field. The contract names the result and claims nothing
/// else of it.
#[verifier::external_body]
fn phc_params_text(phc: &str) -> (params: Option<String>)
    ensures
        match params {
            Some(text) => phc_params(phc@) == Some(text@),
            None => phc_params(phc@) is None,
        },
{
    match argon2::PasswordHash::new(phc) {
        Ok(hash) => Some(hash.params.as_str().to_owned()),
        Err(_) => None,
    }
}

/// Whether `phc` parses as a password hash in the PHC string format.
pub open spec fn phc_well_formed(phc: Seq<char>) -> bool {
    phc_params(phc) is Some
}

/// An ASCII digit.
pub open spec fn is_decimal_digit(c: char) -> bool {
    '0' <= c <= '9'
}

/// The number that the digits of `s` which end before position `end` write
/// in decimal: zero where no digit stands there.
pub open spec fn run_value(s: Seq<char>, end: int) -> nat
    decreases end,
{
    if end <= 0 || end > s.len() {
        0
    } else if is_decimal_digit(s[end - 1]) {
        run_value(s, end - 1) * 10 + (s[end - 1] as u32 - 48) as nat
    } else {
        0
    }
}

/// Whether every number in the parameters `params` is at most
/// [`MAX_STORED_COST`].
pub open spec fn costs_in_reach(params: Seq<char>) -> bool {
    forall|end: int| 0 <= end <= params.len() ==> #[trigger] run_value(params, end) <= MAX_STORED_COST
}

/// Tells whether every number in the parameters of a stored hash is at most
/// [`MAX_STORED_COST`].
pub fn check_costs(params: &str) -> (in_reach: bool)
    ensures
        in_reach == costs_in_reach(params@),
{
    let n = params.unicode_len();
    let mut value: u64 = 0;
    let mut i: usize = 0;
    while i < n
        invariant
            n == params@.len(),
            i <= n,
            value == run_value(params@, i as int),
            forall|end: int| 0 <= end <= i ==> #[trigger] run_value(params@, end) <= MAX_STORED_COST,
        decreases n - i,
    {
        let c = params.get_char(i);
        if '0' <= c && c <= '9' {
            value = value * 10 + (c as u32 - 48) as u64;
            if value > MAX_STORED_COST {
                assert(run_value(params@, i + 1) > MAX_STORED_COST);
                return false;
            }
        } else {
            value = 0;
        }
        i += 1;
    }
    true
}

/// Whether the stored hash `phc` can be checked: it parses and none of its
/// costs is out of reach.
pub open spec fn phc_in_reach(phc: Seq<char>) -> bool {
    phc_params(phc) matches Some(params) && costs_in_reach(params)
}

/// Whether the password hash `phc`, a PHC string, is the hash of `password`,
/// as `verify_password` of `Argon2::default()` decides it.
pub uninterp spec fn argon2_accepts(password: Seq<char>, phc: Seq<char>) -> bool;

/// Checks `password` against a password hash in the PHC string format.
///
/// Parses `phc` with `argon2::PasswordHash::new` and calls
/// `PasswordVerifier::verify_password` on `Argon2::default()`, which hashes
/// the password with the salt and the parameters of the hash and compares.
/// The contract names the cases in which the check succeeds and claims
/// nothing else. The call multiplies the lanes of the hash by 8 in 32 bits
/// and allocates its memory at once, so hashes whose costs are out of reach
/// are left out.
#[verifier::external_body]
fn argon2_verify(password: &str, phc: &str) -> (verified: Result<
    (),
    argon2::password_hash::Error,
>)
    requires
        phc_in_reach(phc@),
    ensures
        verified is Ok <==> argon2_accepts(password@, phc@),
{
    let hash = argon2::PasswordHash::new(phc)?;
    argon2::PasswordVerifier::verify_password(&argon2::Argon2::default(), password.as_bytes(), &hash)
}

/// How a password compares to a stored hash.
#[derive(Debug, Clone, Copy, PartialEq, Eq, Structural)]
pub enum PasswordCheck {
    /// The stored hash is not a PHC string, or its costs are out of reach.
    Malformed,
    /// The password does not give the stored hash.
    Mismatch,
    /// The password gives the stored hash.
    Match,
}

/// How `password` compares to the stored hash `phc`.
pub open spec fn password_check(password: Seq<char>, phc: Seq<char>) -> PasswordCheck {
    if !phc_in_reach(phc) {
        PasswordCheck::Malformed
    } else if argon2_accepts(password, phc) {
        PasswordCheck::Match
    } else {
        PasswordCheck::Mismatch
    }
}

/// Compares `password` to the stored hash. A stored hash is checked only
/// where it parses and its costs are in reach.
pub fn check_password(password: &str, expected_password_hash: &str) -> (check: PasswordCheck)
    ensures
        check == password_check(password@, expected_password_hash@),
{
    let params = match phc_params_text(expected_password_hash) {
        Some(params) => params,
        None => {
            return PasswordCheck::Malformed;
        },
    };
    if !check_costs(params.as_str()) {
        return PasswordCheck::Malformed;
    }
    match argon2_verify(password, expected_password_hash) {
        Ok(()) => PasswordCheck::Match,
        Err(_) => PasswordCheck::Mismatch,
    }
}

/// The result of a login by the user `user_id` whose password compared as
/// `check` says.
pub open spec fn verdict_for(user_id: u128, check: PasswordCheck) -> Result<u128, AuthError> {
    match check {
        PasswordCheck::Match => Ok(user_id),
        PasswordCheck::Mismatch => Err(
            AuthError::InvalidCredentials(CredentialsProblem::InvalidPassword),
        ),
        PasswordCheck::Malformed => Err(AuthError::UnexpectedError(AuthFailure::MalformedHash)),
    }
}

/// Decides a login from the outcome of the password check.
pub fn verdict(user_id: u128, check: PasswordCheck) -> (result: Result<u128, AuthError>)
    ensures
        result == verdict_for(user_id, check),
{
    match check {
        PasswordCheck::Match => Ok(user_id),
        PasswordCheck::Mismatch => Err(
            AuthError::InvalidCredentials(CredentialsProblem::InvalidPassword),
        ),
        PasswordCheck::Malformed => Err(AuthError::UnexpectedError(AuthFailure::MalformedHash)),
    }
}

/// What a login with `password` comes to, given what is stored for the
/// user: an unknown user is refused, a stored hash that does not parse is a
/// failure, and otherwise the password decides between the user's id and a
/// refusal.
pub open spec fn login_result(stored: Option<UserView>, password: Seq<char>) -> Result<
    u128,
    AuthError,
> {
    match stored {
        None => Err(AuthError::InvalidCredentials(CredentialsProblem::UnknownUsername)),
        Some(user) => verdict_for(user.user_id, password_check(password, user.password_hash)),
    }
}

/// Reads what is stored to check the password of `username` against.
pub fn get_stored_credentials(pool: &Database, username: &String) -> (stored: Option<
    StoredCredentials,
>)
    requires
        pool@.wf(),
    ensures
        match stored {
            Some(stored) => pool@.user_named(username@) matches Some(user) && stored.user_id
                == user.user_id && stored.password_hash@ == user.password_hash,
            None => pool@.user_named(username@) is None,
        },
{
    match pool.user_by_name(username) {
        Some(user) => Some(
            StoredCredentials { user_id: user.user_id, password_hash: user.password_hash },
        ),
        None => None,
    }
}

/// Checks `credentials` against what is stored for the user of that name,
/// if anything is.
pub fn check_credentials(stored: Option<StoredCredentials>, credentials: Credentials) -> (result:
    Result<u128, AuthError>)
    ensures
        result == login_result(
            match stored {
                Some(stored) => Some(
                    UserView {
                        user_id: stored.user_id,
                        username: credentials.username@,
                        password_hash: stored.password_hash@,
                    },
                ),
                None => None,
            },
            credentials.password@,
        ),
{
    match stored {
        None => Err(AuthError::InvalidCredentials(CredentialsProblem::UnknownUsername)),
        Some(stored) => verdict(
            stored.user_id,
            check_password(credentials.password.as_str(), stored.password_hash.as_str()),
        ),
    }
}

/// Validates `credentials` against the stored users. An unknown user is
/// refused without any hashing. A stored hash that does not parse is a
/// failure, not a refusal. Otherwise the password decides.
pub fn validate_credentials(pool: &Database, credentials: Credentials) -> (result: Result<
    u128,
    AuthError,
>)
    requires
        pool@.wf(),
    ensures
        result == login_result(pool@.user_named(credentials.username@), credentials.password@),
{
    let stored = get_stored_credentials(pool, &credentials.username);
    check_credentials(stored, credentials)
}

/// The memory cost of a password hash, in KiB.
pub const HASH_M_COST: u32 = 15000;

/// The number of passes of a password hash.
pub const HASH_T_COST: u32 = 2;

/// The number of lanes of a password hash.
pub const HASH_P_COST: u32 = 1;

/// The length of a salt, in characters: 16 random bytes in Base64 without
/// padding.
pub const SALT_LENGTH: usize = 22;

/// Why a password could not be hashed.
#[derive(Debug, Clone, Copy, PartialEq, Eq, Structural)]
pub enum HashError {
    /// Argon2 refused the password, the salt or the costs.
    HashingFailed,
}

/// A character of the Base64 alphabet.
pub open spec fn is_base64_char(c: char) -> bool {
    ||| 'a' <= c <= 'z'
    ||| 'A' <= c <= 'Z'
    ||| '0' <= c <= '9'
    ||| c == '+'
    ||| c == '/'
}

/// Whether `s` has the shape of a salt that is drawn for a password:
/// [`SALT_LENGTH`] characters of the Base64 alphabet.
pub open spec fn is_salt(s: Seq<char>) -> bool {
    &&& s.len() == SALT_LENGTH
    &&& forall|i: int| 0 <= i < s.len() ==> is_base64_char(#[trigger] s[i])
}

/// Draws a random salt.
///
/// Calls `SaltString::generate` on the thread's random number generator and
/// hands out the text of the salt. The salt is random: the contract claims
/// only its shape, which is that of 16 bytes encoded as Base64 without
/// padding.
#[verifier::external_body]
fn generate_salt() -> (salt: String)
    ensures
        is_salt(salt@),
{
    argon2::password_hash::SaltString::generate(&mut rand::thread_rng()).as_str().to_owned()
}

/// The hash of `password` under `salt`, as Argon2id in version 0x13 computes
/// it with the given costs and writes it out as a PHC string; `None` where
/// it refuses the costs, the salt or the password.
pub uninterp spec fn argon2id_phc(
    password: Seq<char>,
    salt: Seq<char>,
    m_cost: u32,
    t_cost: u32,
    p_cost: u32,
) -> Option<Seq<char>>;

/// Hashes `password` under `salt` with Argon2id, version 0x13, and writes
/// the hash out as a PHC string.
///
/// Builds the costs with `argon2::Params::new` and the salt with
/// `Salt::from_b64`, and calls `PasswordHasher::hash_password` on
/// `Argon2::new(..)`. The contract names the result and claims nothing else
/// of it. `Params::new` multiplies `p_cost` by 8 in 32 bits, and the hashing
/// allocates `m_cost` KiB at once: lane counts that overflow and memory
/// beyond 1 GiB are left out.
#[verifier::external_body]
fn argon2id_hash(password: &str, salt: &str, m_cost: u32, t_cost: u32, p_cost: u32) -> (hash:
    Result<String, argon2::password_hash::Error>)
    requires
        p_cost <= 0x1FFF_FFFF,
        m_cost <= 0x10_0000,
    ensures
        match hash {
            Ok(text) => argon2id_phc(password@, salt@, m_cost, t_cost, p_cost) == Some(text@),
            Err(_) => argon2id_phc(password@, salt@, m_cost, t_cost, p_cost) is None,
        },
{
    let params = argon2::Params::new(m_cost, t_cost, p_cost, None)?;
    let salt = argon2::password_hash::Salt::from_b64(salt)?;
    let hasher = argon2::Argon2::new(argon2::Algorithm::Argon2id, argon2::Version::V0x13, params);
    let hash = argon2::PasswordHasher::hash_password(&hasher, password.as_bytes(), salt)?;
    Ok(hash.to_string())
}

/// The text of a hash, or the reason there is none.
pub open spec fn hash_view(hash: Result<String, HashError>) -> Result<Seq<char>, HashError> {
    match hash {
        Ok(text) => Ok(text@),
        Err(reason) => Err(reason),
    }
}

/// What hashing `password` under `salt` gives: the PHC string of its
/// Argon2id hash with the costs [`HASH_M_COST`], [`HASH_T_COST`] and
/// [`HASH_P_COST`], or a failure where Argon2 gives none.
pub open spec fn password_hash_under(password: Seq<char>, salt: Seq<char>) -> Result<
    Seq<char>,
    HashError,
> {
    match argon2id_phc(password, salt, HASH_M_COST, HASH_T_COST, HASH_P_COST) {
        Some(text) => Ok(text),
        None => Err(HashError::HashingFailed),
    }
}

/// What Argon2 handed back, as this library reports it: the hash as it is,
/// any error as a failure to hash.
pub fn hash_outcome(hashed: Result<String, argon2::password_hash::Error>) -> (hash: Result<
    String,
    HashError,
>)
    ensures
        match hashed {
            Ok(text) => hash == Ok::<String, HashError>(text),
            Err(_) => hash == Err::<String, HashError>(HashError::HashingFailed),
        },
{
    match hashed {
        Ok(text) => Ok(text),
        Err(_) => Err(HashError::HashingFailed),
    }
}

/// Hashes `password` under `salt`, with Argon2id and the costs
/// [`HASH_M_COST`], [`HASH_T_COST`] and [`HASH_P_COST`].
pub fn hash_password_with_salt(password: &str, salt: &str) -> (hash: Result<String, HashError>)
    ensures
        hash_view(hash) == password_hash_under(password@, salt@),
{
    hash_outcome(argon2id_hash(password, salt, HASH_M_COST, HASH_T_COST, HASH_P_COST))
}

/// Hashes `password` under a fresh random salt, with Argon2id and the costs
/// [`HASH_M_COST`], [`HASH_T_COST`] and [`HASH_P_COST`]: the result is what
/// hashing the password under some salt of the drawn shape gives.
pub fn compute_password_hash(password: String) -> (hash: Result<String, HashError>)
    ensures
        exists|salt: Seq<char>|
            is_salt(salt) && hash_view(hash) == #[trigger] password_hash_under(password@, salt),
{
    let salt = generate_salt();
    hash_password_with_salt(password.as_str(), salt.as_str())
}

/// What a change of the password of the user `user_id` comes to, given the
/// outcome of hashing the new password: a hash replaces the stored one, if
/// the user is stored; a failure to hash is handed on and the store is left
/// alone.
pub open spec fn password_change(
    db: DatabaseView,
    user_id: u128,
    hashed: Result<Seq<char>, HashError>,
) -> (DatabaseView, Result<(), HashError>) {
    match hashed {
        Ok(hash) => (db.with_password_hash(user_id, hash), Ok(())),
        Err(reason) => (db, Err(reason)),
    }
}

/// Stores the outcome of hashing a new password for the user `user_id`. A
/// hash is written to the user's row, if there is one; a failure to hash
/// leaves the store alone.
pub fn store_password_hash(pool: &mut Database, user_id: u128, hash: Result<String, HashError>) -> (done:
    Result<(), HashError>)
    requires
        old(pool)@.wf(),
    ensures
        final(pool)@.wf(),
        (final(pool)@, done) == password_change(old(pool)@, user_id, hash_view(hash)),
{
    match hash {
        Ok(hash) => {
            pool.set_password_hash(user_id, hash);
            Ok(())
        },
        Err(reason) => Err(reason),
    }
}

/// Gives the user `user_id` a new password: the password is hashed under a
/// fresh salt and the hash replaces the stored one. The change succeeds
/// exactly when the hashing does, and is then the change to the hash of the
/// password under some salt of the drawn shape.
pub fn change_password(pool: &mut Database, user_id: u128, password: String) -> (done: Result<
    (),
    HashError,
>)
    requires
        old(pool)@.wf(),
    ensures
        final(pool)@.wf(),
        exists|salt: Seq<char>|
            is_salt(salt) && (final(pool)@, done) == password_change(
                old(pool)@,
                user_id,
                #[trigger] password_hash_under(password@, salt),
            ),
{
    let hash = compute_password_hash(password);
    let ghost hashed = hash_view(hash);
    let ghost salt = choose|salt: Seq<char>|
        is_salt(salt) && hashed == #[trigger] password_hash_under(password@, salt);
    let done = store_password_hash(pool, user_id, hash);
    assert((pool@, done) == password_change(
        old(pool)@,
        user_id,
        password_hash_under(password@, salt),
    ));
    done
}

} // verus!
