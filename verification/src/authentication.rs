//! The credential verifier: a username/password pair is checked against the
//! stored PHC password hash, through argon2. An unknown username still costs
//! one hash verification against a fixed fallback hash, so lookups that fail
//! are not distinguishable by timing from lookups that find a user.

use vstd::prelude::*;
use crate::store::{
    has_user, has_username, lemma_user_index_unique, lemma_username_index_unique, user_by_name,
    user_index, user_of, Store, UserRow, UserView, VerificationInfo,
};

verus! {

/// Why authentication failed.
#[derive(Debug)]
pub enum AuthError {
    /// The username is unknown or the password does not match.
    InvalidCredentials(String),
    /// The stored hash could not be read, or another fault outside the
    /// caller's control.
    UnexpectedError(String),
}

/// A username/password pair as submitted for verification.
pub struct Credentials {
    pub username: String,
    pub password: String,
}

/// Whether a stored PHC hash string parses; what
/// `password_hash::PasswordHash::new` accepts, a function of the string
/// alone.
pub uninterp spec fn phc_parse_ok(hash: Seq<char>) -> bool;

/// Whether a password matches a PHC hash under argon2's verification; a
/// function of the two strings alone (the hash string carries its own salt
/// and parameters).
pub uninterp spec fn phc_verifies(hash: Seq<char>, password: Seq<char>) -> bool;

/// The verification failed with the hash itself unreadable.
pub open spec fn unexpected_err(r: Result<(), AuthError>) -> bool {
    r matches Err(e) && e is UnexpectedError
}

/// The verification refused the candidate password.
pub open spec fn invalid_credentials_err(r: Result<(), AuthError>) -> bool {
    r matches Err(e) && e is InvalidCredentials
}

/// Relies on argon2's PHC verification: `password_hash::PasswordHash::new`
/// parses the stored hash string — `phc_parse_ok` names its success — and
/// `argon2::Argon2::verify_password` recomputes the hash over the candidate
/// with the parsed salt and parameters and compares — `phc_verifies` names
/// its outcome. Both are deterministic in the two strings.
#[verifier::external_body]
pub fn verify_password_hash(expected_password_hash: &String, password_candidate: &String) -> (r: Result<(), AuthError>)
    ensures
        (r is Ok) == (phc_parse_ok(expected_password_hash@) && phc_verifies(expected_password_hash@, password_candidate@)),
        !phc_parse_ok(expected_password_hash@) ==> unexpected_err(r),
        phc_parse_ok(expected_password_hash@) && !phc_verifies(expected_password_hash@, password_candidate@) ==> invalid_credentials_err(r),
{
    let parsed = match argon2::PasswordHash::new(expected_password_hash.as_str()) {
        Ok(h) => h,
        Err(e) => {
            return Err(AuthError::UnexpectedError(format!("Failed to parse hash: {e}")));
        },
    };
    let verifier = argon2::Argon2::default();
    match argon2::PasswordVerifier::verify_password(&verifier, password_candidate.as_bytes(), &parsed) {
        Ok(_) => Ok(()),
        Err(e) => Err(AuthError::InvalidCredentials(format!("Invalid password: {e}"))),
    }
}

/// Relies on argon2's `hash_password` over a salt drawn fresh from
/// `SaltString::generate` with fixed cost parameters (Argon2id, version 19,
/// m=15000, t=2, p=1). The salt is random, so nothing is assumed of which
/// PHC string comes back — only what holds of every outcome: the rendered
/// string re-parses (`PasswordHash::new` reads back what `to_string`
/// rendered), and verifying the hashed password against it succeeds
/// (verification recomputes the hash with the salt and parameters the
/// string itself carries).
#[verifier::external_body]
fn compute_password_hash(password: &String) -> (r: Result<String, String>)
    ensures
        r matches Ok(h) ==> phc_parse_ok(h@) && phc_verifies(h@, password@),
{
    let salt = argon2::password_hash::SaltString::generate(&mut rand::thread_rng());
    let hasher = argon2::Argon2::new(
        argon2::Algorithm::Argon2id,
        argon2::Version::V0x13,
        argon2::Params::new(15000, 2, 1, None).unwrap(),
    );
    match argon2::PasswordHasher::hash_password(&hasher, password.as_bytes(), &salt) {
        Ok(h) => Ok(h.to_string()),
        Err(e) => Err(format!("Failed to compute new password hash: {e}")),
    }
}

/// The stored credentials for a username: its user identity and password
/// hash, or `None` when the username is unknown.
pub fn get_stored_credentials(uname: &str, store: &Store) -> (r: Option<VerificationInfo>)
    requires
        store.inv(),
    ensures
        r is Some <==> has_username(store@.users, uname@),
        r matches Some(v) ==> v.user_id == user_by_name(store@.users, uname@).user_id && v.password@
            == user_by_name(store@.users, uname@).password,
{
    let uname_string: String = uname.to_owned();
    match store.user_index_by_name(&uname_string) {
        Option::None => Option::None,
        Option::Some(i) => {
            proof {
                lemma_username_index_unique(store@.users, uname@, i as int);
            }
            Option::Some(
                VerificationInfo {
                    user_id: store.users[i].user_id,
                    password: store.users[i].password.clone(),
                },
            )
        },
    }
}

/// Verifies a username/password pair against the stored hash and returns the
/// user's identity. An unknown username is verified against this fixed,
/// pre-computed fallback hash and then refused, so the timing does not
/// reveal whether the username exists.
pub fn validate_credentials(credentials: &Credentials, store: &Store) -> (r: Result<
    u128,
    AuthError,
>)
    requires
        store.inv(),
    ensures
        !has_username(store@.users, credentials.username@) ==> r is Err,
        has_username(store@.users, credentials.username@) ==> {
            let u = user_by_name(store@.users, credentials.username@);
            &&& (r is Ok) == (phc_parse_ok(u.password) && phc_verifies(
                u.password,
                credentials.password@,
            ))
            &&& (r matches Ok(uid) ==> uid == u.user_id)
            &&& (!phc_parse_ok(u.password) ==> (r matches Err(e) && e is UnexpectedError))
            &&& (phc_parse_ok(u.password) && !phc_verifies(u.password, credentials.password@)
                ==> (r matches Err(e) && e is InvalidCredentials))
        },
{
    let mut user_id: Option<u128> = Option::None;
    let mut expected_password_hash: String =
        "$argon2id$v=19$m=15000,t=2,p=1$gZiV/M1gPc22ElAH/Jh1Hw$CWOrkoo7oJBQ/iyh7uJ0LO2aLEfrHwTWllSAxT0zRno".to_owned();
    match get_stored_credentials(credentials.username.as_str(), store) {
        Option::Some(info) => {
            user_id = Option::Some(info.user_id);
            expected_password_hash = info.password;
        },
        Option::None => {},
    }
    match verify_password_hash(&expected_password_hash, &credentials.password) {
        Ok(_) => {},
        Err(e) => { return Err(e); },
    }
    match user_id {
        Option::Some(uid) => Ok(uid),
        Option::None => Err(AuthError::InvalidCredentials("Unknown username.".to_owned())),
    }
}

/// Replaces the stored password hash of user `uid` with a freshly computed
/// hash of `password` — one that parses and that verifies `password`, so the
/// user can log in with the new password afterwards. A missing user leaves
/// the table as it is (the update then matches no row).
pub fn change_password(uid: u128, password: &String, store: &mut Store) -> (r: Result<(), String>)
    requires
        old(store).inv(),
    ensures
        final(store).inv(),
        final(store)@.subscriptions == old(store)@.subscriptions,
        final(store)@.subscription_tokens == old(store)@.subscription_tokens,
        final(store)@.newsletter_issues == old(store)@.newsletter_issues,
        final(store)@.issue_delivery_queue == old(store)@.issue_delivery_queue,
        final(store)@.idempotency == old(store)@.idempotency,
        !has_user(old(store)@.users, uid) ==> final(store)@ == old(store)@,
        has_user(old(store)@.users, uid) ==> match r {
            Result::Ok(_) => exists|h: Seq<char>|
                {
                    &&& phc_parse_ok(h)
                    &&& phc_verifies(h, password@)
                    &&& final(store)@.users == old(store)@.users.update(
                        user_index(old(store)@.users, uid),
                        UserView {
                            user_id: uid,
                            username: user_of(old(store)@.users, uid).username,
                            password: h,
                        },
                    )
                },
            Result::Err(_) => final(store)@ == old(store)@,
        },
{
    let password_hash = match compute_password_hash(password) {
        Ok(h) => h,
        Err(e) => { return Err(e); },
    };
    match store.user_index(uid) {
        Option::None => {
            proof {
                assert(store@ =~= old(store)@);
            }
            Ok(())
        },
        Option::Some(i) => {
            proof {
                lemma_user_index_unique(store@.users, uid, i as int);
            }
            let row = UserRow {
                user_id: uid,
                username: store.users[i].username.clone(),
                password: password_hash,
            };
            let ghost h = row.password@;
            store.users[i] = row;
            proof {
                let m0 = old(store)@;
                assert(store@.users =~= m0.users.update(
                    user_index(m0.users, uid),
                    UserView {
                        user_id: uid,
                        username: user_of(m0.users, uid).username,
                        password: h,
                    },
                ));
                assert(store@.subscriptions =~= m0.subscriptions);
                assert(store@.subscription_tokens =~= m0.subscription_tokens);
                assert(store@.newsletter_issues =~= m0.newsletter_issues);
                assert(store@.issue_delivery_queue =~= m0.issue_delivery_queue);
                assert(store@.idempotency =~= m0.idempotency);
                assert forall|p: int| 0 <= p < store@.users.len() implies #[trigger] store@.users[
                    p
                ].user_id == m0.users[p].user_id && store@.users[p].username
                    == m0.users[p].username by {}
            }
            Ok(())
        },
    }
}

} // verus!
