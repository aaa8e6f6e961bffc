//! Admin-scope reads: resolving the logged-in user's name for the dashboard
//! and the publish route. The dashboard page itself is presentation and is
//! rendered by the processes around the verified core.

use vstd::prelude::*;
use crate::authentication::{validate_credentials, AuthError, Credentials, phc_parse_ok, phc_verifies};
use crate::http::{see_other, see_other_view, HttpResponse};
use crate::session_state::UserId;
use crate::store::{
    has_user, lemma_user_index_unique, lemma_username_index_unique, user_by_name, user_index,
    user_of, Store, UserView,
};

verus! {

/// The username of the user with identity `uid`; fails exactly when no such
/// user exists.
pub fn get_username(uid: u128, store: &Store) -> (r: Result<String, String>)
    requires
        store.inv(),
    ensures
        r is Ok <==> has_user(store@.users, uid),
        r matches Ok(name) ==> name@ == user_of(store@.users, uid).username,
{
    match store.user_index(uid) {
        Option::None => Err("Failed to get user".to_owned()),
        Option::Some(i) => {
            proof {
                lemma_user_index_unique(store@.users, uid, i as int);
            }
            Ok(store.users[i].username.clone())
        },
    }
}

/// The form body of `POST /admin/password`.
pub struct FormData {
    pub current_password: String,
    pub new_password: String,
    pub new_password_check: String,
}

/// `POST /admin/password`: changes the logged-in user's password. Mismatched
/// new passwords or a wrong current password redirect back to the form with
/// nothing changed (the flash message is presentation, outside the core); a
/// verified current password replaces the stored hash with a fresh hash
/// that verifies the new password, and redirects back; faults surface as
/// errors with nothing changed.
pub fn change_password(form: FormData, store: &mut Store, user_id: UserId) -> (r: Result<
    HttpResponse,
    String,
>)
    requires
        old(store).inv(),
    ensures
        final(store).inv(),
        final(store)@.subscriptions == old(store)@.subscriptions,
        final(store)@.subscription_tokens == old(store)@.subscription_tokens,
        final(store)@.newsletter_issues == old(store)@.newsletter_issues,
        final(store)@.issue_delivery_queue == old(store)@.issue_delivery_queue,
        final(store)@.idempotency == old(store)@.idempotency,
        form.new_password@ != form.new_password_check@ ==> {
            &&& r matches Ok(resp) && resp@ == see_other_view("/admin/password"@)
            &&& final(store)@ == old(store)@
        },
        form.new_password@ == form.new_password_check@ && !has_user(
            old(store)@.users,
            user_id.0,
        ) ==> r is Err && final(store)@ == old(store)@,
        form.new_password@ == form.new_password_check@ && has_user(
            old(store)@.users,
            user_id.0,
        ) ==> {
            let u = user_of(old(store)@.users, user_id.0);
            &&& (!phc_parse_ok(u.password) ==> r is Err && final(store)@ == old(store)@)
            &&& (phc_parse_ok(u.password) && !phc_verifies(u.password, form.current_password@)
                ==> {
                &&& r matches Ok(resp) && resp@ == see_other_view("/admin/password"@)
                &&& final(store)@ == old(store)@
            })
            &&& (phc_parse_ok(u.password) && phc_verifies(u.password, form.current_password@)
                ==> match r {
                Result::Ok(resp) => resp@ == see_other_view("/admin/password"@) && (exists|
                    h: Seq<char>,
                |
                    {
                        &&& phc_parse_ok(h)
                        &&& phc_verifies(h, form.new_password@)
                        &&& final(store)@.users == old(store)@.users.update(
                            user_index(old(store)@.users, user_id.0),
                            UserView { user_id: user_id.0, username: u.username, password: h },
                        )
                    }),
                Result::Err(_) => final(store)@ == old(store)@,
            })
        },
{
    if !(form.new_password == form.new_password_check) {
        return Ok(see_other("/admin/password"));
    }
    let username = match get_username(user_id.0, store) {
        Ok(u) => u,
        Err(e) => { return Err(e); },
    };
    proof {
        let users = store@.users;
        let i = user_index(users, user_id.0);
        assert(users[i].user_id == user_id.0 && users[i] == user_of(users, user_id.0));
        lemma_username_index_unique(users, username@, i);
        assert(user_by_name(users, username@) == user_of(users, user_id.0));
    }
    let credentials = Credentials { username, password: form.current_password };
    match validate_credentials(&credentials, store) {
        Err(AuthError::InvalidCredentials(_)) => {
            return Ok(see_other("/admin/password"));
        },
        Err(AuthError::UnexpectedError(e)) => { return Err(e); },
        Ok(_) => {},
    }
    match crate::authentication::change_password(user_id.0, &form.new_password, store) {
        Ok(_) => Ok(see_other("/admin/password")),
        Err(e) => Err(e),
    }
}

} // verus!
