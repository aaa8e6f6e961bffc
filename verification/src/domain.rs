//! Input validation for the subscribe endpoint: an e-mail address checked
//! against the HTML5 address grammar (through the `validator` crate) and a
//! display name checked non-empty. A `NewSubscriber` exists only for inputs
//! that passed both checks.

use vstd::prelude::*;
use vstd::string::StringExecFns;

verus! {

/// What `validator`'s e-mail check accepts. The check is a function of the
/// string alone: the crate matches against fixed patterns from the HTML5
/// specification.
pub uninterp spec fn email_accepted(s: Seq<char>) -> bool;

/// Relies on `validator::ValidateEmail::validate_email` for the HTML5
/// e-mail address check. Its source rejects the empty string, and any string
/// without a `'@'`, before all other tests.
#[verifier::external_body]
fn validate_email(s: &String) -> (r: bool)
    ensures
        r == email_accepted(s@),
        s@.len() == 0 ==> r == false,
        (forall|i: int| 0 <= i < s@.len() ==> s@[i] != '@') ==> r == false,
{
    validator::ValidateEmail::validate_email(s)
}

/// A subscriber's e-mail address, accepted by the address check.
#[derive(Debug)]
pub struct SubscriberEmail(String);

impl View for SubscriberEmail {
    type V = Seq<char>;

    closed spec fn view(&self) -> Seq<char> {
        self.0@
    }
}

impl SubscriberEmail {
    /// Every value of this type came through [`SubscriberEmail::parse`].
    pub open spec fn wf(&self) -> bool {
        email_accepted(self@)
    }

    /// Accepts exactly the addresses the e-mail check accepts; in
    /// particular, the empty string and any string without a `'@'` are
    /// rejected.
    pub fn parse(email: String) -> (r: Result<SubscriberEmail, String>)
        ensures
            r is Ok <==> email_accepted(email@),
            r matches Ok(e) ==> e@ == email@ && e.wf(),
            r matches Err(m) ==> m@ == email@ + " is not a valid subscriber email."@,
            email@.len() == 0 ==> r is Err,
            (forall|i: int| 0 <= i < email@.len() ==> email@[i] != '@') ==> r is Err,
    {
        if validate_email(&email) {
            Ok(SubscriberEmail(email))
        } else {
            let mut m = email;
            m.append(" is not a valid subscriber email.");
            Err(m)
        }
    }

    /// The address as the string it was supplied as.
    pub fn inner(&self) -> (r: String)
        ensures
            r@ == self@,
    {
        self.0.clone()
    }
}

impl Clone for SubscriberEmail {
    fn clone(&self) -> (r: Self)
        ensures
            r@ == self@,
    {
        SubscriberEmail(self.0.clone())
    }
}

/// What the display-name check accepts: any non-empty name.
pub open spec fn name_accepted(s: Seq<char>) -> bool {
    s.len() > 0
}

/// A subscriber's display name, checked non-empty.
#[derive(Debug)]
pub struct SubscriberName(String);

impl View for SubscriberName {
    type V = Seq<char>;

    closed spec fn view(&self) -> Seq<char> {
        self.0@
    }
}

impl SubscriberName {
    /// Every value of this type came through [`SubscriberName::parse`].
    pub open spec fn wf(&self) -> bool {
        name_accepted(self@)
    }

    /// Accepts exactly the non-empty names.
    pub fn parse(name: String) -> (r: Result<SubscriberName, String>)
        ensures
            r is Ok <==> name_accepted(name@),
            r matches Ok(n) ==> n@ == name@ && n.wf(),
    {
        if name.as_str().is_empty() {
            Err("The subscriber name cannot be empty.".to_owned())
        } else {
            Ok(SubscriberName(name))
        }
    }

    /// The name as the string it was supplied as.
    pub fn inner(&self) -> (r: String)
        ensures
            r@ == self@,
    {
        self.0.clone()
    }
}

impl Clone for SubscriberName {
    fn clone(&self) -> (r: Self)
        ensures
            r@ == self@,
    {
        SubscriberName(self.0.clone())
    }
}

/// The form body of `POST /subscriptions`.
pub struct SubscribeFormData {
    pub email: String,
    pub name: String,
}

/// A validated subscribe request.
pub struct NewSubscriber {
    pub email: SubscriberEmail,
    pub name: SubscriberName,
}

impl NewSubscriber {
    pub open spec fn wf(&self) -> bool {
        self.email.wf() && self.name.wf()
    }

    /// Validates a subscribe form: the name must be non-empty and the e-mail
    /// must pass the address check, the name being checked first.
    pub fn try_from_form(value: SubscribeFormData) -> (r: Result<NewSubscriber, String>)
        ensures
            r is Ok <==> name_accepted(value.name@) && email_accepted(value.email@),
            r matches Ok(s) ==> s.email@ == value.email@ && s.name@ == value.name@ && s.wf(),
    {
        let sub_name = match SubscriberName::parse(value.name) {
            Ok(n) => n,
            Err(e) => { return Err(e); },
        };
        let sub_email = match SubscriberEmail::parse(value.email) {
            Ok(e) => e,
            Err(e) => { return Err(e); },
        };
        Ok(NewSubscriber { name: sub_name, email: sub_email })
    }
}

} // verus!
