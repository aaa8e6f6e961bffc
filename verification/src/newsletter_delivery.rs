//! The earlier, HTTP-Basic variant of the publish endpoint: the request
//! carries credentials in its `Authorization` header, and a successful
//! request sends the issue content to every confirmed subscriber directly,
//! with no queue and no idempotency. The sends themselves — one per returned
//! job, aborting on the first failure as the endpoint did — are performed by
//! the process around the core.

use vstd::prelude::*;
use vstd::string::StrSliceExecFns;
use vstd::utf8::{encode_utf8, valid_utf8, decode_utf8};
use crate::authentication::{
    phc_parse_ok, phc_verifies, validate_credentials, AuthError, Credentials,
};
use crate::domain::email_accepted;
use crate::http::{empty_response_view, HeaderView, HttpResponse, RespView, SavedHeader};
use crate::issue_delivery_worker::{JobView, SendJob};
use crate::publish::get_confirmed_subscribers;
use crate::store::{confirmed_subscribers, has_username, user_by_name, Store, SubView};

verus! {

/// Why a basic-auth publish request failed.
#[derive(Debug)]
pub enum PublishError {
    /// Surfaced as a `500`.
    UnexpectedError(String),
    /// Surfaced as a `401` demanding basic authentication.
    AuthError(String),
}

/// The request failed authentication.
pub open spec fn auth_err(r: Result<Vec<SendJob>, PublishError>) -> bool {
    r matches Err(e) && e is AuthError
}

/// The request failed on a fault other than authentication.
pub open spec fn unexpected_publish_err(r: Result<Vec<SendJob>, PublishError>) -> bool {
    r matches Err(e) && e is UnexpectedError
}

impl PublishError {
    /// The response the error surfaces as: an opaque `500`, or a `401` that
    /// demands basic authentication for the `publish` realm.
    pub fn error_response(&self) -> (r: HttpResponse)
        ensures
            self is UnexpectedError ==> r@ == empty_response_view(500),
            self is AuthError ==> r@ == (RespView {
                status: 401,
                headers: seq![
                    HeaderView {
                        name: "www-authenticate"@,
                        value: encode_utf8("Basic realm=\"publish\""@),
                    },
                ],
                body: Seq::empty(),
            }),
    {
        match self {
            PublishError::UnexpectedError(_) => HttpResponse::new(500),
            PublishError::AuthError(_) => {
                let mut headers: Vec<SavedHeader> = Vec::new();
                let name: String = "www-authenticate".to_owned();
                let value: Vec<u8> = "Basic realm=\"publish\"".as_bytes_vec();
                headers.push(SavedHeader { name, value });
                let r = HttpResponse { status: 401, headers, body: Vec::new() };
                proof {
                    assert(crate::http::headers_view(r.headers@) =~= seq![
                        HeaderView {
                            name: "www-authenticate"@,
                            value: encode_utf8("Basic realm=\"publish\""@),
                        },
                    ]);
                    assert(r@ =~= (RespView {
                        status: 401,
                        headers: seq![
                            HeaderView {
                                name: "www-authenticate"@,
                                value: encode_utf8("Basic realm=\"publish\""@),
                            },
                        ],
                        body: Seq::empty(),
                    }));
                }
                r
            },
        }
    }
}

/// The issue content of the request body.
pub struct Content {
    pub text: String,
    pub html: String,
}

/// The request body: a title and the issue content.
pub struct BodyData {
    pub title: String,
    pub content: Content,
}

/// What base64's standard-alphabet decoding yields; a function of the bytes
/// alone.
pub uninterp spec fn b64_standard_decode(s: Seq<u8>) -> Option<Seq<u8>>;

/// Relies on base64's `BASE64_STANDARD.decode`, the standard alphabet with
/// padding: deterministic in its input.
#[verifier::external_body]
fn base64_decode(input: &Vec<u8>) -> (r: Result<Vec<u8>, String>)
    ensures
        (r is Ok) == (b64_standard_decode(input@) is Some),
        r matches Ok(v) ==> b64_standard_decode(input@) == Option::Some(v@),
{
    match base64::Engine::decode(&base64::prelude::BASE64_STANDARD, input.as_slice()) {
        Ok(v) => Ok(v),
        Err(e) => Err(format!("Failed to base64-decode 'Basic' credentials: {e}")),
    }
}

/// Relies on `String::from_utf8`: succeeds exactly on valid UTF-8 and
/// returns the string those bytes spell.
#[verifier::external_body]
fn string_from_utf8(bytes: Vec<u8>) -> (r: Result<String, String>)
    ensures
        (r is Ok) == valid_utf8(bytes@),
        r matches Ok(s) ==> s@ == decode_utf8(bytes@),
{
    match String::from_utf8(bytes) {
        Ok(s) => Ok(s),
        Err(e) => Err(format!("The decoded credential string is not valid UTF8: {e}")),
    }
}

/// The header value opens with the `Basic ` authorization scheme.
pub open spec fn is_basic_prefix(h: Seq<u8>) -> bool {
    h.len() >= 6 && h[0] == 66u8 && h[1] == 97u8 && h[2] == 115u8 && h[3] == 105u8 && h[4]
        == 99u8 && h[5] == 32u8
}

/// The index of the first `':'` byte, or `-1` when there is none.
pub open spec fn first_colon(b: Seq<u8>) -> int
    decreases b.len(),
{
    if b.len() == 0 {
        -1
    } else if b[0] == 58u8 {
        0
    } else {
        let r = first_colon(b.drop_first());
        if r < 0 {
            -1
        } else {
            r + 1
        }
    }
}

/// The first `':'` is exactly the match a forward scan finds.
proof fn lemma_first_colon(b: Seq<u8>, k: int)
    requires
        0 <= k < b.len(),
        b[k] == 58u8,
        forall|j: int| 0 <= j < k ==> b[j] != 58u8,
    ensures
        first_colon(b) == k,
    decreases b.len(),
{
    if k > 0 {
        lemma_first_colon(b.drop_first(), k - 1);
    }
}

/// A scan that found no `':'` matches the specification's `-1`.
proof fn lemma_no_colon(b: Seq<u8>)
    requires
        forall|j: int| 0 <= j < b.len() ==> b[j] != 58u8,
    ensures
        first_colon(b) < 0,
    decreases b.len(),
{
    if b.len() > 0 {
        lemma_no_colon(b.drop_first());
    }
}

/// The username/password pair a `Basic` authorization header value decodes
/// to: the scheme prefix stripped, the rest base64-decoded, the decoding
/// split at its first `':'`, and the two parts read as UTF-8 — `None`
/// wherever one of those steps refuses.
pub open spec fn decoded_credentials(h: Seq<u8>) -> Option<(Seq<char>, Seq<char>)> {
    if !is_basic_prefix(h) {
        Option::None
    } else {
        match b64_standard_decode(h.skip(6)) {
            Option::None => Option::None,
            Option::Some(d) => {
                let k = first_colon(d);
                if k < 0 {
                    Option::None
                } else if valid_utf8(d.take(k)) && valid_utf8(d.skip(k + 1)) {
                    Option::Some((decode_utf8(d.take(k)), decode_utf8(d.skip(k + 1))))
                } else {
                    Option::None
                }
            },
        }
    }
}

/// Reads the `Basic` credentials out of an `Authorization` header value:
/// accepts exactly the values [`decoded_credentials`] accepts, and returns
/// the username and password they spell.
pub fn basic_authentication(auth_header: Option<&Vec<u8>>) -> (r: Result<Credentials, String>)
    ensures
        auth_header is None ==> r is Err,
        auth_header matches Some(h) ==> {
            &&& (r is Ok) == (decoded_credentials(h@) is Some)
            &&& (r matches Ok(c) ==> decoded_credentials(h@) == Option::Some(
                (c.username@, c.password@),
            ))
        },
{
    let header = match auth_header {
        Option::None => {
            return Err("The 'Authorization' header was missing".to_owned());
        },
        Option::Some(h) => h,
    };
    if !(header.len() >= 6 && header[0] == 66 && header[1] == 97 && header[2] == 115 && header[3]
        == 105 && header[4] == 99 && header[5] == 32) {
        return Err("The authorization scheme was not 'Basic'.".to_owned());
    }
    let mut segment: Vec<u8> = Vec::new();
    let mut i: usize = 6;
    while i < header.len()
        invariant
            6 <= i <= header.len(),
            segment@ =~= header@.subrange(6, i as int),
        decreases header.len() - i,
    {
        segment.push(header[i]);
        i = i + 1;
    }
    proof {
        assert(segment@ =~= header@.skip(6));
    }
    let decoded = match base64_decode(&segment) {
        Ok(v) => v,
        Err(e) => { return Err(e); },
    };
    let mut k: usize = 0;
    while k < decoded.len()
        invariant
            k <= decoded.len(),
            forall|j: int| 0 <= j < k ==> decoded@[j] != 58u8,
        ensures
            k <= decoded.len(),
            forall|j: int| 0 <= j < k ==> decoded@[j] != 58u8,
            k < decoded.len() ==> decoded@[k as int] == 58u8,
        decreases decoded.len() - k,
    {
        if decoded[k] == 58 {
            break ;
        }
        k = k + 1;
    }
    if k == decoded.len() {
        proof {
            lemma_no_colon(decoded@);
        }
        return Err("A password must be provided in 'Basic' auth.".to_owned());
    }
    proof {
        lemma_first_colon(decoded@, k as int);
    }
    let mut username_bytes: Vec<u8> = Vec::new();
    let mut j: usize = 0;
    while j < k
        invariant
            j <= k,
            k < decoded.len(),
            username_bytes@ =~= decoded@.subrange(0, j as int),
        decreases k - j,
    {
        username_bytes.push(decoded[j]);
        j = j + 1;
    }
    let mut password_bytes: Vec<u8> = Vec::new();
    let mut p: usize = k + 1;
    while p < decoded.len()
        invariant
            k + 1 <= p <= decoded.len(),
            password_bytes@ =~= decoded@.subrange(k + 1, p as int),
        decreases decoded.len() - p,
    {
        password_bytes.push(decoded[p]);
        p = p + 1;
    }
    proof {
        assert(username_bytes@ =~= decoded@.take(k as int));
        assert(password_bytes@ =~= decoded@.skip(k + 1));
    }
    let username = match string_from_utf8(username_bytes) {
        Ok(u) => u,
        Err(e) => { return Err(e); },
    };
    let password = match string_from_utf8(password_bytes) {
        Ok(p) => p,
        Err(e) => { return Err(e); },
    };
    Ok(Credentials { username, password })
}

/// The sends a successful request owes: one per confirmed subscriber whose
/// stored address passes the address check (the rest are skipped), each
/// carrying the issue's title and content.
pub open spec fn jobs_from(
    cs: Seq<SubView>,
    title: Seq<char>,
    html: Seq<char>,
    text: Seq<char>,
) -> Seq<JobView>
    decreases cs.len(),
{
    if cs.len() == 0 {
        Seq::empty()
    } else {
        let rest = jobs_from(cs.drop_last(), title, html, text);
        if email_accepted(cs.last().email) {
            rest.push(JobView { email: cs.last().email, title, html, text })
        } else {
            rest
        }
    }
}

/// `POST /newsletters`, the basic-auth publish endpoint. The request's
/// `Basic` credentials are decoded and verified; a request by a known user
/// with the right password is answered with the sends it owes — one per
/// confirmed subscriber with a valid stored address, in table order — which
/// the caller performs, stopping at the first send failure as the endpoint
/// did. Bad or missing credentials fail as an authentication error; an
/// unreadable stored hash fails as an unexpected error.
pub fn newsletter_delivery(body: &BodyData, store: &Store, auth_header: Option<&Vec<u8>>) -> (r:
    Result<Vec<SendJob>, PublishError>)
    requires
        store.inv(),
    ensures
        auth_header is None ==> auth_err(r),
        auth_header matches Some(h) ==> {
            &&& decoded_credentials(h@) is None ==> auth_err(r)
            &&& decoded_credentials(h@) matches Some(c) ==> {
                &&& !has_username(store@.users, c.0) ==> r is Err
                &&& has_username(store@.users, c.0) ==> {
                    let u = user_by_name(store@.users, c.0);
                    &&& (!phc_parse_ok(u.password) ==> unexpected_publish_err(r))
                    &&& (phc_parse_ok(u.password) && !phc_verifies(u.password, c.1) ==> auth_err(
                        r,
                    ))
                    &&& (phc_parse_ok(u.password) && phc_verifies(u.password, c.1) ==> (r matches
                    Ok(jobs) && jobs@.map_values(|j: SendJob| j@) == jobs_from(
                        confirmed_subscribers(store@.subscriptions),
                        body.title@,
                        body.content.html@,
                        body.content.text@,
                    )))
                }
            }
        },
{
    let credentials = match basic_authentication(auth_header) {
        Ok(c) => c,
        Err(e) => { return Err(PublishError::AuthError(e)); },
    };
    let user_result = validate_credentials(&credentials, store);
    match user_result {
        Err(AuthError::InvalidCredentials(e)) => {
            return Err(PublishError::AuthError(e));
        },
        Err(AuthError::UnexpectedError(e)) => {
            return Err(PublishError::UnexpectedError(e));
        },
        Ok(_) => {},
    }
    let subscriptions = get_confirmed_subscribers(store);
    let ghost cs = confirmed_subscribers(store@.subscriptions);
    let mut jobs: Vec<SendJob> = Vec::new();
    let mut i: usize = 0;
    while i < subscriptions.len()
        invariant
            i <= subscriptions.len(),
            subscriptions@.len() == cs.len(),
            cs == confirmed_subscribers(store@.subscriptions),
            forall|j: int|
                0 <= j < subscriptions@.len() ==> match #[trigger] subscriptions@[j] {
                    Result::Ok(c) => email_accepted(cs[j].email) && c.email@ == cs[j].email,
                    Result::Err(_) => !email_accepted(cs[j].email),
                },
            jobs@.map_values(|j: SendJob| j@) =~= jobs_from(
                cs.take(i as int),
                body.title@,
                body.content.html@,
                body.content.text@,
            ),
        decreases subscriptions.len() - i,
    {
        proof {
            assert(cs.take(i + 1).drop_last() =~= cs.take(i as int));
            assert(cs.take(i + 1).last() == cs[i as int]);
        }
        match &subscriptions[i] {
            Result::Ok(subscriber) => {
                let job = SendJob {
                    email: subscriber.email.clone(),
                    title: body.title.clone(),
                    html: body.content.html.clone(),
                    text: body.content.text.clone(),
                };
                jobs.push(job);
                proof {
                    assert(jobs@.map_values(|j: SendJob| j@) =~= jobs_from(
                        cs.take(i + 1),
                        body.title@,
                        body.content.html@,
                        body.content.text@,
                    ));
                }
            },
            Result::Err(_) => {
                proof {
                    assert(jobs@.map_values(|j: SendJob| j@) =~= jobs_from(
                        cs.take(i + 1),
                        body.title@,
                        body.content.html@,
                        body.content.text@,
                    ));
                }
            },
        }
        i = i + 1;
    }
    proof {
        assert(cs.take(cs.len() as int) =~= cs);
    }
    Ok(jobs)
}

} // verus!
