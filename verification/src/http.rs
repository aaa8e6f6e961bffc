//! A minimal model of an HTTP response: status code, header list and body
//! bytes. Responses are stored byte-for-byte in the idempotency table and
//! replayed on retried publish requests, so equality of views is the notion
//! of "the same response" throughout the crate.

use vstd::prelude::*;
use vstd::string::StrSliceExecFns;
use vstd::utf8::encode_utf8;

verus! {

/// One response header: a name and a byte value, as persisted in the
/// idempotency table.
#[derive(Debug)]
pub struct SavedHeader {
    pub name: String,
    pub value: Vec<u8>,
}

/// The mathematical view of a header.
#[verifier::ext_equal]
pub ghost struct HeaderView {
    pub name: Seq<char>,
    pub value: Seq<u8>,
}

impl View for SavedHeader {
    type V = HeaderView;

    open spec fn view(&self) -> HeaderView {
        HeaderView { name: self.name@, value: self.value@ }
    }
}

/// An HTTP response, as the handlers build it and as the idempotency table
/// replays it.
#[derive(Debug)]
pub struct HttpResponse {
    pub status: u16,
    pub headers: Vec<SavedHeader>,
    pub body: Vec<u8>,
}

/// The mathematical view of a response; two responses with equal views are
/// indistinguishable at the HTTP layer.
#[verifier::ext_equal]
pub ghost struct RespView {
    pub status: u16,
    pub headers: Seq<HeaderView>,
    pub body: Seq<u8>,
}

/// The views of a header list.
pub open spec fn headers_view(hs: Seq<SavedHeader>) -> Seq<HeaderView> {
    hs.map_values(|h: SavedHeader| h@)
}

impl View for HttpResponse {
    type V = RespView;

    open spec fn view(&self) -> RespView {
        RespView { status: self.status, headers: headers_view(self.headers@), body: self.body@ }
    }
}

/// The view of a bodiless response with no headers and the given status.
pub open spec fn empty_response_view(status: u16) -> RespView {
    RespView { status, headers: Seq::empty(), body: Seq::empty() }
}

/// The view of a redirect (`303 See Other`) to `location`.
pub open spec fn see_other_view(location: Seq<char>) -> RespView {
    RespView {
        status: 303,
        headers: seq![HeaderView { name: "location"@, value: encode_utf8(location) }],
        body: Seq::empty(),
    }
}

impl HttpResponse {
    /// A response with the given status, no headers and an empty body.
    pub fn new(status: u16) -> (r: HttpResponse)
        ensures
            r@ == empty_response_view(status),
    {
        let r = HttpResponse { status, headers: Vec::new(), body: Vec::new() };
        proof {
            assert(r@ =~= empty_response_view(status));
        }
        r
    }
}

impl Clone for SavedHeader {
    fn clone(&self) -> (r: Self)
        ensures
            r@ == self@,
    {
        SavedHeader { name: self.name.clone(), value: self.value.clone() }
    }
}

impl Clone for HttpResponse {
    fn clone(&self) -> (r: Self)
        ensures
            r@ == self@,
    {
        let mut headers: Vec<SavedHeader> = Vec::new();
        let mut i: usize = 0;
        while i < self.headers.len()
            invariant
                i <= self.headers.len(),
                headers@.len() == i,
                forall|j: int| 0 <= j < i ==> #[trigger] headers@[j]@ == self.headers@[j]@,
            decreases self.headers.len() - i,
        {
            headers.push(self.headers[i].clone());
            i = i + 1;
        }
        let r = HttpResponse { status: self.status, headers, body: self.body.clone() };
        proof {
            assert(headers_view(r.headers@) =~= headers_view(self.headers@));
            assert(r@ =~= self@);
        }
        r
    }
}

/// A redirect (`303 See Other`) to `location`, the success response of the
/// publish endpoint.
pub fn see_other(location: &str) -> (r: HttpResponse)
    ensures
        r@ == see_other_view(location@),
{
    let mut headers: Vec<SavedHeader> = Vec::new();
    let name: String = "location".to_owned();
    let value: Vec<u8> = location.as_bytes_vec();
    headers.push(SavedHeader { name, value });
    let r = HttpResponse { status: 303, headers, body: Vec::new() };
    proof {
        assert(headers_view(r.headers@) =~= see_other_view(location@).headers);
        assert(r@ =~= see_other_view(location@));
    }
    r
}

} // verus!
