//! An allow-list on client addresses: a request from an address not on
//! the list is answered `403 Forbidden` before it reaches any route. The
//! middleware plumbing that extracts the peer address lives with the HTTP
//! framework outside the core and hands the address in.

use vstd::prelude::*;
use vstd::string::StrSliceExecFns;
use vstd::utf8::encode_utf8;
use crate::http::{HttpResponse, RespView};

verus! {

/// The allow-list of client addresses.
pub struct IpChecker {
    pub allows: Vec<String>,
}

impl Default for IpChecker {
    /// An empty allow-list, refusing every address.
    fn default() -> (r: IpChecker)
        ensures
            forall|s: Seq<char>| !r.spec_allows(s),
    {
        IpChecker { allows: Vec::new() }
    }
}

/// The view of the `403 Forbidden` answer.
pub open spec fn forbidden_view() -> RespView {
    RespView { status: 403, headers: Seq::empty(), body: encode_utf8("Forbidden"@) }
}

impl IpChecker {
    /// Whether an address is on the allow-list.
    pub open spec fn spec_allows(&self, ip: Seq<char>) -> bool {
        exists|i: int| 0 <= i < self.allows@.len() && #[trigger] self.allows@[i]@ == ip
    }

    /// Adds an address to the allow-list.
    pub fn allow(self, ip: &str) -> (r: Self)
        ensures
            forall|s: Seq<char>| #[trigger] r.spec_allows(s) == (self.spec_allows(s) || s == ip@),
    {
        let ghost before = self;
        let mut checker = self;
        checker.allows.push(ip.to_owned());
        proof {
            let n = before.allows@.len() as int;
            assert forall|s: Seq<char>| #[trigger]
                checker.spec_allows(s) == (before.spec_allows(s) || s == ip@) by {
                if checker.spec_allows(s) {
                    let i = choose|i: int|
                        0 <= i < checker.allows@.len() && #[trigger] checker.allows@[i]@ == s;
                    if i < n {
                        assert(before.allows@[i]@ == s);
                    }
                }
                if before.spec_allows(s) {
                    let i = choose|i: int|
                        0 <= i < before.allows@.len() && #[trigger] before.allows@[i]@ == s;
                    assert(checker.allows@[i]@ == s);
                }
                if s == ip@ {
                    assert(checker.allows@[n]@ == s);
                }
            }
        }
        checker
    }

    /// Whether the given address is on the allow-list.
    pub fn is_allowed(&self, ip: &str) -> (r: bool)
        ensures
            r == self.spec_allows(ip@),
    {
        let ip_string: String = ip.to_owned();
        let mut i: usize = 0;
        while i < self.allows.len()
            invariant
                i <= self.allows.len(),
                ip_string@ == ip@,
                forall|j: int| 0 <= j < i ==> #[trigger] self.allows@[j]@ != ip@,
            decreases self.allows.len() - i,
        {
            let hit = self.allows[i] == ip_string;
            proof {
                assert(hit == (self.allows@[i as int]@ == ip@));
            }
            if hit {
                proof {
                    assert(self.spec_allows(ip@));
                }
                return true;
            }
            i = i + 1;
        }
        false
    }

    /// The check itself: a request whose real client address is missing or not
    /// on the allow-list is answered `403 Forbidden`; any other request
    /// passes.
    pub fn check(&self, realip: Option<&String>) -> (r: Option<HttpResponse>)
        ensures
            match realip {
                Option::Some(ip) => if self.spec_allows(ip@) {
                    r is None
                } else {
                    r matches Some(resp) && resp@ == forbidden_view()
                },
                Option::None => r matches Some(resp) && resp@ == forbidden_view(),
            },
    {
        let forbidden = match realip {
            Option::Some(ip) => !self.is_allowed(ip.as_str()),
            Option::None => true,
        };
        if forbidden {
            let body: Vec<u8> = "Forbidden".as_bytes_vec();
            let resp = HttpResponse { status: 403, headers: Vec::new(), body };
            proof {
                assert(resp@ =~= forbidden_view());
            }
            Option::Some(resp)
        } else {
            Option::None
        }
    }
}

} // verus!
