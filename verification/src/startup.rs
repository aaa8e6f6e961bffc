//! What the assembled application hands the routes at start-up. Binding
//! sockets, building the server and wiring routes is process work outside
//! the verified core; the core keeps only the data the routes reason about.

use vstd::prelude::*;

verus! {

/// The public base URL confirmation links are built against.
pub struct ApplicationBaseUrl(pub String);

impl View for ApplicationBaseUrl {
    type V = Seq<char>;

    open spec fn view(&self) -> Seq<char> {
        self.0@
    }
}

} // verus!
