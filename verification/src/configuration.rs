//! Which environment the process runs as. Reading the configuration files
//! themselves is start-up I/O and stays with the process around the core;
//! the core only parses the environment's name.

use vstd::prelude::*;
use vstd::string::StringExecFns;

verus! {

/// The runtime environment a configuration is loaded for.
#[derive(Debug)]
pub enum Environment {
    Local,
    Production,
}

impl Environment {
    /// The environment's canonical name.
    pub fn as_str(&self) -> (r: &'static str)
        ensures
            self is Local ==> r@ == "local"@,
            self is Production ==> r@ == "production"@,
    {
        match self {
            Environment::Local => "local",
            Environment::Production => "production",
        }
    }
}

/// What `str::to_lowercase` returns; the result depends on the characters
/// alone.
pub uninterp spec fn lower_of(s: Seq<char>) -> Seq<char>;

/// Relies on `str::to_lowercase` for case-folding the environment's name.
#[verifier::external_body]
fn lowercase(s: &str) -> (r: String)
    ensures
        r@ == lower_of(s@),
{
    s.to_lowercase()
}

impl Environment {
    /// Reads an environment's name, case-insensitively: exactly the names
    /// whose lowercase form is `local` or `production` are accepted.
    pub fn try_from(s: String) -> (r: Result<Environment, String>)
        ensures
            lower_of(s@) == "local"@ ==> (r matches Ok(e) && e is Local),
            lower_of(s@) == "production"@ ==> (r matches Ok(e) && e is Production),
            lower_of(s@) != "local"@ && lower_of(s@) != "production"@ ==> r is Err,
            r matches Err(m) ==> m@ == lower_of(s@)
                + " is not a supported environment. Use either `local` or `production`."@,
    {
        proof {
            reveal_strlit("local");
            reveal_strlit("production");
            assert("local"@.len() == 5);
            assert("production"@.len() == 10);
            assert("local"@ != "production"@);
        }
        let lower = lowercase(s.as_str());
        if lower == "local".to_owned() {
            Ok(Environment::Local)
        } else if lower == "production".to_owned() {
            Ok(Environment::Production)
        } else {
            Err(
                lower.concat(
                    " is not a supported environment. Use either `local` or `production`.",
                ),
            )
        }
    }
}

} // verus!
