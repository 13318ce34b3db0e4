//! The error values the pipeline can surface.

use vstd::prelude::*;

verus! {

/// A hard failure of the pipeline.
///
/// An (os, env) pair outside the classification table never falls
/// back to a guessed convention; it is reported through this type.
#[derive(Clone, Debug)]
pub enum Error {
    UnsupportedTarget { os: String, env: String },
}

impl Error {
    /// A human-readable description of the error.
    pub fn message(&self) -> (r: String)
        ensures
            self matches Error::UnsupportedTarget { os, env } ==> r@ == "The target "@ + os@ + "-"@
                + env@ + " is not supported yet"@,
    {
        match self {
            Error::UnsupportedTarget { os, env } => {
                let mut r = String::from_str("The target ");
                r.append(os.as_str());
                r.append("-");
                r.append(env.as_str());
                r.append(" is not supported yet");
                proof {
                    assert(r@ =~= "The target "@ + os@ + "-"@ + env@ + " is not supported yet"@);
                }
                r
            },
        }
    }
}

} // verus!
