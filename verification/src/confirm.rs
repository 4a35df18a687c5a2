//! The confirmation gate: when any warning accumulated, the operator is
//! asked once whether to proceed.  The core never decides the outcome; it
//! only classifies the textual response.

use vstd::prelude::*;
use vstd::string::*;

verus! {

/// How a confirmation response is read.
#[derive(Clone, Copy, Debug, PartialEq, Eq, Structural)]
pub enum Decision {
    /// `Y` or `y`: go on and rename.
    Proceed,
    /// `N` or `n`: stop with no renames.
    Decline,
    /// Anything else: stop with no renames and an error indication —
    /// never a retry prompt.
    Invalid,
}

/// The recognized responses are exactly `Y`, `y`, `N` and `n`.
pub open spec fn decision_spec(s: Seq<char>) -> Decision {
    if s == "Y"@ || s == "y"@ {
        Decision::Proceed
    } else if s == "N"@ || s == "n"@ {
        Decision::Decline
    } else {
        Decision::Invalid
    }
}

/// Classifies the operator's textual response.
pub fn decide(response: &String) -> (r: Decision)
    ensures
        r == decision_spec(response@),
{
    if *response == String::from_str("Y") || *response == String::from_str("y") {
        Decision::Proceed
    } else if *response == String::from_str("N") || *response == String::from_str("n") {
        Decision::Decline
    } else {
        Decision::Invalid
    }
}

} // verus!
