//! Store and invariant errors. Unrecognized input is never an error — it is
//! simply ignored — so every variant here marks either a constraint violation
//! (a ledger write referencing an unknown participant) or a referential
//! invariant violation surfaced while rendering prompt text or decoding a
//! stored prompt.

use vstd::prelude::*;
use vstd::string::StringExecFns;

use crate::ids::UserId;
use crate::text::{u64_dec, u64_to_string};

verus! {

#[derive(Debug, Clone, Copy, PartialEq, Eq, Structural)]
pub enum Error {
    /// A referenced participant does not exist in the store.
    UserUnknown { id: UserId },
    /// A referenced participant unexpectedly has no bio on file.
    UserMissingBio { id: UserId },
    /// A stored prompt carries a discriminant outside the known range.
    PromptLoadBadDiscriminant { discriminant: u64 },
    /// A stored `Candidate` or `Match` prompt is missing its payload.
    PromptLoadMissingPayload { discriminant: u64 },
    /// A stored payload-free prompt carries a payload anyway.
    PromptLoadSuperfluousPayload { discriminant: u64, payload: u64 },
}

impl Error {
    /// The diagnostic text of the error.
    pub open spec fn spec_message(self) -> Seq<char> {
        match self {
            Error::UserUnknown { id } => "unknown user: "@ + u64_dec(id.0 as int),
            Error::UserMissingBio { id } => "user missing bio: "@ + u64_dec(id.0 as int),
            Error::PromptLoadBadDiscriminant { discriminant } => "bad prompt discriminant: "@
                + u64_dec(discriminant as int),
            Error::PromptLoadMissingPayload { discriminant } => "missing prompt payload: "@
                + u64_dec(discriminant as int),
            Error::PromptLoadSuperfluousPayload { discriminant, payload } =>
                "superfluous prompt payload: "@ + u64_dec(payload as int),
        }
    }

    /// Render the diagnostic text of the error.
    pub fn message(&self) -> (r: String)
        ensures
            r@ == self.spec_message(),
    {
        match self {
            Error::UserUnknown { id } => String::from_str("unknown user: ").concat(
                u64_to_string(id.0).as_str(),
            ),
            Error::UserMissingBio { id } => String::from_str("user missing bio: ").concat(
                u64_to_string(id.0).as_str(),
            ),
            Error::PromptLoadBadDiscriminant { discriminant } => String::from_str(
                "bad prompt discriminant: ",
            ).concat(u64_to_string(*discriminant).as_str()),
            Error::PromptLoadMissingPayload { discriminant } => String::from_str(
                "missing prompt payload: ",
            ).concat(u64_to_string(*discriminant).as_str()),
            Error::PromptLoadSuperfluousPayload { payload, .. } => String::from_str(
                "superfluous prompt payload: ",
            ).concat(u64_to_string(*payload).as_str()),
        }
    }
}

} // verus!
