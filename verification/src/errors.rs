use vstd::prelude::*;

verus! {

/// The distinguishable failure kinds of the ledger's operations.
///
/// Every failing operation surfaces exactly one of these to its caller and
/// leaves the registry untouched.
#[derive(Clone, Copy, Debug, PartialEq, Eq, Structural)]
pub enum Error {
    /// No campaign with the given identifier exists.
    NotFound,
    /// A donation arrived after the campaign's deadline.
    DeadlinePassed,
    /// A claim was attempted at or before the deadline.
    ClaimTooEarly,
    /// A claim was attempted by someone other than the campaign owner.
    Unauthorized,
    /// Recording the donation would overflow the campaign's running total.
    Overflow,
}

impl Error {
    /// The message reported for this failure kind.
    pub open spec fn spec_message(self) -> Seq<char> {
        match self {
            Error::NotFound => "campaign not found"@,
            Error::DeadlinePassed => "the deadline for this campaign has passed"@,
            Error::ClaimTooEarly => "the campaign can be claimed only after the deadline ends"@,
            Error::Unauthorized => "only the campaign owner may claim"@,
            Error::Overflow => "amount overflow"@,
        }
    }

    /// A human-readable description of the failure.
    pub fn message(&self) -> (r: &'static str)
        ensures
            r@ == self.spec_message(),
    {
        match self {
            Error::NotFound => "campaign not found",
            Error::DeadlinePassed => "the deadline for this campaign has passed",
            Error::ClaimTooEarly => "the campaign can be claimed only after the deadline ends",
            Error::Unauthorized => "only the campaign owner may claim",
            Error::Overflow => "amount overflow",
        }
    }
}

} // verus!
