use vstd::prelude::*;

verus! {

/// A struct to represent the identity of a specific frontend currently
/// available on the system.
#[derive(Clone, Debug, Eq, PartialEq, Structural)]
pub struct FrontendId {
    pub adapter: u16,
    pub frontend: u16,
}

/// A struct to represent a tuning of a frontend.
#[derive(Clone, Debug, Eq, PartialEq)]
pub struct TuningId {
    pub frontend: FrontendId,
    pub channel: String,
}

} // verus!
