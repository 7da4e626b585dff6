use vstd::prelude::*;

verus! {

/// A two-valued logical signal, as read from an input line.
#[derive(Debug, PartialEq, Eq, Structural, Copy, Clone)]
pub enum Status {
    /// `false` or `0` input
    Low,
    /// `true` or `1` input
    High,
}

impl Status {
    /// The opposite signal value.
    pub open spec fn spec_not(self) -> Status {
        match self {
            Status::Low => Status::High,
            Status::High => Status::Low,
        }
    }

    /// Inverts the status: `Low` becomes `High` and `High` becomes `Low`.
    #[verifier::when_used_as_spec(spec_not)]
    pub fn not(self) -> (r: Status)
        ensures
            r == self.spec_not(),
    {
        match self {
            Status::Low => Status::High,
            Status::High => Status::Low,
        }
    }

    /// The status that a raw boolean sample stands for: `true` is `High`.
    pub open spec fn spec_from_bool(b: bool) -> Status {
        if b {
            Status::High
        } else {
            Status::Low
        }
    }
}

/// Law: inversion is an involution, and it swaps the two values.
pub proof fn lemma_not_involutive(s: Status)
    ensures
        s.spec_not().spec_not() == s,
        Status::Low.spec_not() == Status::High,
        Status::High.spec_not() == Status::Low,
{
}

impl From<bool> for Status {
    fn from(val: bool) -> Self {
        if val {
            Status::High
        } else {
            Status::Low
        }
    }
}

impl vstd::std_specs::convert::FromSpecImpl<bool> for Status {
    open spec fn obeys_from_spec() -> bool {
        true
    }

    open spec fn from_spec(v: bool) -> Status {
        Status::spec_from_bool(v)
    }
}

impl From<Status> for bool {
    fn from(val: Status) -> Self {
        match val {
            Status::High => true,
            Status::Low => false,
        }
    }
}

impl vstd::std_specs::convert::FromSpecImpl<Status> for bool {
    open spec fn obeys_from_spec() -> bool {
        true
    }

    open spec fn from_spec(v: Status) -> bool {
        v is High
    }
}

} // verus!
