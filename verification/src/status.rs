//! The three-valued verdict and its two connectives.
use vstd::prelude::*;
use vstd::std_specs::ops::{BitAndSpecImpl, BitOrSpecImpl};

verus! {

/// The verdict of a rule check.
#[derive(Debug, PartialEq, Eq, Clone, Copy, Structural)]
pub enum Status {
    /// The rule was satisfied.
    Met,
    /// The rule was not satisfied.
    NotMet,
    /// There was not enough information to decide.
    Unknown,
}

impl Status {
    /// Conjunction: any `NotMet` operand decides; otherwise both operands
    /// must be `Met` for the result to be `Met`.
    pub open spec fn conj(self, rhs: Status) -> Status {
        if self == Status::NotMet || rhs == Status::NotMet {
            Status::NotMet
        } else if self == Status::Met && rhs == Status::Met {
            Status::Met
        } else {
            Status::Unknown
        }
    }

    /// Disjunction: any `Met` operand decides; otherwise both operands must
    /// be `NotMet` for the result to be `NotMet`.
    pub open spec fn disj(self, rhs: Status) -> Status {
        if self == Status::Met || rhs == Status::Met {
            Status::Met
        } else if self == Status::NotMet && rhs == Status::NotMet {
            Status::NotMet
        } else {
            Status::Unknown
        }
    }
}

impl core::ops::BitAnd for Status {
    type Output = Status;

    fn bitand(self, rhs: Status) -> (out: Status)
        ensures
            out == self.conj(rhs),
    {
        match (self, rhs) {
            (Status::Met, Status::Met) => Status::Met,
            (Status::NotMet, _) | (_, Status::NotMet) => Status::NotMet,
            (_, _) => Status::Unknown,
        }
    }
}

impl BitAndSpecImpl for Status {
    open spec fn obeys_bitand_spec() -> bool {
        true
    }

    open spec fn bitand_req(self, rhs: Status) -> bool {
        true
    }

    open spec fn bitand_spec(self, rhs: Status) -> Status {
        self.conj(rhs)
    }
}

impl core::ops::BitOr for Status {
    type Output = Status;

    fn bitor(self, rhs: Status) -> (out: Status)
        ensures
            out == self.disj(rhs),
    {
        match (self, rhs) {
            (Status::NotMet, Status::NotMet) => Status::NotMet,
            (Status::Met, _) | (_, Status::Met) => Status::Met,
            (_, _) => Status::Unknown,
        }
    }
}

impl BitOrSpecImpl for Status {
    open spec fn obeys_bitor_spec() -> bool {
        true
    }

    open spec fn bitor_req(self, rhs: Status) -> bool {
        true
    }

    open spec fn bitor_spec(self, rhs: Status) -> Status {
        self.disj(rhs)
    }
}

/// The two connectives on every pair of verdicts.
pub proof fn lemma_truth_tables()
    ensures
        Status::Met.conj(Status::Met) == Status::Met,
        Status::Met.conj(Status::NotMet) == Status::NotMet,
        Status::Met.conj(Status::Unknown) == Status::Unknown,
        Status::NotMet.conj(Status::Met) == Status::NotMet,
        Status::NotMet.conj(Status::NotMet) == Status::NotMet,
        Status::NotMet.conj(Status::Unknown) == Status::NotMet,
        Status::Unknown.conj(Status::Met) == Status::Unknown,
        Status::Unknown.conj(Status::NotMet) == Status::NotMet,
        Status::Unknown.conj(Status::Unknown) == Status::Unknown,
        Status::Met.disj(Status::Met) == Status::Met,
        Status::Met.disj(Status::NotMet) == Status::Met,
        Status::Met.disj(Status::Unknown) == Status::Met,
        Status::NotMet.disj(Status::Met) == Status::Met,
        Status::NotMet.disj(Status::NotMet) == Status::NotMet,
        Status::NotMet.disj(Status::Unknown) == Status::Unknown,
        Status::Unknown.disj(Status::Met) == Status::Met,
        Status::Unknown.disj(Status::NotMet) == Status::Unknown,
        Status::Unknown.disj(Status::Unknown) == Status::Unknown,
{
}

/// `a & b` and `b & a` agree, and so do `a | b` and `b | a`.
pub proof fn lemma_commutative(a: Status, b: Status)
    ensures
        a.conj(b) == b.conj(a),
        a.disj(b) == b.disj(a),
{
}

/// Grouping does not matter: `(a & b) & c == a & (b & c)`, and likewise
/// for `|`.
pub proof fn lemma_associative(a: Status, b: Status, c: Status)
    ensures
        a.conj(b).conj(c) == a.conj(b.conj(c)),
        a.disj(b).disj(c) == a.disj(b.disj(c)),
{
}

/// `Met` is neutral for `&` and `NotMet` is neutral for `|`.
pub proof fn lemma_identity(a: Status)
    ensures
        Status::Met.conj(a) == a,
        a.conj(Status::Met) == a,
        Status::NotMet.disj(a) == a,
        a.disj(Status::NotMet) == a,
{
}

} // verus!
