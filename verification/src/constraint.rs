//! Leaf predicates over a single fact value.
use vstd::prelude::*;
use crate::status::Status;
use crate::text::{
    ascii_lowered, decimal_i32, is_true_token, lemma_true_token_ignores_case, parse_i32, reads_true,
    same_text,
};

verus! {

/// A predicate that a leaf of the tree applies to the value of its field.
#[derive(Debug)]
pub enum Constraint {
    /// The value is exactly this text.
    StringEquals(String),
    /// The value is a decimal integer equal to this one.
    IntEquals(i32),
    /// The value is a decimal integer within the two bounds, both included.
    IntRange(i32, i32),
    /// The value, read as a boolean, equals this one. Only the word `true`,
    /// in any mix of cases, reads as true.
    Boolean(bool),
}

impl Constraint {
    /// Whether the value `val` satisfies this constraint.
    pub open spec fn satisfied_by(self, val: Seq<char>) -> bool {
        match self {
            Constraint::StringEquals(expected) => val == expected@,
            Constraint::IntEquals(expected) => decimal_i32(val) == Some(expected),
            Constraint::IntRange(low, high) => match decimal_i32(val) {
                Some(n) => low <= n && n <= high,
                None => false,
            },
            Constraint::Boolean(expected) => is_true_token(val) == expected,
        }
    }

    /// The verdict on a value that is present: `Met` or `NotMet`.
    pub open spec fn verdict(self, val: Seq<char>) -> Status {
        if self.satisfied_by(val) {
            Status::Met
        } else {
            Status::NotMet
        }
    }

    /// Checks one value against this constraint.
    pub fn check(&self, val: &str) -> (status: Status)
        ensures
            status == self.verdict(val@),
            status != Status::Unknown,
    {
        let holds = match self {
            Constraint::StringEquals(expected) => same_text(val, expected.as_str()),
            Constraint::IntEquals(expected) => match parse_i32(val) {
                Some(n) => n == *expected,
                None => false,
            },
            Constraint::IntRange(low, high) => match parse_i32(val) {
                Some(n) => *low <= n && n <= *high,
                None => false,
            },
            Constraint::Boolean(expected) => reads_true(val) == *expected,
        };
        if holds {
            Status::Met
        } else {
            Status::NotMet
        }
    }
}

/// A value that is no decimal `i32` fails both integer constraints.
pub proof fn lemma_integer_needs_number(val: Seq<char>, expected: i32, low: i32, high: i32)
    requires
        decimal_i32(val) is None,
    ensures
        Constraint::IntEquals(expected).verdict(val) == Status::NotMet,
        Constraint::IntRange(low, high).verdict(val) == Status::NotMet,
{
}

/// A boolean constraint reads a value as true exactly when the value is
/// `true` up to the case of its ASCII letters; every other value reads as
/// false.
pub proof fn lemma_boolean_reads_true_only(val: Seq<char>, expected: bool)
    ensures
        Constraint::Boolean(expected).satisfied_by(val) <==> expected == (ascii_lowered(val)
            == "true"@),
        Constraint::Boolean(true).verdict(val) == Status::Met <==> ascii_lowered(val) == "true"@,
        Constraint::Boolean(false).verdict(val) == Status::Met <==> ascii_lowered(val) != "true"@,
{
    lemma_true_token_ignores_case(val);
}

/// A constraint never yields `Unknown`.
pub proof fn lemma_verdict_is_known(constraint: Constraint, val: Seq<char>)
    ensures
        constraint.verdict(val) != Status::Unknown,
{
}

} // verus!
