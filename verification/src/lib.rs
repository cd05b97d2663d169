//! A small rules engine: requirements form a tree, and the tree is checked
//! against a map of facts (`field -> value`).
//!
//! Every node of the tree yields one of three verdicts: `Met`, `NotMet`, or
//! `Unknown` when the facts do not mention the field a leaf looks at. The
//! outcome of a check is a tree of the same shape that carries a label and a
//! verdict for every node.
use vstd::prelude::*;

pub mod constraint;
pub mod rule;
pub mod status;
pub mod text;

pub use constraint::Constraint;
pub use rule::{Rule, RuleResult};
pub use status::Status;

verus! {

/// Creates a rule that holds when all of `rules` are met.
///
/// * If any child is `NotMet`, the result is `NotMet`.
/// * If no child is `NotMet` and some child is `Unknown`, the result is
///   `Unknown`.
/// * The result is `Met` only if all children are `Met`.
pub fn and(rules: Vec<Rule>) -> (rule: Rule)
    ensures
        rule == Rule::And(rules),
{
    Rule::And(rules)
}

/// Creates a rule that holds when any of `rules` is met.
///
/// * If any child is `Met`, the result is `Met`.
/// * If no child is `Met` and some child is `Unknown`, the result is
///   `Unknown`.
/// * The result is `NotMet` only if all children are `NotMet`.
pub fn or(rules: Vec<Rule>) -> (rule: Rule)
    ensures
        rule == Rule::Or(rules),
{
    Rule::Or(rules)
}

/// Creates a rule that holds when at least `n` of `rules` are met.
///
/// * If `n` or more children are `Met`, the result is `Met`.
/// * If `rules.len() - n + 1` or more are `NotMet`, the result is `NotMet`:
///   the children that are left cannot reach `n`.
/// * Otherwise the result is `Unknown`.
pub fn n_of(n: usize, rules: Vec<Rule>) -> (rule: Rule)
    ensures
        rule == Rule::NumberOf(n, rules),
{
    Rule::NumberOf(n, rules)
}

/// Creates a rule that compares the value of `field` with `val` as text.
pub fn string_equals(description: &str, field: &str, val: &str) -> (rule: Rule)
    ensures
        rule matches Rule::Rule(d, f, Constraint::StringEquals(v)) && d@ == description@ && f@
            == field@ && v@ == val@,
{
    Rule::Rule(description.to_owned(), field.to_owned(), Constraint::StringEquals(val.to_owned()))
}

/// Creates a rule that compares the value of `field` with `val` as an
/// integer.
///
/// If the value is not a decimal integer, the result is `NotMet`.
pub fn int_equals(description: &str, field: &str, val: i32) -> (rule: Rule)
    ensures
        rule matches Rule::Rule(d, f, Constraint::IntEquals(v)) && d@ == description@ && f@
            == field@ && v == val,
{
    Rule::Rule(description.to_owned(), field.to_owned(), Constraint::IntEquals(val))
}

/// Creates a rule that places the value of `field` in the interval
/// `[start, end]`.
///
/// If the value is not a decimal integer, the result is `NotMet`.
pub fn int_range(description: &str, field: &str, start: i32, end: i32) -> (rule: Rule)
    ensures
        rule matches Rule::Rule(d, f, Constraint::IntRange(low, high)) && d@ == description@
            && f@ == field@ && low == start && high == end,
{
    Rule::Rule(description.to_owned(), field.to_owned(), Constraint::IntRange(start, end))
}

/// Creates a rule that compares the value of `field` with `val` as a
/// boolean.
///
/// Only a value of `true`, in any mix of cases, reads as true; every other
/// value reads as false.
pub fn boolean(description: &str, field: &str, val: bool) -> (rule: Rule)
    ensures
        rule matches Rule::Rule(d, f, Constraint::Boolean(v)) && d@ == description@ && f@
            == field@ && v == val,
{
    Rule::Rule(description.to_owned(), field.to_owned(), Constraint::Boolean(val))
}

} // verus!
