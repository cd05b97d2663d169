//! The tree of rules, the tree of results, and the walk that turns one into
//! the other.
use std::collections::BTreeMap;
use vstd::prelude::*;
use vstd::string::*;
use crate::constraint::Constraint;
use crate::status::Status;
use crate::text::{decimal_digits, decimal_text};

verus! {

/// What a check reports for one node, as a mathematical value: a label, a
/// verdict, and the reports of the node's children, in their order.
pub struct Report {
    /// The label of the node.
    pub name: Seq<char>,
    /// The verdict of the node.
    pub status: Status,
    /// The reports of the node's children, in the order of the children.
    pub children: Seq<Report>,
}

/// The facts that a tree is checked against: field names and their values,
/// each as a sequence of characters.
pub type Facts = Map<Seq<char>, Seq<char>>;

/// Result of checking a tree of rules.
#[derive(Debug)]
pub struct RuleResult {
    /// Human-friendly description of the rule.
    pub name: String,
    /// Verdict of this node.
    pub status: Status,
    /// Results of the sub-rules, in the order of the rules.
    pub children: Vec<RuleResult>,
}

impl View for RuleResult {
    type V = Report;

    open spec fn view(&self) -> Report
        decreases self,
    {
        Report {
            name: self.name@,
            status: self.status,
            children: views_of(self.children@),
        }
    }
}

/// The reports that a sequence of results stands for, one for one.
pub open spec fn views_of(results: Seq<RuleResult>) -> Seq<Report>
    decreases results,
{
    if results.len() == 0 {
        Seq::empty()
    } else {
        views_of(results.drop_last()).push(results.last()@)
    }
}

/// `views_of` keeps the length and takes the view of each member.
pub proof fn lemma_views_of(results: Seq<RuleResult>)
    ensures
        views_of(results).len() == results.len(),
        forall|i: int| 0 <= i < results.len() ==> (#[trigger] views_of(results)[i]) == results[i]@,
    decreases results.len(),
{
    reveal_with_fuel(views_of, 2);
    if results.len() > 0 {
        lemma_views_of(results.drop_last());
    }
}

/// A node of the tree of rules.
#[derive(Debug)]
pub enum Rule {
    /// Every child must be met.
    And(Vec<Rule>),
    /// Some child must be met.
    Or(Vec<Rule>),
    /// At least the given number of children must be met.
    NumberOf(usize, Vec<Rule>),
    /// A leaf: description, field, and the constraint on the field's value.
    Rule(String, String, Constraint),
}

/// The verdicts of a sequence of reports, in order.
pub open spec fn statuses(reports: Seq<Report>) -> Seq<Status> {
    Seq::new(reports.len(), |i: int| reports[i].status)
}

/// The verdict of a conjunction over `s`: `NotMet` if any member is,
/// else `Unknown` if any member is, else `Met`.
pub open spec fn all_of(s: Seq<Status>) -> Status {
    if s.contains(Status::NotMet) {
        Status::NotMet
    } else if s.contains(Status::Unknown) {
        Status::Unknown
    } else {
        Status::Met
    }
}

/// The verdict of a disjunction over `s`: `Met` if any member is, else
/// `Unknown` if any member is, else `NotMet`.
pub open spec fn any_of(s: Seq<Status>) -> Status {
    if s.contains(Status::Met) {
        Status::Met
    } else if s.contains(Status::Unknown) {
        Status::Unknown
    } else {
        Status::NotMet
    }
}

/// How many members of `s` equal `which`.
pub open spec fn tally(s: Seq<Status>, which: Status) -> nat
    decreases s.len(),
{
    if s.len() == 0 {
        0
    } else {
        tally(s.drop_last(), which) + if s.last() == which {
            1nat
        } else {
            0nat
        }
    }
}

/// The verdict of a quorum over `s`: `Met` once `threshold` members are
/// met; `NotMet` once so many have failed that the rest cannot reach the
/// threshold; `Unknown` otherwise.
pub open spec fn quorum_of(threshold: nat, s: Seq<Status>) -> Status {
    if tally(s, Status::Met) >= threshold {
        Status::Met
    } else if tally(s, Status::NotMet) >= s.len() - threshold + 1 {
        Status::NotMet
    } else {
        Status::Unknown
    }
}

/// The label of a quorum node: `At least N of`, with the threshold in
/// base ten for `N`.
pub open spec fn quorum_name(threshold: nat) -> Seq<char> {
    "At least "@ + decimal_digits(threshold) + " of"@
}

/// What checking each of `rules` against `facts` reports, one for one.
pub open spec fn reports_of(rules: Seq<Rule>, facts: Facts) -> Seq<Report>
    decreases rules,
{
    if rules.len() == 0 {
        Seq::empty()
    } else {
        reports_of(rules.drop_last(), facts).push(rules.last().report(facts))
    }
}

/// `reports_of` keeps the length and reports on each rule in its place.
pub proof fn lemma_reports_of(rules: Seq<Rule>, facts: Facts)
    ensures
        reports_of(rules, facts).len() == rules.len(),
        forall|i: int|
            0 <= i < rules.len() ==> (#[trigger] reports_of(rules, facts)[i]) == rules[i].report(
                facts,
            ),
    decreases rules.len(),
{
    reveal_with_fuel(reports_of, 2);
    if rules.len() > 0 {
        lemma_reports_of(rules.drop_last(), facts);
    }
}

impl Rule {
    /// What checking this tree against `facts` reports.
    pub open spec fn report(self, facts: Facts) -> Report
        decreases self,
    {
        match self {
            Rule::And(rules) => {
                let children = reports_of(rules@, facts);
                Report { name: "And"@, status: all_of(statuses(children)), children }
            },
            Rule::Or(rules) => {
                let children = reports_of(rules@, facts);
                Report { name: "Or"@, status: any_of(statuses(children)), children }
            },
            Rule::NumberOf(threshold, rules) => {
                let children = reports_of(rules@, facts);
                Report {
                    name: quorum_name(threshold as nat),
                    status: quorum_of(threshold as nat, statuses(children)),
                    children,
                }
            },
            Rule::Rule(description, field, constraint) => Report {
                name: description@,
                status: if facts.contains_key(field@) {
                    constraint.verdict(facts[field@])
                } else {
                    Status::Unknown
                },
                children: Seq::empty(),
            },
        }
    }
}

/// Appending a member to a sequence folds it into the verdict with the
/// matching connective: `&` for a conjunction, `|` for a disjunction.
pub proof fn lemma_fold_push(s: Seq<Status>, x: Status)
    ensures
        all_of(s.push(x)) == all_of(s).conj(x),
        any_of(s.push(x)) == any_of(s).disj(x),
{
    let t = s.push(x);
    assert forall|y: Status| t.contains(y) <==> (s.contains(y) || x == y) by {
        if s.contains(y) {
            let i = choose|i: int| 0 <= i < s.len() && s[i] == y;
            assert(t[i] == y);
        }
        if x == y {
            assert(t[s.len() as int] == y);
        }
        if t.contains(y) {
            let i = choose|i: int| 0 <= i < t.len() && t[i] == y;
            if i < s.len() {
                assert(s[i] == y);
            }
        }
    }
}

/// A conjunction is met exactly when every member is, and failed exactly
/// when some member has; a disjunction is met exactly when some member is,
/// and failed exactly when every member has.
pub proof fn lemma_verdicts_by_members(s: Seq<Status>)
    ensures
        all_of(s) == Status::Met <==> forall|i: int| 0 <= i < s.len() ==> s[i] == Status::Met,
        all_of(s) == Status::NotMet <==> exists|i: int| 0 <= i < s.len() && s[i] == Status::NotMet,
        any_of(s) == Status::Met <==> exists|i: int| 0 <= i < s.len() && s[i] == Status::Met,
        any_of(s) == Status::NotMet <==> forall|i: int|
            0 <= i < s.len() ==> s[i] == Status::NotMet,
{
    if all_of(s) != Status::Met {
        let bad = if s.contains(Status::NotMet) {
            Status::NotMet
        } else {
            Status::Unknown
        };
        let i = choose|i: int| 0 <= i < s.len() && s[i] == bad;
        assert(s[i] != Status::Met);
    }
    if any_of(s) != Status::NotMet {
        let bad = if s.contains(Status::Met) {
            Status::Met
        } else {
            Status::Unknown
        };
        let i = choose|i: int| 0 <= i < s.len() && s[i] == bad;
        assert(s[i] != Status::NotMet);
    }
    if forall|i: int| 0 <= i < s.len() ==> s[i] == Status::Met {
        assert(!s.contains(Status::NotMet));
        assert(!s.contains(Status::Unknown));
    }
    if forall|i: int| 0 <= i < s.len() ==> s[i] == Status::NotMet {
        assert(!s.contains(Status::Met));
        assert(!s.contains(Status::Unknown));
    }
}

/// A conjunction is the left fold of `&` from `Met`, and a disjunction the
/// left fold of `|` from `NotMet`.
pub proof fn lemma_verdicts_are_folds(s: Seq<Status>)
    ensures
        all_of(s) == s.fold_left(Status::Met, |acc: Status, x: Status| acc.conj(x)),
        any_of(s) == s.fold_left(Status::NotMet, |acc: Status, x: Status| acc.disj(x)),
    decreases s.len(),
{
    if s.len() > 0 {
        lemma_verdicts_are_folds(s.drop_last());
        lemma_fold_push(s.drop_last(), s.last());
        assert(s.drop_last().push(s.last()) =~= s);
    }
}

/// Looks a field up with `BTreeMap::get`.
///
/// Taken on trust: the lookup finds a value exactly when the map holds the
/// field's name as a key, and the value found is the one stored under it.
#[verifier::external_body]
fn fact<'a>(info: &'a BTreeMap<String, String>, field: &str) -> (found: Option<&'a String>)
    ensures
        found is Some <==> info.deep_view().contains_key(field@),
        found is Some ==> found->0@ == info.deep_view()[field@],
{
    info.get(field)
}

/// The label of a quorum node with the given threshold.
pub fn quorum_label(threshold: usize) -> (label: String)
    ensures
        label@ == quorum_name(threshold as nat),
{
    let mut label = "At least ".to_owned();
    let digits = decimal_text(threshold);
    label.append(digits.as_str());
    label.append(" of");
    label
}

/// Checks each rule in turn; no rule is skipped.
fn check_each(rules: &Vec<Rule>, info: &BTreeMap<String, String>) -> (results: Vec<RuleResult>)
    ensures
        views_of(results@) == reports_of(rules@, info.deep_view()),
    decreases rules,
{
    let mut results: Vec<RuleResult> = Vec::new();
    let mut i: usize = 0;
    while i < rules.len()
        invariant
            i <= rules.len(),
            results@.len() == i,
            forall|j: int| 0 <= j < i ==> (#[trigger] results@[j])@ == rules@[j].report(info.deep_view()),
        decreases rules.len() - i,
    {
        let result = rules[i].check(info);
        results.push(result);
        i += 1;
    }
    proof {
        lemma_views_of(results@);
        lemma_reports_of(rules@, info.deep_view());
        assert(views_of(results@) =~= reports_of(rules@, info.deep_view()));
    }
    results
}

/// The verdict of a conjunction over the given results.
pub fn conjunction(results: &Vec<RuleResult>) -> (status: Status)
    ensures
        status == all_of(statuses(views_of(results@))),
{
    let ghost all = statuses(views_of(results@));
    proof {
        lemma_views_of(results@);
    }
    let mut status = Status::Met;
    let mut i: usize = 0;
    while i < results.len()
        invariant
            i <= results.len(),
            all == statuses(views_of(results@)),
            all.len() == results.len(),
            forall|j: int| 0 <= j < results.len() ==> (#[trigger] all[j]) == results@[j].status,
            status == all_of(all.take(i as int)),
        decreases results.len() - i,
    {
        proof {
            lemma_fold_push(all.take(i as int), all[i as int]);
            assert(all.take(i + 1) =~= all.take(i as int).push(all[i as int]));
        }
        status = status & results[i].status;
        i += 1;
    }
    assert(all.take(i as int) =~= all);
    status
}

/// The verdict of a disjunction over the given results.
pub fn disjunction(results: &Vec<RuleResult>) -> (status: Status)
    ensures
        status == any_of(statuses(views_of(results@))),
{
    let ghost all = statuses(views_of(results@));
    proof {
        lemma_views_of(results@);
    }
    let mut status = Status::NotMet;
    let mut i: usize = 0;
    while i < results.len()
        invariant
            i <= results.len(),
            all == statuses(views_of(results@)),
            all.len() == results.len(),
            forall|j: int| 0 <= j < results.len() ==> (#[trigger] all[j]) == results@[j].status,
            status == any_of(all.take(i as int)),
        decreases results.len() - i,
    {
        proof {
            lemma_fold_push(all.take(i as int), all[i as int]);
            assert(all.take(i + 1) =~= all.take(i as int).push(all[i as int]));
        }
        status = status | results[i].status;
        i += 1;
    }
    assert(all.take(i as int) =~= all);
    status
}

/// The verdict of a quorum of `threshold` over the given results.
pub fn quorum(threshold: usize, results: &Vec<RuleResult>) -> (status: Status)
    ensures
        status == quorum_of(threshold as nat, statuses(views_of(results@))),
{
    let ghost all = statuses(views_of(results@));
    proof {
        lemma_views_of(results@);
    }
    let mut met: usize = 0;
    let mut failed: usize = 0;
    let mut i: usize = 0;
    while i < results.len()
        invariant
            i <= results.len(),
            all == statuses(views_of(results@)),
            all.len() == results.len(),
            forall|j: int| 0 <= j < results.len() ==> (#[trigger] all[j]) == results@[j].status,
            met == tally(all.take(i as int), Status::Met),
            failed == tally(all.take(i as int), Status::NotMet),
            met + failed <= i,
        decreases results.len() - i,
    {
        proof {
            assert(all.take(i + 1).drop_last() =~= all.take(i as int));
        }
        if results[i].status == Status::Met {
            met += 1;
        } else if results[i].status == Status::NotMet {
            failed += 1;
        }
        i += 1;
    }
    assert(all.take(i as int) =~= all);
    if met >= threshold {
        Status::Met
    } else if threshold > results.len() {
        Status::NotMet
    } else if failed >= results.len() - threshold + 1 {
        Status::NotMet
    } else {
        Status::Unknown
    }
}

impl Rule {
    /// Starting at this node, checks every node of the tree, depth first,
    /// and gathers the results into a tree of the same shape.
    pub fn check(&self, info: &BTreeMap<String, String>) -> (result: RuleResult)
        ensures
            result@ == self.report(info.deep_view()),
        decreases self,
    {
        match self {
            Rule::And(rules) => {
                let children = check_each(rules, info);
                let status = conjunction(&children);
                RuleResult { name: "And".to_owned(), status, children }
            },
            Rule::Or(rules) => {
                let children = check_each(rules, info);
                let status = disjunction(&children);
                RuleResult { name: "Or".to_owned(), status, children }
            },
            Rule::NumberOf(threshold, rules) => {
                let children = check_each(rules, info);
                let status = quorum(*threshold, &children);
                RuleResult { name: quorum_label(*threshold), status, children }
            },
            Rule::Rule(description, field, constraint) => {
                let status = match fact(info, field.as_str()) {
                    Some(value) => constraint.check(value.as_str()),
                    None => Status::Unknown,
                };
                RuleResult { name: description.clone(), status, children: Vec::new() }
            },
        }
    }
}

/// A leaf is `Unknown` exactly when the facts lack its field, whatever its
/// constraint; with the field present it is `Met` or `NotMet`.
pub proof fn lemma_leaf_unknown_iff_absent(
    description: String,
    field: String,
    constraint: Constraint,
    facts: Facts,
)
    ensures
        Rule::Rule(description, field, constraint).report(facts).status == Status::Unknown
            <==> !facts.contains_key(field@),
        facts.contains_key(field@) ==> Rule::Rule(description, field, constraint).report(
            facts,
        ).status == constraint.verdict(facts[field@]),
{
}

/// Two checks of one tree against the same facts give results that agree
/// node for node: the same label, the same verdict, and children that agree
/// in number and in turn.
pub proof fn lemma_check_is_deterministic(
    rule: Rule,
    facts: Facts,
    first: RuleResult,
    second: RuleResult,
)
    requires
        first@ == rule.report(facts),
        second@ == rule.report(facts),
    ensures
        first@ == second@,
        first.name@ == second.name@,
        first.status == second.status,
        first.children@.len() == second.children@.len(),
        forall|i: int|
            0 <= i < first.children@.len() ==> (#[trigger] first.children@[i])@
                == second.children@[i]@,
{
    lemma_views_of(first.children@);
    lemma_views_of(second.children@);
    assert forall|i: int| 0 <= i < first.children@.len() implies (#[trigger] first.children@[i])@
        == second.children@[i]@ by {
        assert(views_of(first.children@)[i] == views_of(second.children@)[i]);
    }
}

/// The report of a tree has the tree's shape: one child report for each
/// child rule, in the same order, and none for a leaf.
pub proof fn lemma_report_mirrors_rule(rule: Rule, facts: Facts)
    ensures
        match rule {
            Rule::And(rules) | Rule::Or(rules) | Rule::NumberOf(_, rules) => {
                &&& rule.report(facts).children.len() == rules@.len()
                &&& forall|i: int|
                    0 <= i < rules@.len() ==> (#[trigger] rule.report(facts).children[i])
                        == rules@[i].report(facts)
            },
            Rule::Rule(_, _, _) => rule.report(facts).children.len() == 0,
        },
{
    match rule {
        Rule::And(rules) | Rule::Or(rules) | Rule::NumberOf(_, rules) => {
            lemma_reports_of(rules@, facts);
        },
        Rule::Rule(_, _, _) => {},
    }
}

/// The members that are met and those that have failed are different
/// members: together they are no more than all.
pub proof fn lemma_tally_bound(s: Seq<Status>)
    ensures
        tally(s, Status::Met) + tally(s, Status::NotMet) <= s.len(),
    decreases s.len(),
{
    if s.len() > 0 {
        lemma_tally_bound(s.drop_last());
    }
}

/// A quorum has failed exactly when it is not met and would stay short of
/// the threshold even if every child that has not failed were met.
pub proof fn lemma_quorum_fails_when_out_of_reach(threshold: nat, s: Seq<Status>)
    ensures
        quorum_of(threshold, s) == Status::NotMet <==> tally(s, Status::Met) < threshold && s.len()
            - tally(s, Status::NotMet) < threshold,
        quorum_of(threshold, s) == Status::Met <==> tally(s, Status::Met) >= threshold,
{
}

/// A quorum of zero is met whatever the children say; a quorum of one or
/// more over no children at all is not met; and neither is a quorum of
/// more than there are children.
pub proof fn lemma_quorum_edges(threshold: nat, s: Seq<Status>)
    ensures
        threshold == 0 ==> quorum_of(threshold, s) == Status::Met,
        threshold > 0 && s.len() == 0 ==> quorum_of(threshold, s) == Status::NotMet,
        threshold > s.len() ==> quorum_of(threshold, s) == Status::NotMet,
{
    lemma_tally_bound(s);
}

} // verus!
