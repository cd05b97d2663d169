use ruuls::rule::{conjunction, disjunction, quorum, quorum_label};
use ruuls::text::{decimal_text, parse_i32, reads_true, same_text};
use ruuls::{and, boolean, int_equals, int_range, n_of, or, string_equals};
use ruuls::Status::{Met, NotMet, Unknown};
use ruuls::{Constraint, Rule, RuleResult, Status};
use std::collections::BTreeMap;

const ALL: [Status; 3] = [Status::Met, Status::NotMet, Status::Unknown];

fn facts(pairs: &[(&str, &str)]) -> BTreeMap<String, String> {
    let mut map = BTreeMap::new();
    for (k, v) in pairs {
        map.insert(k.to_string(), v.to_string());
    }
    map
}

fn sample() -> BTreeMap<String, String> {
    facts(&[("foo", "1"), ("bar", "bar"), ("baz", "true")])
}

fn same_tree(a: &RuleResult, b: &RuleResult) -> bool {
    a.name == b.name
        && a.status == b.status
        && a.children.len() == b.children.len()
        && a.children.iter().zip(b.children.iter()).all(|(x, y)| same_tree(x, y))
}

fn leaf(status: Status) -> RuleResult {
    RuleResult { name: String::from("leaf"), status, children: Vec::new() }
}

fn leaves(statuses: &[Status]) -> Vec<RuleResult> {
    statuses.iter().map(|s| leaf(*s)).collect()
}

#[test]
fn and_truth_table() {
    assert_eq!(Met & Met, Met);
    assert_eq!(Met & NotMet, NotMet);
    assert_eq!(Met & Unknown, Unknown);
    assert_eq!(NotMet & Met, NotMet);
    assert_eq!(NotMet & NotMet, NotMet);
    assert_eq!(NotMet & Unknown, NotMet);
    assert_eq!(Unknown & Met, Unknown);
    assert_eq!(Unknown & NotMet, NotMet);
    assert_eq!(Unknown & Unknown, Unknown);
}

#[test]
fn or_truth_table() {
    assert_eq!(Met | Met, Met);
    assert_eq!(Met | NotMet, Met);
    assert_eq!(Met | Unknown, Met);
    assert_eq!(NotMet | Met, Met);
    assert_eq!(NotMet | NotMet, NotMet);
    assert_eq!(NotMet | Unknown, Unknown);
    assert_eq!(Unknown | Met, Met);
    assert_eq!(Unknown | NotMet, Unknown);
    assert_eq!(Unknown | Unknown, Unknown);
}

#[test]
fn connectives_commute() {
    for a in ALL {
        for b in ALL {
            assert_eq!(a & b, b & a);
            assert_eq!(a | b, b | a);
        }
    }
}

#[test]
fn connectives_associate() {
    for a in ALL {
        for b in ALL {
            for c in ALL {
                assert_eq!((a & b) & c, a & (b & c));
                assert_eq!((a | b) | c, a | (b | c));
            }
        }
    }
}

#[test]
fn connectives_have_identities() {
    for a in ALL {
        assert_eq!(Status::Met & a, a);
        assert_eq!(a & Status::Met, a);
        assert_eq!(Status::NotMet | a, a);
        assert_eq!(a | Status::NotMet, a);
    }
}

#[test]
fn leaf_is_unknown_iff_field_is_absent() {
    let map = sample();
    let absent = vec![
        string_equals("s", "quux", "bar"),
        int_equals("i", "quux", 1),
        int_range("r", "quux", 0, 5),
        boolean("b", "quux", true),
        boolean("b", "quux", false),
    ];
    for rule in absent {
        assert_eq!(rule.check(&map).status, Status::Unknown);
    }
    let present = vec![
        string_equals("s", "bar", "bar"),
        string_equals("s", "bar", "other"),
        int_equals("i", "foo", 1),
        int_equals("i", "bar", 1),
        int_range("r", "foo", 0, 5),
        int_range("r", "bar", 0, 5),
        boolean("b", "baz", true),
        boolean("b", "bar", true),
    ];
    for rule in present {
        assert_ne!(rule.check(&map).status, Status::Unknown);
    }
}

#[test]
fn leaf_reports_its_description_and_no_children() {
    let map = sample();
    let res = string_equals("bar = 'bar'", "bar", "bar").check(&map);
    assert_eq!(res.name, "bar = 'bar'");
    assert_eq!(res.status, Status::Met);
    assert!(res.children.is_empty());
}

#[test]
fn string_equality_is_exact() {
    let c = Constraint::StringEquals(String::from("John Doe"));
    assert_eq!(c.check("John Doe"), Status::Met);
    assert_eq!(c.check("john doe"), Status::NotMet);
    assert_eq!(c.check("John Doe "), Status::NotMet);
    assert_eq!(c.check(""), Status::NotMet);
    assert_eq!(Constraint::StringEquals(String::new()).check(""), Status::Met);
}

#[test]
fn integers_are_read_in_base_ten() {
    assert_eq!(Constraint::IntEquals(5).check("5"), Status::Met);
    assert_eq!(Constraint::IntEquals(5).check("+5"), Status::Met);
    assert_eq!(Constraint::IntEquals(5).check("005"), Status::Met);
    assert_eq!(Constraint::IntEquals(-5).check("-5"), Status::Met);
    assert_eq!(Constraint::IntEquals(0).check("-0"), Status::Met);
    assert_eq!(Constraint::IntEquals(5).check("6"), Status::NotMet);
    assert_eq!(Constraint::IntEquals(5).check("-5"), Status::NotMet);
    assert_eq!(Constraint::IntEquals(i32::MAX).check("2147483647"), Status::Met);
    assert_eq!(Constraint::IntEquals(i32::MIN).check("-2147483648"), Status::Met);
    assert_eq!(Constraint::IntEquals(1234567).check("1234567"), Status::Met);
    assert_eq!(Constraint::IntEquals(1).check("00000000000000000001"), Status::Met);
}

#[test]
fn non_numeric_values_fail_integer_constraints() {
    let values = [
        "", "+", "-", "abc", "1.5", " 1", "1 ", "1_000", "0x10", "--1", "+-1", "1-", "१",
        "2147483648", "-2147483649", "99999999999999999999", "true", "5a",
    ];
    for v in values {
        assert_eq!(Constraint::IntEquals(1).check(v), Status::NotMet);
        assert_eq!(Constraint::IntEquals(0).check(v), Status::NotMet);
        assert_eq!(Constraint::IntRange(i32::MIN, i32::MAX).check(v), Status::NotMet);
    }
}

#[test]
fn range_includes_both_bounds() {
    let c = Constraint::IntRange(5, 10);
    assert_eq!(c.check("4"), Status::NotMet);
    assert_eq!(c.check("5"), Status::Met);
    assert_eq!(c.check("7"), Status::Met);
    assert_eq!(c.check("10"), Status::Met);
    assert_eq!(c.check("11"), Status::NotMet);
    assert_eq!(Constraint::IntRange(-3, -1).check("-2"), Status::Met);
    assert_eq!(Constraint::IntRange(3, 1).check("2"), Status::NotMet);
}

#[test]
fn only_the_word_true_reads_as_true() {
    for v in ["true", "TRUE", "True", "tRuE", "truE"] {
        assert!(reads_true(v));
        assert_eq!(Constraint::Boolean(true).check(v), Status::Met);
        assert_eq!(Constraint::Boolean(false).check(v), Status::NotMet);
    }
    for v in ["false", "1", "", "yes", "garbage", "true ", " true", "truee", "tru", "t", "ｔｒｕｅ", "trué"] {
        assert!(!reads_true(v));
        assert_eq!(Constraint::Boolean(true).check(v), Status::NotMet);
        assert_eq!(Constraint::Boolean(false).check(v), Status::Met);
    }
}

#[test]
fn checking_twice_gives_the_same_tree() {
    let map = sample();
    let tree = and(vec![
        int_equals("foo = 1", "foo", 1),
        or(vec![string_equals("bar = 'baz'", "bar", "baz"), boolean("quux", "quux", true)]),
        n_of(1, vec![int_range("r", "foo", 0, 0), boolean("baz", "baz", true)]),
    ]);
    let first = tree.check(&map);
    let second = tree.check(&map);
    assert!(same_tree(&first, &second));
}

#[test]
fn john_doe_scenario() {
    let tree = and(vec![
        string_equals("Name is John Doe", "name", "John Doe"),
        or(vec![
            int_equals("Favorite number is 5", "fav_number", 5),
            int_range("Thinking of a number between 5 and 10", "thinking_of", 5, 10),
        ]),
    ]);
    let map = facts(&[("name", "John Doe"), ("fav_number", "5")]);
    let res = tree.check(&map);
    assert_eq!(res.name, "And");
    assert_eq!(res.status, Status::Met);
    assert_eq!(res.children.len(), 2);
    assert_eq!(res.children[0].name, "Name is John Doe");
    assert_eq!(res.children[0].status, Status::Met);
    assert!(res.children[0].children.is_empty());
    let right = &res.children[1];
    assert_eq!(right.name, "Or");
    assert_eq!(right.status, Status::Met);
    assert_eq!(right.children.len(), 2);
    assert_eq!(right.children[0].name, "Favorite number is 5");
    assert_eq!(right.children[0].status, Status::Met);
    assert_eq!(right.children[1].name, "Thinking of a number between 5 and 10");
    assert_eq!(right.children[1].status, Status::Unknown);
}

#[test]
fn every_child_is_reported_in_order() {
    let map = sample();
    let tree = or(vec![
        int_equals("first", "foo", 1),
        int_equals("second", "foo", 2),
        int_equals("third", "quux", 3),
    ]);
    let res = tree.check(&map);
    assert_eq!(res.status, Status::Met);
    let names: Vec<&str> = res.children.iter().map(|c| c.name.as_str()).collect();
    assert_eq!(names, vec!["first", "second", "third"]);
    let statuses: Vec<Status> = res.children.iter().map(|c| c.status).collect();
    assert_eq!(statuses, vec![Status::Met, Status::NotMet, Status::Unknown]);
}

#[test]
fn empty_combinators() {
    let map = sample();
    let res = and(vec![]).check(&map);
    assert_eq!(res.status, Status::Met);
    assert_eq!(res.name, "And");
    assert!(res.children.is_empty());
    let res = or(vec![]).check(&map);
    assert_eq!(res.status, Status::NotMet);
    assert_eq!(res.name, "Or");
    assert!(res.children.is_empty());
}

#[test]
fn quorum_edge_cases() {
    let map = sample();
    assert_eq!(n_of(0, vec![]).check(&map).status, Status::Met);
    assert_eq!(n_of(1, vec![]).check(&map).status, Status::NotMet);
    let zero = n_of(0, vec![int_equals("foo = 2", "foo", 2), int_equals("q", "quux", 2)]);
    assert_eq!(zero.check(&map).status, Status::Met);
    let too_many = n_of(3, vec![int_equals("foo = 1", "foo", 1), int_equals("q", "quux", 2)]);
    assert_eq!(too_many.check(&map).status, Status::NotMet);
    let huge = n_of(usize::MAX, vec![int_equals("foo = 1", "foo", 1)]);
    assert_eq!(huge.check(&map).status, Status::NotMet);
}

#[test]
fn quorum_counts_met_and_failed() {
    let map = sample();
    let met = n_of(2, vec![
        int_equals("foo = 1", "foo", 1),
        string_equals("bar = 'bar'", "bar", "bar"),
        boolean("baz is false", "baz", false),
    ]);
    let res = met.check(&map);
    assert_eq!(res.status, Status::Met);
    assert_eq!(res.children[2].status, Status::NotMet);
    let failed = n_of(2, vec![
        int_equals("quux = 2", "quux", 2),
        string_equals("bar = 'baz'", "bar", "baz"),
        boolean("baz is false", "baz", false),
    ]);
    assert_eq!(failed.check(&map).status, Status::NotMet);
    // One failure out of three leaves two that may still be met.
    let open = n_of(2, vec![
        int_equals("quux = 2", "quux", 2),
        string_equals("fizz", "fizz", "baz"),
        boolean("baz is false", "baz", false),
    ]);
    assert_eq!(open.check(&map).status, Status::Unknown);
    // Two failures out of four do not rule out a quorum of two.
    let four = n_of(2, vec![
        int_equals("foo = 2", "foo", 2),
        string_equals("bar = 'baz'", "bar", "baz"),
        int_equals("quux = 2", "quux", 2),
        int_equals("fizz = 2", "fizz", 2),
    ]);
    assert_eq!(four.check(&map).status, Status::Unknown);
}

#[test]
fn quorum_label_names_the_threshold() {
    let map = sample();
    assert_eq!(n_of(0, vec![]).check(&map).name, "At least 0 of");
    assert_eq!(n_of(2, vec![]).check(&map).name, "At least 2 of");
    assert_eq!(n_of(10, vec![]).check(&map).name, "At least 10 of");
    assert_eq!(n_of(1205, vec![]).check(&map).name, "At least 1205 of");
}

#[test]
fn folds_over_results() {
    assert_eq!(conjunction(&leaves(&[])), Met);
    assert_eq!(conjunction(&leaves(&[Met, Met])), Met);
    assert_eq!(conjunction(&leaves(&[Met, Unknown, Met])), Unknown);
    assert_eq!(conjunction(&leaves(&[Unknown, NotMet, Met])), NotMet);
    assert_eq!(disjunction(&leaves(&[])), NotMet);
    assert_eq!(disjunction(&leaves(&[NotMet, NotMet])), NotMet);
    assert_eq!(disjunction(&leaves(&[NotMet, Unknown])), Unknown);
    assert_eq!(disjunction(&leaves(&[Unknown, NotMet, Met])), Met);
    assert_eq!(quorum(2, &leaves(&[Met, NotMet, Met])), Met);
    assert_eq!(quorum(2, &leaves(&[Met, NotMet, Unknown])), Unknown);
    assert_eq!(quorum(2, &leaves(&[Met, NotMet, NotMet])), NotMet);
    assert_eq!(quorum(3, &leaves(&[Met, NotMet, Met])), NotMet);
    assert_eq!(quorum(0, &leaves(&[NotMet])), Met);
    assert_eq!(quorum(4, &leaves(&[Met, Met, Met])), NotMet);
}

#[test]
fn builders_make_the_matching_nodes() {
    assert!(matches!(and(vec![]), Rule::And(ref v) if v.is_empty()));
    assert!(matches!(or(vec![]), Rule::Or(ref v) if v.is_empty()));
    assert!(matches!(n_of(3, vec![]), Rule::NumberOf(3, ref v) if v.is_empty()));
    assert!(matches!(
        string_equals("d", "f", "v"),
        Rule::Rule(ref d, ref f, Constraint::StringEquals(ref v)) if d == "d" && f == "f" && v == "v"
    ));
    assert!(matches!(
        int_equals("d", "f", 7),
        Rule::Rule(ref d, ref f, Constraint::IntEquals(7)) if d == "d" && f == "f"
    ));
    assert!(matches!(
        int_range("d", "f", 1, 3),
        Rule::Rule(ref d, ref f, Constraint::IntRange(1, 3)) if d == "d" && f == "f"
    ));
    assert!(matches!(
        boolean("d", "f", true),
        Rule::Rule(ref d, ref f, Constraint::Boolean(true)) if d == "d" && f == "f"
    ));
}

#[test]
fn parse_reads_signed_decimals() {
    assert_eq!(parse_i32("0"), Some(0));
    assert_eq!(parse_i32("42"), Some(42));
    assert_eq!(parse_i32("+42"), Some(42));
    assert_eq!(parse_i32("-42"), Some(-42));
    assert_eq!(parse_i32("-0"), Some(0));
    assert_eq!(parse_i32("0042"), Some(42));
    assert_eq!(parse_i32("2147483647"), Some(i32::MAX));
    assert_eq!(parse_i32("-2147483648"), Some(i32::MIN));
    assert_eq!(parse_i32("000000000002147483647"), Some(i32::MAX));
    assert_eq!(parse_i32("2147483648"), None);
    assert_eq!(parse_i32("+2147483648"), None);
    assert_eq!(parse_i32("-2147483649"), None);
    assert_eq!(parse_i32("21474836470"), None);
    assert_eq!(parse_i32("123456789012345678901234567890"), None);
    assert_eq!(parse_i32(""), None);
    assert_eq!(parse_i32("+"), None);
    assert_eq!(parse_i32("-"), None);
    assert_eq!(parse_i32("++1"), None);
    assert_eq!(parse_i32("1+"), None);
    assert_eq!(parse_i32("12a"), None);
    assert_eq!(parse_i32("a12"), None);
    assert_eq!(parse_i32(" 12"), None);
    assert_eq!(parse_i32("12 "), None);
    assert_eq!(parse_i32("1\u{0661}"), None);
    assert_eq!(parse_i32("\u{e9}"), None);
}

#[test]
fn parse_agrees_with_the_standard_parser() {
    let samples = [
        "0", "7", "-7", "+7", "10", "-10", "99", "100", "2147483647", "2147483648",
        "-2147483648", "-2147483649", "", "-", "+", "0x1", "1e3", "\u{0661}", "00", "-00",
        "+-1", "4294967296", "9223372036854775808", " 1", "1\n",
    ];
    for s in samples {
        assert_eq!(parse_i32(s), s.parse::<i32>().ok(), "on {:?}", s);
    }
    for n in [-1000, -1, 0, 1, 9, 10, 11, 12345, i32::MAX, i32::MIN, i32::MAX - 1, i32::MIN + 1] {
        assert_eq!(parse_i32(&n.to_string()), Some(n));
    }
}

#[test]
fn same_text_compares_characters() {
    assert!(same_text("", ""));
    assert!(same_text("bar", "bar"));
    assert!(same_text("h\u{e9}llo w\u{f6}rld", "h\u{e9}llo w\u{f6}rld"));
    assert!(!same_text("bar", "baz"));
    assert!(!same_text("bar", "ba"));
    assert!(!same_text("bar", "barr"));
    assert!(!same_text("", "x"));
    assert!(!same_text("Bar", "bar"));
}

#[test]
fn decimal_text_writes_base_ten() {
    assert_eq!(decimal_text(0), "0");
    assert_eq!(decimal_text(7), "7");
    assert_eq!(decimal_text(10), "10");
    assert_eq!(decimal_text(109), "109");
    assert_eq!(decimal_text(1234567890), "1234567890");
    assert_eq!(decimal_text(usize::MAX), usize::MAX.to_string());
}

#[test]
fn quorum_label_is_built_from_the_threshold() {
    assert_eq!(quorum_label(0), "At least 0 of");
    assert_eq!(quorum_label(3), "At least 3 of");
    assert_eq!(quorum_label(42), "At least 42 of");
    assert_eq!(quorum_label(usize::MAX), format!("At least {} of", usize::MAX));
}

#[test]
fn boolean_agrees_with_lowercasing() {
    let samples = [
        "true", "TRUE", "TrUe", "false", "", "truth", "tru\u{0415}", "\u{0422}RUE", "yes", "1",
        "\u{ff54}\u{ff52}\u{ff55}\u{ff45}", "\u{ff34}RUE",
    ];
    for s in samples {
        assert_eq!(reads_true(s), s.to_lowercase() == "true", "on {:?}", s);
    }
}
