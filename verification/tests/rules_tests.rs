//! Tests for the import rule table.

use silverfox::rules::Rules;
use silverfox::rules::Subrules;

const RULES_STR: &str = "fields date, description, amount, currency, native_price, other

amount %amount% %currency% @ %native_price%
account assets:test

decimal_symbol .

date_format %Y.%m.%d

comment test comment

skip 1

if test0
    comment single condition test

if test1
test2
test3
    comment multiple condition test
    payee Ferris the Crab

if bad decimal
test4
test5
    comment comma decimal_symbol test
    decimal_symbol ,";

fn rules_eq(a: &Rules, b: &Rules) -> bool {
    a.accounts == b.accounts && a.amount_strs == b.amount_strs && a.comment == b.comment
        && a.description == b.description && a.date_format == b.date_format
        && a.date_str == b.date_str && a.decimal_symbol == b.decimal_symbol
        && a.fields == b.fields && a.payee == b.payee && a.skip == b.skip
        && a.status == b.status && a.includes == b.includes
        && a.subrules.len() == b.subrules.len()
        && a.subrules.iter().zip(b.subrules.iter()).all(|(x, y)| subrules_eq(x, y))
}

fn subrules_eq(a: &Subrules, b: &Subrules) -> bool {
    a.patterns == b.patterns && rules_eq(&a.rules, &b.rules)
}

fn parse_rules_test_struct() -> Rules {
    let mut rules: Rules = Default::default();

    rules.fields.push(String::from("date"));
    rules.fields.push(String::from("description"));
    rules.fields.push(String::from("amount"));
    rules.fields.push(String::from("currency"));
    rules.fields.push(String::from("native_price"));
    rules.fields.push(String::from("other"));
    rules.amount_strs.push((
        String::from(""),
        String::from("%amount% %currency% @ %native_price%"),
    ));
    rules.accounts.push((String::from(""), String::from("assets:test")));
    rules.comment = String::from("test comment");
    rules.date_format = String::from("%Y.%m.%d");
    rules.decimal_symbol = '.';
    rules.skip = 1;

    let mut subrules_0 = Subrules { patterns: Vec::new(), rules: rules.duplicate() };
    subrules_0.patterns.push(String::from("test0"));
    subrules_0.rules.comment = String::from("single condition test");
    rules.subrules.push(subrules_0);

    let mut subrules_1 = Subrules { patterns: Vec::new(), rules: rules.duplicate() };
    subrules_1.patterns.push(String::from("test1"));
    subrules_1.patterns.push(String::from("test2"));
    subrules_1.patterns.push(String::from("test3"));
    subrules_1.rules.comment = String::from("multiple condition test");
    subrules_1.rules.payee = String::from("Ferris the Crab");
    rules.subrules.push(subrules_1);

    let mut bad_decimal_subrules = Subrules { patterns: Vec::new(), rules: rules.duplicate() };
    bad_decimal_subrules.rules.decimal_symbol = ',';
    bad_decimal_subrules.patterns.push(String::from("bad decimal"));
    bad_decimal_subrules.patterns.push(String::from("test4"));
    bad_decimal_subrules.patterns.push(String::from("test5"));
    bad_decimal_subrules.rules.comment = String::from("comma decimal_symbol test");
    rules.subrules.push(bad_decimal_subrules);

    rules
}

#[test]
fn parse_rules_test() {
    let mut rules = Rules::default();
    let other = parse_rules_test_struct();
    if let Err(e) = rules.add_from_str(RULES_STR) {
        panic!("{:?}", e);
    } else {
        assert!(rules_eq(&rules, &other));
    }
}

#[test]
fn rules_reset_and_skip() {
    let mut rules = Rules::default();
    rules.add_from_str("skip 3\ncomment hello\n").unwrap();
    assert_eq!(rules.skip, 3);
    assert_eq!(rules.comment, "hello");
    rules.add_from_str("skip -\ncomment -\n").unwrap();
    assert_eq!(rules.skip, 1);
    assert_eq!(rules.comment, "");
}

#[test]
fn rules_unknown_rule_is_an_error() {
    let mut rules = Rules::default();
    assert!(rules.add_from_str("banana split\n").is_err());
    assert!(rules.add_from_str("skip here\n").is_err());
    assert!(rules.add_from_str("decimal_symbol ,,\n").is_err());
    // `fields` has no blank state to reset to.
    assert!(rules.add_from_str("fields -\n").is_err());
}

#[test]
fn rules_include_is_recorded() {
    let mut rules = Rules::default();
    rules.add_from_str("include extra.rules\n").unwrap();
    assert_eq!(rules.includes, vec![String::from("extra.rules")]);
}

#[test]
fn inject_variables_replaces_in_order() {
    let vars = vec![
        (String::from("amount"), String::from("1.2")),
        (String::from("currency"), String::from("BTC")),
    ];
    let out = Rules::inject_variables("%amount% %currency% @ %native_price%", &vars);
    assert_eq!(out, "1.2 BTC @ %native_price%");
    let out2 = Rules::inject_variables("100%%", &vars);
    assert_eq!(out2, "100%");
}
