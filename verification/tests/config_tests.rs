use cleaniit::config::{
    parse_count, resolve, Cap, InvalidArgument, Options, Policy, Problem, Setting,
    DEFAULT_MINIMUM_AGE_MINUTES, LARGEST_COUNT,
};

fn bare() -> Options {
    Options {
        debug: false,
        kill: false,
        min_age: None,
        max_killed: None,
        max_cnt: None,
        dry_run: false,
    }
}

fn text(s: &str) -> Option<String> {
    Some(String::from(s))
}

#[test]
fn counts_are_read_in_decimal() {
    assert_eq!(parse_count("0"), Ok(0));
    assert_eq!(parse_count("7"), Ok(7));
    assert_eq!(parse_count("120"), Ok(120));
    assert_eq!(parse_count("10000000000"), Ok(10_000_000_000));
    assert_eq!(parse_count("007"), Ok(7));
}

#[test]
fn a_plus_sign_is_accepted() {
    assert_eq!(parse_count("+5"), Ok(5));
    assert_eq!(parse_count("+0"), Ok(0));
}

#[test]
fn minus_zero_is_zero() {
    assert_eq!(parse_count("-0"), Ok(0));
    assert_eq!(parse_count("-000"), Ok(0));
}

#[test]
fn negative_counts_are_refused() {
    assert_eq!(parse_count("-1"), Err(Problem::Negative));
    assert_eq!(parse_count("-120"), Err(Problem::Negative));
    assert_eq!(parse_count("-99999999999999999999999999"), Err(Problem::Negative));
}

#[test]
fn the_largest_count_is_the_limit() {
    assert_eq!(LARGEST_COUNT, i64::MAX as u64);
    assert_eq!(parse_count("9223372036854775807"), Ok(9_223_372_036_854_775_807));
    assert_eq!(parse_count("9223372036854775808"), Err(Problem::TooLarge));
    assert_eq!(parse_count("18446744073709551616"), Err(Problem::TooLarge));
    assert_eq!(parse_count("99999999999999999999999999"), Err(Problem::TooLarge));
    assert_eq!(parse_count("+9223372036854775808"), Err(Problem::TooLarge));
}

#[test]
fn what_is_no_number_is_refused() {
    assert_eq!(parse_count(""), Err(Problem::NotNumeric));
    assert_eq!(parse_count("+"), Err(Problem::NotNumeric));
    assert_eq!(parse_count("-"), Err(Problem::NotNumeric));
    assert_eq!(parse_count("abc"), Err(Problem::NotNumeric));
    assert_eq!(parse_count("12a"), Err(Problem::NotNumeric));
    assert_eq!(parse_count("a12"), Err(Problem::NotNumeric));
    assert_eq!(parse_count(" 12"), Err(Problem::NotNumeric));
    assert_eq!(parse_count("12 "), Err(Problem::NotNumeric));
    assert_eq!(parse_count("1.5"), Err(Problem::NotNumeric));
    assert_eq!(parse_count("--1"), Err(Problem::NotNumeric));
    assert_eq!(parse_count("+-1"), Err(Problem::NotNumeric));
    assert_eq!(parse_count("1_000"), Err(Problem::NotNumeric));
    assert_eq!(parse_count("\u{0663}"), Err(Problem::NotNumeric));
    assert_eq!(parse_count("99999999999999999999999999x"), Err(Problem::NotNumeric));
    assert_eq!(parse_count("-5x"), Err(Problem::NotNumeric));
}

#[test]
fn defaults_fill_a_bare_invocation() {
    assert_eq!(DEFAULT_MINIMUM_AGE_MINUTES, 120);
    assert_eq!(
        resolve(&bare()),
        Ok(Policy {
            minimum_age_minutes: 120,
            display_cap: Cap::Unbounded,
            kill_cap: Cap::Unbounded,
            kill_enabled: false,
            dry_run: false,
            verbose: false,
        })
    );
}

#[test]
fn every_option_reaches_the_policy() {
    let options = Options {
        debug: true,
        kill: true,
        min_age: text("30"),
        max_killed: text("3"),
        max_cnt: text("10"),
        dry_run: true,
    };
    assert_eq!(
        resolve(&options),
        Ok(Policy {
            minimum_age_minutes: 30,
            display_cap: Cap::AtMost(10),
            kill_cap: Cap::AtMost(3),
            kill_enabled: true,
            dry_run: true,
            verbose: true,
        })
    );
}

#[test]
fn flags_are_independent() {
    let kill_only = resolve(&Options { kill: true, ..bare() }).unwrap();
    assert!(kill_only.kill_enabled);
    assert!(!kill_only.dry_run);
    assert!(!kill_only.verbose);
    let dry_only = resolve(&Options { dry_run: true, ..bare() }).unwrap();
    assert!(!dry_only.kill_enabled);
    assert!(dry_only.dry_run);
    let debug_only = resolve(&Options { debug: true, ..bare() }).unwrap();
    assert!(debug_only.verbose);
    assert!(!debug_only.kill_enabled);
}

#[test]
fn zero_is_a_valid_age_and_cap() {
    let options = Options { min_age: text("0"), max_killed: text("0"), max_cnt: text("0"), ..bare() };
    let policy = resolve(&options).unwrap();
    assert_eq!(policy.minimum_age_minutes, 0);
    assert_eq!(policy.kill_cap, Cap::AtMost(0));
    assert_eq!(policy.display_cap, Cap::AtMost(0));
}

#[test]
fn a_bad_minimum_age_is_an_invalid_argument() {
    assert_eq!(
        resolve(&Options { min_age: text("two hours"), ..bare() }),
        Err(InvalidArgument { setting: Setting::MinAge, problem: Problem::NotNumeric })
    );
    assert_eq!(
        resolve(&Options { min_age: text("-120"), ..bare() }),
        Err(InvalidArgument { setting: Setting::MinAge, problem: Problem::Negative })
    );
    assert_eq!(
        resolve(&Options { min_age: text("9223372036854775808"), ..bare() }),
        Err(InvalidArgument { setting: Setting::MinAge, problem: Problem::TooLarge })
    );
}

#[test]
fn a_bad_kill_cap_is_an_invalid_argument() {
    assert_eq!(
        resolve(&Options { max_killed: text(""), ..bare() }),
        Err(InvalidArgument { setting: Setting::Max, problem: Problem::NotNumeric })
    );
    assert_eq!(
        resolve(&Options { max_killed: text("-1"), ..bare() }),
        Err(InvalidArgument { setting: Setting::Max, problem: Problem::Negative })
    );
}

#[test]
fn a_bad_display_cap_is_an_invalid_argument() {
    assert_eq!(
        resolve(&Options { max_cnt: text("ten"), ..bare() }),
        Err(InvalidArgument { setting: Setting::MaxCnt, problem: Problem::NotNumeric })
    );
    assert_eq!(
        resolve(&Options { max_cnt: text("-10"), ..bare() }),
        Err(InvalidArgument { setting: Setting::MaxCnt, problem: Problem::Negative })
    );
}

#[test]
fn the_first_bad_option_is_reported() {
    let all_bad = Options {
        min_age: text("x"),
        max_killed: text("-1"),
        max_cnt: text("y"),
        ..bare()
    };
    assert_eq!(
        resolve(&all_bad),
        Err(InvalidArgument { setting: Setting::MinAge, problem: Problem::NotNumeric })
    );
    let caps_bad = Options { min_age: text("5"), max_killed: text("-1"), max_cnt: text("y"), ..bare() };
    assert_eq!(
        resolve(&caps_bad),
        Err(InvalidArgument { setting: Setting::Max, problem: Problem::Negative })
    );
    let last_bad = Options { min_age: text("5"), max_killed: text("1"), max_cnt: text("y"), ..bare() };
    assert_eq!(
        resolve(&last_bad),
        Err(InvalidArgument { setting: Setting::MaxCnt, problem: Problem::NotNumeric })
    );
}

#[test]
fn caps_let_through_what_is_below_them() {
    assert!(Cap::Unbounded.allows(0));
    assert!(Cap::Unbounded.allows(u64::MAX));
    assert!(Cap::AtMost(3).allows(0));
    assert!(Cap::AtMost(3).allows(2));
    assert!(!Cap::AtMost(3).allows(3));
    assert!(!Cap::AtMost(3).allows(4));
    assert!(!Cap::AtMost(0).allows(0));
}
