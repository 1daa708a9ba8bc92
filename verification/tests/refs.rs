use lance::error::Error;
use lance::refs::{broken_rule, check_valid_ref, RefRule};

const PREFIX: &str = "Ref is invalid. Ref must confirm to git ref formatting rules";

fn assert_ok(name: &str) {
    assert_eq!(check_valid_ref(name), Ok(()), "{name:?}");
    assert_eq!(broken_rule(name), None, "{name:?}");
}

fn assert_broken(name: &str, rule: RefRule) {
    assert_eq!(broken_rule(name), Some(rule), "{name:?}");
    let err = check_valid_ref(name).err().unwrap();
    assert!(matches!(err, Error::InvalidRef { .. }), "{name:?}");
    assert!(err.to_string().contains(PREFIX), "{name:?}");
    assert!(err.to_string().ends_with(rule.message().as_str()), "{name:?}");
}

#[test]
fn test_ok_ref() {
    for name in [
        "deeply/nested/ref",
        "nested/ref.extension",
        "ref",
        "ref.extension",
        "ref_with_underscores",
    ] {
        check_valid_ref(name).unwrap();
        assert_ok(name);
    }
}

#[test]
fn test_err_ref() {
    for name in [
        "",
        "../ref",
        ".ref",
        "/ref",
        "@",
        "nested//ref",
        "nested\\ref",
        "ref*",
        "ref.lock",
        "ref/",
        "ref?",
        "ref@{ref",
        "ref[",
        "ref^",
        "~/ref",
    ] {
        let text = check_valid_ref(name).err().unwrap().to_string();
        assert!(text.contains(PREFIX), "{name:?}: {text}");
    }
}

#[test]
fn each_rule_is_reported_by_name() {
    assert_broken("", RefRule::NonEmpty);
    assert_broken(".ref", RefRule::Components);
    assert_broken("a/.b", RefRule::Components);
    assert_broken("ref.lock", RefRule::Components);
    assert_broken("a.lock/b", RefRule::Components);
    assert_broken("a..b", RefRule::NoDoubleDot);
    assert_broken("a b", RefRule::NoForbiddenChar);
    assert_broken("a\u{7}b", RefRule::NoForbiddenChar);
    assert_broken("a\u{7f}b", RefRule::NoForbiddenChar);
    assert_broken("~/ref", RefRule::NoForbiddenChar);
    assert_broken("ref^", RefRule::NoForbiddenChar);
    assert_broken("a:b", RefRule::NoForbiddenChar);
    assert_broken("ref?", RefRule::NoWildcard);
    assert_broken("ref*", RefRule::NoWildcard);
    assert_broken("ref[", RefRule::NoWildcard);
    assert_broken("/ref", RefRule::Slashes);
    assert_broken("ref/", RefRule::Slashes);
    assert_broken("nested//ref", RefRule::Slashes);
    assert_broken("ref.", RefRule::NoTrailingDot);
    assert_broken("ref@{ref", RefRule::NoAtBrace);
    assert_broken("@", RefRule::NotLoneAt);
    assert_broken("nested\\ref", RefRule::NoBackslash);
}

#[test]
fn the_first_broken_rule_wins() {
    // `..` alone is a component that starts with a dot
    assert_broken("..", RefRule::Components);
    assert_broken("../ref", RefRule::Components);
    // a space comes before a wildcard, a wildcard before a slash rule
    assert_broken("a *", RefRule::NoForbiddenChar);
    assert_broken("a*//b", RefRule::NoWildcard);
    assert_broken("a//b.", RefRule::Slashes);
    assert_broken("a@{\\.", RefRule::NoTrailingDot);
    assert_broken("a@{\\", RefRule::NoAtBrace);
}

#[test]
fn names_close_to_the_rules_pass() {
    assert_ok("lock");
    assert_ok("ref.locked");
    assert_ok("a.lock.b");
    assert_ok("xlock");
    assert_ok("a.b/c.d");
    assert_ok("@@");
    assert_ok("a@");
    assert_ok("a{@");
    assert_ok("v1.2.3");
    assert_ok("caf\u{e9}");
    assert_ok("a\u{85}b");
}

#[test]
fn invalid_ref_message_is_prefix_and_rule() {
    let err = check_valid_ref("").err().unwrap();
    assert_eq!(
        err,
        Error::InvalidRef {
            message: "Ref cannot be empty".to_string()
        }
    );
    assert_eq!(
        err.to_string(),
        "Ref is invalid. Ref must confirm to git ref formatting rules. Ref cannot be empty"
    );
}
