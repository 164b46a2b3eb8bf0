use statekeeper::parse::{
    approve_action_level, split_whitespace_tokens, valid_codename, valid_passcode, CookieOps,
    OpsParseError, ReadableCallbackQuery,
};
use statekeeper::access::AccessLevel;

#[test]
fn callback_query_splits_on_first_two_spaces() {
    let q = ReadableCallbackQuery::new("user cookie 12345").unwrap();
    assert_eq!(q.head, "user");
    assert_eq!(q.action, "cookie");
    assert_eq!(q.target, "12345");
    let q = ReadableCallbackQuery::new("a b c d").unwrap();
    assert_eq!(q.head, "a");
    assert_eq!(q.action, "b");
    assert_eq!(q.target, "c d");
}

#[test]
fn callback_query_needs_two_spaces() {
    assert!(ReadableCallbackQuery::new("user cookie").is_none());
    assert!(ReadableCallbackQuery::new("usercookie12").is_none());
    assert!(ReadableCallbackQuery::new("").is_none());
}

#[test]
fn target_parses_whole_signed_decimals() {
    let q = ReadableCallbackQuery::new("u a 12345").unwrap();
    assert_eq!(q.target_i64(), Some(12345));
    let q = ReadableCallbackQuery::new("u a -77").unwrap();
    assert_eq!(q.target_i64(), Some(-77));
    let q = ReadableCallbackQuery::new("u a +8").unwrap();
    assert_eq!(q.target_i64(), Some(8));
    let q = ReadableCallbackQuery::new("u a -9223372036854775808").unwrap();
    assert_eq!(q.target_i64(), Some(i64::MIN));
    let q = ReadableCallbackQuery::new("u a 9223372036854775807").unwrap();
    assert_eq!(q.target_i64(), Some(i64::MAX));
}

#[test]
fn target_rejects_partial_or_overflowing_numbers() {
    for target in ["12a", "", "-", "+", "9223372036854775808", "123 ", "0x10"] {
        let data = format!("u a {target}");
        match ReadableCallbackQuery::new(&data) {
            Some(q) => assert_eq!(q.target_i64(), None, "target {:?}", target),
            None => assert!(target.is_empty()),
        }
    }
}

#[test]
fn tokenizer_matches_whitespace_splitting() {
    let toks = split_whitespace_tokens("  one\ttwo  three \n");
    assert_eq!(toks, vec!["one", "two", "three"]);
    let toks = split_whitespace_tokens("");
    assert!(toks.is_empty());
    let toks = split_whitespace_tokens("   ");
    assert!(toks.is_empty());
}

#[test]
fn cookie_ops_toggle_forms() {
    match CookieOps::try_from("enable Agent_12345") {
        Ok(CookieOps::Toggle(id, on)) => {
            assert_eq!(id, "Agent_12345");
            assert!(on);
        },
        other => panic!("unexpected parse {:?}", other),
    }
    match CookieOps::try_from("disable abc") {
        Ok(CookieOps::Toggle(id, on)) => {
            assert_eq!(id, "abc");
            assert!(!on);
        },
        other => panic!("unexpected parse {:?}", other),
    }
    match CookieOps::try_from("enable") {
        Err(OpsParseError::MissingSpace) => {},
        other => panic!("unexpected parse {:?}", other),
    }
    match CookieOps::try_from("enable ") {
        Err(OpsParseError::BadArguments) => {},
        other => panic!("unexpected parse {:?}", other),
    }
}

#[test]
fn cookie_ops_modify_forms() {
    match CookieOps::try_from("add name tokenvalue sessvalue") {
        Ok(CookieOps::Modify(id, csrf, sess)) => {
            assert_eq!(id, "name");
            assert_eq!(csrf, "tokenvalue");
            assert_eq!(sess, "sessvalue");
        },
        other => panic!("unexpected parse {:?}", other),
    }
    match CookieOps::try_from("modify name csrftoken=abc; sessionid=def;") {
        Ok(CookieOps::Modify(id, csrf, sess)) => {
            assert_eq!(id, "name");
            assert_eq!(csrf, "abc");
            assert_eq!(sess, "def");
        },
        other => panic!("unexpected parse {:?}", other),
    }
    match CookieOps::try_from("add name x= z") {
        Err(OpsParseError::UnexpectedEquals) => {},
        other => panic!("unexpected parse {:?}", other),
    }
    match CookieOps::try_from("add name only") {
        Err(OpsParseError::BadArguments) => {},
        other => panic!("unexpected parse {:?}", other),
    }
}

#[test]
fn cookie_ops_query_forms() {
    match CookieOps::try_from("query") {
        Ok(CookieOps::Query(None)) => {},
        other => panic!("unexpected parse {:?}", other),
    }
    match CookieOps::try_from("query all") {
        Ok(CookieOps::Query(Some(arg))) => assert_eq!(arg, "all"),
        other => panic!("unexpected parse {:?}", other),
    }
    match CookieOps::try_from("frobnicate x") {
        Err(OpsParseError::BadArguments) => {},
        other => panic!("unexpected parse {:?}", other),
    }
}

#[test]
fn passcode_and_codename_shapes() {
    assert!(valid_passcode("ABCDE12345"));
    assert!(valid_passcode("a_b_c"));
    assert!(!valid_passcode("abcd"));
    assert!(!valid_passcode("abc de"));
    assert!(!valid_passcode("abc-def"));
    assert!(valid_codename("Agent_12345"));
    assert!(valid_codename("abc"));
    assert!(!valid_codename("ab"));
    assert!(!valid_codename("a b c"));
}

#[test]
fn approval_actions_name_levels() {
    assert_eq!(approve_action_level("all"), AccessLevel::All);
    assert_eq!(approve_action_level("cookie"), AccessLevel::Cookie);
    assert_eq!(approve_action_level("message"), AccessLevel::Send);
    assert_eq!(approve_action_level("reject"), AccessLevel::Cookie);
}
