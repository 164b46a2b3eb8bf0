use statekeeper::access::{check_admin, AccessLevel};
use statekeeper::config::{Config, Upstream, Web};
use statekeeper::types::{Cookie, HistoryRow, MetaRow, User, VStats};

#[test]
fn access_level_values_are_preserved_bit_for_bit() {
    assert_eq!(AccessLevel::NoAccess.i32(), 0);
    assert_eq!(AccessLevel::Cookie.i32(), 1);
    assert_eq!(AccessLevel::Send.i32(), 2);
    assert_eq!(AccessLevel::All.i32(), 31);
    assert_eq!(AccessLevel::default(), AccessLevel::NoAccess);
}

#[test]
fn access_level_round_trips_and_falls_back() {
    assert_eq!(AccessLevel::f_i32(0), AccessLevel::NoAccess);
    assert_eq!(AccessLevel::f_i32(1), AccessLevel::Cookie);
    assert_eq!(AccessLevel::f_i32(2), AccessLevel::Send);
    assert_eq!(AccessLevel::f_i32(31), AccessLevel::All);
    assert_eq!(AccessLevel::f_i32(7), AccessLevel::NoAccess);
    assert_eq!(AccessLevel::f_i32(-1), AccessLevel::NoAccess);
}

#[test]
fn authorization_test_is_bitwise_or_overlap() {
    // requested | stored > 0: the sentinel overlaps everything, and any
    // positive requested value passes by itself.
    assert!(!AccessLevel::NoAccess.required(0));
    assert!(AccessLevel::NoAccess.required(2));
    assert!(AccessLevel::Cookie.required(0));
    assert!(AccessLevel::All.required(0));
    assert!(AccessLevel::Send.required(1));
    assert!(!AccessLevel::NoAccess.required(-2147483648));
}

#[test]
fn admin_list_membership() {
    let admins: Vec<i64> = vec![10, 20];
    assert!(check_admin(&admins, 10));
    assert!(check_admin(&admins, 20));
    assert!(!check_admin(&admins, 30));
    assert!(!check_admin(&Vec::new(), 10));
}

#[test]
fn history_row_formats_local_calendar_time() {
    assert_eq!(HistoryRow::timestamp_to_string(0), "1970-01-01 08:00:00");
    assert_eq!(HistoryRow::timestamp_to_string(86_400), "1970-01-02 08:00:00");
    let row = HistoryRow::new(0, "s".to_string(), "c".to_string(), None);
    assert_eq!(row.time(), "1970-01-01 08:00:00");
    assert_eq!(row.timestamp(), 0);
    assert_eq!(row.id(), "s");
    assert_eq!(row.code(), "c");
    assert_eq!(row.error(), None);
}

#[test]
fn cookie_getters_and_recency() {
    let c = Cookie::new(
        "id1".to_string(),
        "csrf1".to_string(),
        "sess1".to_string(),
        1000,
        42,
        true,
    );
    assert_eq!(c.id(), "id1");
    assert_eq!(c.csrf_token(), "csrf1");
    assert_eq!(c.session_id(), "sess1");
    assert_eq!(c.belong(), 42);
    assert!(c.enabled());
    assert!(c.login_recently(1000 + Cookie::RECENTLY - 1, Cookie::RECENTLY));
    assert!(!c.login_recently(1000 + Cookie::RECENTLY, Cookie::RECENTLY));
}

#[test]
fn misc_row_getters() {
    let u = User::new(3, 31);
    assert_eq!(u.id(), 3);
    assert_eq!(u.authorized(), 31);
    let m = MetaRow::new("version".to_string(), "2".to_string());
    assert_eq!(m.value(), "2");
    let v = VStats::new("9.9".to_string(), 123);
    assert_eq!(v.v(), "9.9");
    assert_eq!(v.last(), 123);
}

#[test]
fn web_defaults_match_the_documented_values() {
    let w = Web::default();
    assert!(!w.enabled());
    assert_eq!(w.bind(), "0.0.0.0:26511");
    assert!(w.prefix().is_none());
    assert_eq!(w.access_key(), "114514");
}

#[test]
fn config_getters_hand_back_what_went_in() {
    let cfg = Config::new(
        vec![1, 2],
        "SECRETBASE32".to_string(),
        "db.sqlite".to_string(),
        Web::new(true, "127.0.0.1:1".to_string(), Some("/p".to_string()), "k".to_string()),
        Upstream::new("key".to_string(), -100, Some("https://example.invalid".to_string())),
    );
    assert_eq!(cfg.admin(), &vec![1, 2]);
    assert_eq!(cfg.database(), "db.sqlite");
    assert!(cfg.web().enabled());
    assert_eq!(cfg.web().prefix(), Some(&"/p".to_string()));
    assert_eq!(cfg.platform().key(), "key");
    assert_eq!(cfg.platform().target(), -100);
    assert_eq!(
        cfg.platform().server(),
        Some(&"https://example.invalid".to_string())
    );
}
