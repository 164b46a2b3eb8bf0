use statekeeper::access::AccessLevel;
use statekeeper::store::{Store, StoreError};

#[test]
fn duplicate_user_insert_is_refused() {
    let mut s = Store::new();
    assert!(s.insert_user(1, AccessLevel::Cookie).is_ok());
    match s.insert_user(1, AccessLevel::All) {
        Err(StoreError::DuplicateKey) => {},
        other => panic!("unexpected result {:?}", other),
    }
    let u = s.query_user(1).unwrap();
    assert_eq!(u.authorized(), 1);
    assert!(s.query_user(2).is_none());
}

#[test]
fn set_authorized_status_writes_exactly_the_level() {
    let mut s = Store::new();
    s.set_authorized_status(5, AccessLevel::All);
    assert_eq!(s.query_user(5).unwrap().authorized(), 31);
    s.set_authorized_status(5, AccessLevel::Send);
    assert_eq!(s.query_user(5).unwrap().authorized(), 2);
    // Approval overwrites; it does not union with the prior value.
    s.set_authorized_status(5, AccessLevel::Cookie);
    assert_eq!(s.query_user(5).unwrap().authorized(), 1);
    s.set_authorized_status(5, AccessLevel::NoAccess);
    assert_eq!(s.query_user(5).unwrap().authorized(), 0);
}

#[test]
fn legacy_auth_probe() {
    let mut s = Store::new();
    s.set_authorized_status(4, AccessLevel::Cookie);
    s.set_authorized_status(6, AccessLevel::Send);
    assert!(s._check_auth(4));
    assert!(!s._check_auth(6));
    assert!(!s._check_auth(-4));
    assert!(!s._check_auth(99));
}

#[test]
fn marking_an_absent_code_is_a_noop() {
    let mut s = Store::new();
    s.set_code_fr("nothing", true);
    assert!(s.query_code("nothing").is_none());
}

#[test]
fn cookie_upsert_keeps_stamp_owner_and_flag() {
    let mut s = Store::new();
    assert!(s.cookie_set(9, "c1", "s1", "name"));
    s.cookie_usable("name", false);
    s.cookie_update_timestamp("name", 555);
    // The owner rewrites the tokens; stamp, owner and flag survive.
    assert!(s.cookie_set(9, "c2", "s2", "name"));
    let row = s.cookie_query("name").unwrap();
    assert_eq!(row.csrf_token(), "c2");
    assert_eq!(row.session_id(), "s2");
    assert_eq!(row.belong(), 9);
    assert!(!row.enabled());
    assert_eq!(row.clone().id(), "name");
    assert!(row.login_recently(556, 10));
}

#[test]
fn cookie_listings_filter_and_keep_order() {
    let mut s = Store::new();
    assert!(s.cookie_set(1, "c", "s", "a1"));
    assert!(s.cookie_set(2, "c", "s", "b1"));
    assert!(s.cookie_set(1, "c", "s", "a2"));
    s.cookie_usable("b1", false);
    let mine = s.cookie_query_user(1);
    assert_eq!(mine.len(), 2);
    assert_eq!(mine[0].id(), "a1");
    assert_eq!(mine[1].id(), "a2");
    assert_eq!(s.cookie_query_all().len(), 3);
    let enabled = s.cookie_query_all_enabled();
    assert_eq!(enabled.len(), 2);
    assert!(enabled.iter().all(|c| c.enabled()));
}

#[test]
fn history_query_bounds_are_twenty_and_forty() {
    let mut s = Store::new();
    for k in 0..60i64 {
        s.log_add("session", &format!("k{k}"), None, k);
    }
    let all = s.log_query_all();
    assert_eq!(all.len(), 40);
    assert_eq!(all[0].code(), "k59");
    assert_eq!(all[39].code(), "k20");
    let one = s.log_query("session");
    assert_eq!(one.len(), 20);
    assert_eq!(one[0].code(), "k59");
    assert_eq!(one[19].code(), "k40");
    assert!(s.log_query("elsewhere").is_empty());
}

#[test]
fn status_blob_fresh_write_and_noop() {
    let mut s = Store::new();
    assert!(s.v_query().is_none());
    s.v_update("alpha", 1);
    s.v_update("alpha", 2);
    let v = s.v_query().unwrap();
    assert_eq!(v.v(), "alpha");
    assert_eq!(v.last(), 1);
    s.v_update("beta", 3);
    let v = s.v_query().unwrap();
    assert_eq!(v.v(), "beta");
    assert_eq!(v.last(), 3);
}
