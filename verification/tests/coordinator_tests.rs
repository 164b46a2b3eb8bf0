use statekeeper::access::AccessLevel;
use statekeeper::bus::{BroadcastEvent, RecvOutcome};
use statekeeper::coordinator::{Coordinator, DatabaseEvent, Phase, Reply, COOKIE_CEILING_DEFAULT};
use statekeeper::store::StoreError;

fn new_coord() -> Coordinator {
    Coordinator::new(COOKIE_CEILING_DEFAULT, 32)
}

fn expect_bool(r: Result<Reply, StoreError>) -> bool {
    match r {
        Ok(Reply::Bool(b)) => b,
        other => panic!("expected a boolean reply, got {:?}", other),
    }
}

#[test]
fn user_add_reports_first_contact() {
    let mut c = new_coord();
    assert!(expect_bool(c.handle_event(DatabaseEvent::UserAdd { user: 5 }, 0)));
    assert!(!expect_bool(c.handle_event(DatabaseEvent::UserAdd { user: 5 }, 0)));
    match c.handle_event(DatabaseEvent::UserQuery { user: 5 }, 0) {
        Ok(Reply::MaybeUser(Some(u))) => assert_eq!(u.authorized(), 0),
        other => panic!("unexpected reply {:?}", other),
    }
}

#[test]
fn last_approval_wins_one_order() {
    let mut c = new_coord();
    c.handle_event(DatabaseEvent::UserAdd { user: 9 }, 0).unwrap();
    c.handle_event(DatabaseEvent::UserApprove { user: 9, level: AccessLevel::Send }, 0).unwrap();
    c.handle_event(DatabaseEvent::UserApprove { user: 9, level: AccessLevel::All }, 0).unwrap();
    c.handle_event(DatabaseEvent::UserRevoke { user: 9 }, 0).unwrap();
    c.handle_event(DatabaseEvent::UserApprove { user: 9, level: AccessLevel::Cookie }, 0).unwrap();
    match c.handle_event(DatabaseEvent::UserQuery { user: 9 }, 0) {
        Ok(Reply::MaybeUser(Some(u))) => assert_eq!(u.authorized(), 1),
        other => panic!("unexpected reply {:?}", other),
    }
}

#[test]
fn last_approval_wins_other_order() {
    let mut c = new_coord();
    c.handle_event(DatabaseEvent::UserApprove { user: 9, level: AccessLevel::Cookie }, 0).unwrap();
    c.handle_event(DatabaseEvent::UserAdd { user: 9 }, 0).unwrap();
    c.handle_event(DatabaseEvent::UserApprove { user: 9, level: AccessLevel::All }, 0).unwrap();
    c.handle_event(DatabaseEvent::UserRevoke { user: 9 }, 0).unwrap();
    match c.handle_event(DatabaseEvent::UserQuery { user: 9 }, 0) {
        Ok(Reply::MaybeUser(Some(u))) => assert_eq!(u.authorized(), 0),
        other => panic!("unexpected reply {:?}", other),
    }
}

#[test]
fn end_to_end_code_lifecycle() {
    let mut c = new_coord();
    c.handle_event(
        DatabaseEvent::CodeAdd { code: "ABCDE12345".to_string(), message_id: 100 },
        0,
    )
    .unwrap();
    match c.handle_event(DatabaseEvent::CodeQuery { code: "ABCDE12345".to_string() }, 0) {
        Ok(Reply::MaybeCode(Some(row))) => {
            assert!(!row.is_fr());
            assert_eq!(row.message_id(), 100);
            assert_eq!(row.code(), "ABCDE12345");
        },
        other => panic!("unexpected reply {:?}", other),
    }
    match c.handle_event(DatabaseEvent::CodeFR { code: "ABCDE12345".to_string() }, 0) {
        Ok(Reply::MaybeCode(Some(row))) => assert!(row.is_fr()),
        other => panic!("unexpected reply {:?}", other),
    }
    match c.handle_event(DatabaseEvent::CodeFR { code: "ABCDE12345".to_string() }, 0) {
        Ok(Reply::MaybeCode(Some(row))) => {
            assert!(row.is_fr());
            assert_eq!(row.message_id(), 100);
        },
        other => panic!("unexpected reply {:?}", other),
    }
}

#[test]
fn finalize_is_idempotent_on_state() {
    let mut c = new_coord();
    c.handle_event(DatabaseEvent::CodeAdd { code: "TOKEN1".to_string(), message_id: 7 }, 0)
        .unwrap();
    c.handle_event(DatabaseEvent::CodeFR { code: "TOKEN1".to_string() }, 0).unwrap();
    let once = match c.handle_event(DatabaseEvent::CodeQuery { code: "TOKEN1".to_string() }, 0) {
        Ok(Reply::MaybeCode(Some(row))) => (row.is_fr(), row.message_id()),
        other => panic!("unexpected reply {:?}", other),
    };
    c.handle_event(DatabaseEvent::CodeFR { code: "TOKEN1".to_string() }, 0).unwrap();
    let twice = match c.handle_event(DatabaseEvent::CodeQuery { code: "TOKEN1".to_string() }, 0) {
        Ok(Reply::MaybeCode(Some(row))) => (row.is_fr(), row.message_id()),
        other => panic!("unexpected reply {:?}", other),
    };
    assert_eq!(once, twice);
    assert_eq!(twice, (true, 7));
}

#[test]
fn duplicate_code_is_fatal() {
    let mut c = new_coord();
    c.handle_event(DatabaseEvent::CodeAdd { code: "DUP".to_string(), message_id: 1 }, 0).unwrap();
    let r = c.handle_event(DatabaseEvent::CodeAdd { code: "DUP".to_string(), message_id: 2 }, 0);
    match r {
        Err(StoreError::DuplicateKey) => {},
        other => panic!("unexpected reply {:?}", other),
    }
    assert_eq!(c.phase, Phase::Closed);
}

fn set_cookie_event(user: i64, id: &str) -> DatabaseEvent {
    DatabaseEvent::CookieSet {
        user,
        id: id.to_string(),
        csrf: format!("csrf-{id}"),
        session: format!("sess-{id}"),
    }
}

#[test]
fn ceiling_of_two_admits_exactly_two() {
    let mut c = new_coord();
    let mut ok = 0;
    let mut refused = 0;
    for id in ["alpha", "beta", "gamma"] {
        if expect_bool(c.handle_event(set_cookie_event(7, id), 0)) {
            ok += 1;
        } else {
            refused += 1;
        }
    }
    assert_eq!((ok, refused), (2, 1));
}

#[test]
fn ceiling_of_two_admits_exactly_two_any_order() {
    let mut c = new_coord();
    let mut ok = 0;
    for id in ["gamma", "alpha", "beta"] {
        if expect_bool(c.handle_event(set_cookie_event(7, id), 0)) {
            ok += 1;
        }
    }
    assert_eq!(ok, 2);
}

#[test]
fn foreign_owner_is_refused_and_row_untouched() {
    let mut c = new_coord();
    assert!(expect_bool(c.handle_event(set_cookie_event(1, "shared"), 0)));
    assert!(!expect_bool(c.handle_event(DatabaseEvent::CookieSet {
        user: 2,
        id: "shared".to_string(),
        csrf: "stolen".to_string(),
        session: "stolen".to_string(),
    }, 0)));
    match c.handle_event(DatabaseEvent::CookieQueryID("shared".to_string()), 0) {
        Ok(Reply::MaybeCookie(Some(row))) => {
            assert_eq!(row.belong(), 1);
            assert_eq!(row.csrf_token(), "csrf-shared");
            assert_eq!(row.session_id(), "sess-shared");
        },
        other => panic!("unexpected reply {:?}", other),
    }
}

#[test]
fn owner_update_consumes_no_slot() {
    let mut c = new_coord();
    assert!(expect_bool(c.handle_event(set_cookie_event(4, "one"), 0)));
    assert!(expect_bool(c.handle_event(set_cookie_event(4, "two"), 0)));
    // The ceiling is reached; a pure update on an owned row still passes.
    assert!(expect_bool(c.handle_event(DatabaseEvent::CookieSet {
        user: 4,
        id: "one".to_string(),
        csrf: "fresh".to_string(),
        session: "fresh".to_string(),
    }, 0)));
    assert!(!expect_bool(c.handle_event(set_cookie_event(4, "three"), 0)));
}

#[test]
fn capacity_check_uses_at_or_below() {
    let mut c = Coordinator::new(5, 32);
    for id in ["a", "b", "c"] {
        assert!(expect_bool(c.handle_event(set_cookie_event(3, id), 0)));
    }
    // Three held, probe ceiling two: 3 <= 2 fails on a fresh identifier.
    assert!(!expect_bool(c.handle_event(
        DatabaseEvent::CookieCheckCapacity("fresh".to_string(), 3, 2),
        0,
    )));
    // An existing identifier passes regardless of the count.
    assert!(expect_bool(c.handle_event(
        DatabaseEvent::CookieCheckCapacity("a".to_string(), 3, 2),
        0,
    )));
    // At or below the probe ceiling passes.
    assert!(expect_bool(c.handle_event(
        DatabaseEvent::CookieCheckCapacity("fresh".to_string(), 3, 3),
        0,
    )));
}

#[test]
fn cookie_toggle_and_touch() {
    let mut c = new_coord();
    c.handle_event(set_cookie_event(8, "cred"), 0).unwrap();
    c.handle_event(
        DatabaseEvent::CookieToggle { id: "cred".to_string(), usable: false },
        0,
    )
    .unwrap();
    c.handle_event(DatabaseEvent::CookieUpdateTimestamp("cred".to_string()), 777).unwrap();
    match c.handle_event(DatabaseEvent::CookieQueryID("cred".to_string()), 0) {
        Ok(Reply::MaybeCookie(Some(row))) => {
            assert!(!row.enabled());
            assert!(row.login_recently(800, 100));
            assert!(!row.login_recently(900, 100));
        },
        other => panic!("unexpected reply {:?}", other),
    }
    match c.handle_event(DatabaseEvent::CookieQueryAll(true), 0) {
        Ok(Reply::Cookies(v)) => assert_eq!(v.len(), 0),
        other => panic!("unexpected reply {:?}", other),
    }
    match c.handle_event(DatabaseEvent::CookieQueryAll(false), 0) {
        Ok(Reply::Cookies(v)) => assert_eq!(v.len(), 1),
        other => panic!("unexpected reply {:?}", other),
    }
}

#[test]
fn history_limits_and_order() {
    let mut c = new_coord();
    for k in 0..45 {
        c.handle_event(
            DatabaseEvent::LogInsert {
                id: if k % 3 == 0 { "s".to_string() } else { "other".to_string() },
                code: format!("c{k}"),
                error: if k == 2 { Some("boom".to_string()) } else { None },
            },
            k,
        )
        .unwrap();
    }
    match c.handle_event(DatabaseEvent::LogQuery { id: String::new() }, 0) {
        Ok(Reply::HistoryRows(rows)) => {
            assert_eq!(rows.len(), 40);
            assert_eq!(rows[0].code(), "c44");
            assert_eq!(rows[39].code(), "c5");
        },
        other => panic!("unexpected reply {:?}", other),
    }
    match c.handle_event(DatabaseEvent::LogQuery { id: "s".to_string() }, 0) {
        Ok(Reply::HistoryRows(rows)) => {
            assert!(rows.len() <= 20);
            assert_eq!(rows[0].code(), "c42");
            assert!(rows.iter().all(|r| r.id() == "s"));
        },
        other => panic!("unexpected reply {:?}", other),
    }
}

#[test]
fn status_blob_update_is_noop_on_same_value() {
    let mut c = new_coord();
    c.handle_event(DatabaseEvent::VUpdate { v: "7.1".to_string() }, 10).unwrap();
    c.handle_event(DatabaseEvent::VUpdate { v: "7.1".to_string() }, 20).unwrap();
    match c.handle_event(DatabaseEvent::VQuery, 0) {
        Ok(Reply::MaybeVStats(Some(v))) => {
            assert_eq!(v.v(), "7.1");
            assert_eq!(v.last(), 10);
        },
        other => panic!("unexpected reply {:?}", other),
    }
    c.handle_event(DatabaseEvent::VUpdate { v: "7.2".to_string() }, 30).unwrap();
    match c.handle_event(DatabaseEvent::VQuery, 0) {
        Ok(Reply::MaybeVStats(Some(v))) => {
            assert_eq!(v.v(), "7.2");
            assert_eq!(v.last(), 30);
        },
        other => panic!("unexpected reply {:?}", other),
    }
}

#[test]
fn terminate_then_close_publishes_exit() {
    let mut c = new_coord();
    let mut sub = c.bus.subscribe();
    c.handle_event(DatabaseEvent::CodeAdd { code: "LIVE1".to_string(), message_id: 3 }, 0)
        .unwrap();
    c.handle_event(DatabaseEvent::Terminate, 0).unwrap();
    assert_eq!(c.phase, Phase::Draining);
    c.close();
    assert_eq!(c.phase, Phase::Closed);
    match c.bus.recv(&mut sub) {
        RecvOutcome::Event(BroadcastEvent::NewCode(code)) => assert_eq!(code, "LIVE1"),
        other => panic!("unexpected outcome {:?}", other),
    }
    match c.bus.recv(&mut sub) {
        RecvOutcome::Event(BroadcastEvent::Exit) => {},
        other => panic!("unexpected outcome {:?}", other),
    }
    match c.bus.recv(&mut sub) {
        RecvOutcome::Empty => {},
        other => panic!("unexpected outcome {:?}", other),
    }
}

#[test]
fn resend_publishes_without_storing() {
    let mut c = new_coord();
    let mut sub = c.bus.subscribe();
    c.handle_event(DatabaseEvent::CodeResent { code: "GHOST".to_string() }, 0).unwrap();
    match c.bus.recv(&mut sub) {
        RecvOutcome::Event(BroadcastEvent::NewCode(code)) => assert_eq!(code, "GHOST"),
        other => panic!("unexpected outcome {:?}", other),
    }
    match c.handle_event(DatabaseEvent::CodeQuery { code: "GHOST".to_string() }, 0) {
        Ok(Reply::MaybeCode(None)) => {},
        other => panic!("unexpected reply {:?}", other),
    }
}
