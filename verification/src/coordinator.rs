use vstd::prelude::*;

use crate::access::AccessLevel;
use crate::bus::{BroadcastEvent, Bus, EventV};
use crate::store::{
    all_but_codes, all_but_cookies, all_but_history, all_but_users, all_but_vstats, cookie_idx,
    cookies_of, enabled_cookies, has_code, has_cookie, has_user, lookup_code, lookup_cookie,
    lookup_user, mark_code, recent_history, set_cookie, set_cookie_enabled, touch_cookie, user_idx,
    views_of_cookies, views_of_history, Store, StoreError, HISTORY_LIMIT_ALL,
    HISTORY_LIMIT_SESSION,
};
use crate::types::{CodeRow, CodeV, Cookie, CookieV, HistV, HistoryRow, User, UserV, VStats, VStatsV};

verus! {

/// The ceiling on session credentials per owner, enforced when a fresh
/// identifier is created.
pub const COOKIE_CEILING_DEFAULT: usize = 2;

/// A typed request to the coordinator: one variant per store operation,
/// carrying its payload. The reply travels back as the return value of the
/// dispatcher.
#[derive(Debug)]
pub enum DatabaseEvent {
    UserAdd { user: i64 },
    UserApprove { user: i64, level: AccessLevel },
    UserRevoke { user: i64 },
    UserQuery { user: i64 },
    CodeQuery { code: String },
    CodeAdd { code: String, message_id: i32 },
    CodeResent { code: String },
    CodeFR { code: String },
    CookieQueryAll(bool),
    CookieQuery(i64),
    CookieQueryID(String),
    CookieToggle { id: String, usable: bool },
    CookieCheckCapacity(String, i64, usize),
    CookieSet { user: i64, id: String, csrf: String, session: String },
    CookieUpdateTimestamp(String),
    VUpdate { v: String },
    LogInsert { id: String, code: String, error: Option<String> },
    LogQuery { id: String },
    VQuery,
    Terminate,
}

/// A typed reply to one request.
#[derive(Debug)]
pub enum Reply {
    Unit,
    Bool(bool),
    MaybeUser(Option<User>),
    MaybeCode(Option<CodeRow>),
    MaybeCookie(Option<Cookie>),
    Cookies(Vec<Cookie>),
    HistoryRows(Vec<HistoryRow>),
    MaybeVStats(Option<VStats>),
}

/// The coordinator's lifecycle: it drains requests while `Running`, accepts
/// none after a termination request (`Draining`), and is `Closed` once the
/// terminal shutdown event went out or a store error tore it down.
#[derive(Clone, Copy, Debug, PartialEq, Eq, Structural)]
pub enum Phase {
    Running,
    Draining,
    Closed,
}

/// The user table after a first-contact request: the identity is created
/// at the lowest level when absent, and untouched when present.
pub open spec fn apply_user_add(users: Seq<UserV>, user: i64) -> Seq<UserV> {
    if has_user(users, user) {
        users
    } else {
        users.push(UserV { id: user, authorized: 0 })
    }
}

/// The user table after an approval or revocation: the stored level becomes
/// exactly the written level, the row being created when absent.
pub open spec fn apply_set_level(users: Seq<UserV>, user: i64, level: AccessLevel) -> Seq<UserV> {
    if has_user(users, user) {
        users.update(user_idx(users, user), (UserV { id: user, authorized: level.value() }))
    } else {
        users.push((UserV { id: user, authorized: level.value() }))
    }
}

/// Whether one coordinator turn accepts an upsert of `id` for `user`: an
/// existing identifier is accepted only for its owner (a pure update, no
/// new slot), a fresh one only while the owner holds fewer credentials
/// than the ceiling. The test and the write share the turn, which is what
/// makes the check race-free under concurrent callers.
pub open spec fn cookie_set_allowed(
    cookies: Seq<CookieV>,
    user: i64,
    id: Seq<char>,
    ceiling: nat,
) -> bool {
    if has_cookie(cookies, id) {
        cookies[cookie_idx(cookies, id)].belong == user
    } else {
        cookies_of(cookies, user).len() < ceiling
    }
}

pub open spec fn reply_unit(r: Result<Reply, StoreError>) -> bool {
    r == Result::<Reply, StoreError>::Ok(Reply::Unit)
}

pub open spec fn reply_bool(r: Result<Reply, StoreError>, b: bool) -> bool {
    r == Result::<Reply, StoreError>::Ok(Reply::Bool(b))
}

pub open spec fn reply_maybe_user(r: Result<Reply, StoreError>, expected: Option<UserV>) -> bool {
    match r {
        Result::Ok(Reply::MaybeUser(u)) => match u {
            Option::Some(x) => expected == Option::Some(x@),
            Option::None => expected is None,
        },
        _ => false,
    }
}

pub open spec fn reply_maybe_code(r: Result<Reply, StoreError>, expected: Option<CodeV>) -> bool {
    match r {
        Result::Ok(Reply::MaybeCode(c)) => match c {
            Option::Some(x) => expected == Option::Some(x@),
            Option::None => expected is None,
        },
        _ => false,
    }
}

pub open spec fn reply_maybe_cookie(r: Result<Reply, StoreError>, expected: Option<CookieV>) -> bool {
    match r {
        Result::Ok(Reply::MaybeCookie(c)) => match c {
            Option::Some(x) => expected == Option::Some(x@),
            Option::None => expected is None,
        },
        _ => false,
    }
}

pub open spec fn reply_maybe_vstats(r: Result<Reply, StoreError>, expected: Option<VStatsV>) -> bool {
    match r {
        Result::Ok(Reply::MaybeVStats(v)) => match v {
            Option::Some(x) => expected == Option::Some(x@),
            Option::None => expected is None,
        },
        _ => false,
    }
}

pub open spec fn reply_cookies(r: Result<Reply, StoreError>, expected: Seq<CookieV>) -> bool {
    match r {
        Result::Ok(Reply::Cookies(v)) => views_of_cookies(v@) == expected,
        _ => false,
    }
}

pub open spec fn reply_history(r: Result<Reply, StoreError>, expected: Seq<HistV>) -> bool {
    match r {
        Result::Ok(Reply::HistoryRows(v)) => views_of_history(v@) == expected,
        _ => false,
    }
}

/// The single writer: sole owner of the store and of the bus's publish
/// side. Requests are executed one at a time, each to full completion —
/// store change plus any resulting publish — before the next begins.
pub struct Coordinator {
    pub store: Store,
    pub bus: Bus,
    pub phase: Phase,
    pub cookie_ceiling: usize,
}

impl Coordinator {
    pub open spec fn wf(self) -> bool {
        self.store.wf()
    }

    pub fn new(cookie_ceiling: usize, bus_capacity: usize) -> (r: Coordinator)
        requires
            bus_capacity >= 1,
        ensures
            r.wf(),
            r.phase is Running,
            r.cookie_ceiling == cookie_ceiling,
            r.store@.users == Seq::<UserV>::empty(),
            r.store@.codes == Seq::<CodeV>::empty(),
            r.store@.cookies == Seq::<CookieV>::empty(),
            r.store@.history == Seq::<HistV>::empty(),
            r.store@.vstats is None,
            r.bus@.log == Seq::<EventV>::empty(),
            r.bus@.capacity == bus_capacity,
    {
        Coordinator {
            store: Store::new(),
            bus: Bus::new(bus_capacity),
            phase: Phase::Running,
            cookie_ceiling,
        }
    }

    /// Builds a coordinator around an existing store — the state loaded at
    /// startup, after the schema pass — and the bus to publish on.
    pub fn with_store(store: Store, bus: Bus, cookie_ceiling: usize) -> (r: Coordinator)
        requires
            store.wf(),
        ensures
            r.wf(),
            r.phase is Running,
            r.store == store,
            r.bus == bus,
            r.cookie_ceiling == cookie_ceiling,
    {
        Coordinator { store, bus, phase: Phase::Running, cookie_ceiling }
    }

    /// Runs one request to completion and produces its reply. A store
    /// error — the one kind the model can produce is a duplicate key on a
    /// code insert — tears the coordinator down: no retry, no partial
    /// recovery. `now` is the current unix time supplied by the caller.
    pub fn handle_event(&mut self, event: DatabaseEvent, now: i64) -> (r: Result<Reply, StoreError>)
        requires
            old(self).wf(),
            old(self).phase is Running,
            0 <= now,
        ensures
            final(self).wf(),
            final(self).cookie_ceiling == old(self).cookie_ceiling,
            final(self).bus@.capacity == old(self).bus@.capacity,
            (match event {
                DatabaseEvent::UserAdd { user } => {
                    &&& final(self).store@.users == apply_user_add(old(self).store@.users, user)
                    &&& all_but_users(old(self).store@, final(self).store@)
                    &&& final(self).bus@.log == old(self).bus@.log
                    &&& reply_bool(r, !has_user(old(self).store@.users, user))
                    &&& final(self).phase is Running
                },
                DatabaseEvent::UserApprove { user, level } => {
                    &&& final(self).store@.users == apply_set_level(
                        old(self).store@.users,
                        user,
                        level,
                    )
                    &&& all_but_users(old(self).store@, final(self).store@)
                    &&& final(self).bus@.log == old(self).bus@.log
                    &&& reply_unit(r)
                    &&& final(self).phase is Running
                },
                DatabaseEvent::UserRevoke { user } => {
                    &&& final(self).store@.users == apply_set_level(
                        old(self).store@.users,
                        user,
                        AccessLevel::NoAccess,
                    )
                    &&& all_but_users(old(self).store@, final(self).store@)
                    &&& final(self).bus@.log == old(self).bus@.log
                    &&& reply_unit(r)
                    &&& final(self).phase is Running
                },
                DatabaseEvent::UserQuery { user } => {
                    &&& final(self).store == old(self).store
                    &&& final(self).bus@.log == old(self).bus@.log
                    &&& reply_maybe_user(r, lookup_user(old(self).store@.users, user))
                    &&& final(self).phase is Running
                },
                DatabaseEvent::CodeQuery { code } => {
                    &&& final(self).store == old(self).store
                    &&& final(self).bus@.log == old(self).bus@.log
                    &&& reply_maybe_code(r, lookup_code(old(self).store@.codes, code@))
                    &&& final(self).phase is Running
                },
                DatabaseEvent::CodeAdd { code, message_id } => {
                    &&& all_but_codes(old(self).store@, final(self).store@)
                    &&& has_code(old(self).store@.codes, code@) ==> {
                        &&& r == Result::<Reply, StoreError>::Err(StoreError::DuplicateKey)
                        &&& final(self).store == old(self).store
                        &&& final(self).bus@.log == old(self).bus@.log
                        &&& final(self).phase is Closed
                    }
                    &&& !has_code(old(self).store@.codes, code@) ==> {
                        &&& final(self).store@.codes == old(self).store@.codes.push(
                            (CodeV { code: code@, fr: false, message_id }),
                        )
                        &&& final(self).bus@.log == old(self).bus@.log.push(
                            EventV::NewCode(code@),
                        )
                        &&& reply_unit(r)
                        &&& final(self).phase is Running
                    }
                },
                DatabaseEvent::CodeResent { code } => {
                    &&& final(self).store == old(self).store
                    &&& final(self).bus@.log == old(self).bus@.log.push(EventV::NewCode(code@))
                    &&& reply_unit(r)
                    &&& final(self).phase is Running
                },
                DatabaseEvent::CodeFR { code } => {
                    &&& final(self).store@.codes == mark_code(old(self).store@.codes, code@, true)
                    &&& all_but_codes(old(self).store@, final(self).store@)
                    &&& final(self).bus@.log == old(self).bus@.log
                    &&& reply_maybe_code(
                        r,
                        lookup_code(mark_code(old(self).store@.codes, code@, true), code@),
                    )
                    &&& final(self).phase is Running
                },
                DatabaseEvent::CookieQueryAll(enabled_only) => {
                    &&& final(self).store == old(self).store
                    &&& final(self).bus@.log == old(self).bus@.log
                    &&& reply_cookies(
                        r,
                        if enabled_only {
                            enabled_cookies(old(self).store@.cookies)
                        } else {
                            old(self).store@.cookies
                        },
                    )
                    &&& final(self).phase is Running
                },
                DatabaseEvent::CookieQuery(user) => {
                    &&& final(self).store == old(self).store
                    &&& final(self).bus@.log == old(self).bus@.log
                    &&& reply_cookies(r, cookies_of(old(self).store@.cookies, user))
                    &&& final(self).phase is Running
                },
                DatabaseEvent::CookieQueryID(id) => {
                    &&& final(self).store == old(self).store
                    &&& final(self).bus@.log == old(self).bus@.log
                    &&& reply_maybe_cookie(r, lookup_cookie(old(self).store@.cookies, id@))
                    &&& final(self).phase is Running
                },
                DatabaseEvent::CookieToggle { id, usable } => {
                    &&& final(self).store@.cookies == set_cookie_enabled(
                        old(self).store@.cookies,
                        id@,
                        usable,
                    )
                    &&& all_but_cookies(old(self).store@, final(self).store@)
                    &&& final(self).bus@.log == old(self).bus@.log
                    &&& reply_unit(r)
                    &&& final(self).phase is Running
                },
                DatabaseEvent::CookieCheckCapacity(codename, user, capacity) => {
                    &&& final(self).store == old(self).store
                    &&& final(self).bus@.log == old(self).bus@.log
                    &&& reply_bool(
                        r,
                        has_cookie(old(self).store@.cookies, codename@) || cookies_of(
                            old(self).store@.cookies,
                            user,
                        ).len() <= capacity,
                    )
                    &&& final(self).phase is Running
                },
                DatabaseEvent::CookieSet { user, id, csrf, session } => {
                    &&& final(self).store@.cookies == (if cookie_set_allowed(
                        old(self).store@.cookies,
                        user,
                        id@,
                        old(self).cookie_ceiling as nat,
                    ) {
                        set_cookie(old(self).store@.cookies, user, csrf@, session@, id@)
                    } else {
                        old(self).store@.cookies
                    })
                    &&& all_but_cookies(old(self).store@, final(self).store@)
                    &&& !cookie_set_allowed(
                        old(self).store@.cookies,
                        user,
                        id@,
                        old(self).cookie_ceiling as nat,
                    ) ==> final(self).store == old(self).store
                    &&& final(self).bus@.log == old(self).bus@.log
                    &&& reply_bool(
                        r,
                        cookie_set_allowed(
                            old(self).store@.cookies,
                            user,
                            id@,
                            old(self).cookie_ceiling as nat,
                        ),
                    )
                    &&& final(self).phase is Running
                },
                DatabaseEvent::CookieUpdateTimestamp(id) => {
                    &&& final(self).store@.cookies == touch_cookie(
                        old(self).store@.cookies,
                        id@,
                        now,
                    )
                    &&& all_but_cookies(old(self).store@, final(self).store@)
                    &&& final(self).bus@.log == old(self).bus@.log
                    &&& reply_unit(r)
                    &&& final(self).phase is Running
                },
                DatabaseEvent::VUpdate { v } => {
                    &&& all_but_vstats(old(self).store@, final(self).store@)
                    &&& final(self).store@.vstats == (match old(self).store@.vstats {
                        Option::Some(prev) => if prev.v == v@ {
                            Option::Some(prev)
                        } else {
                            Option::Some(VStatsV { v: v@, last: now as u64 })
                        },
                        Option::None => Option::Some(VStatsV { v: v@, last: now as u64 }),
                    })
                    &&& final(self).bus@.log == old(self).bus@.log
                    &&& reply_unit(r)
                    &&& final(self).phase is Running
                },
                DatabaseEvent::LogInsert { id, code, error } => {
                    &&& final(self).store@.history == old(self).store@.history.push(
                        (HistV {
                            timestamp: now,
                            id: id@,
                            code: code@,
                            error: match error {
                                Option::Some(e) => Option::Some(e@),
                                Option::None => Option::None,
                            },
                        }),
                    )
                    &&& all_but_history(old(self).store@, final(self).store@)
                    &&& final(self).bus@.log == old(self).bus@.log
                    &&& reply_unit(r)
                    &&& final(self).phase is Running
                },
                DatabaseEvent::LogQuery { id } => {
                    &&& final(self).store == old(self).store
                    &&& final(self).bus@.log == old(self).bus@.log
                    &&& reply_history(
                        r,
                        if id@.len() == 0 {
                            recent_history(
                                old(self).store@.history,
                                None,
                                HISTORY_LIMIT_ALL as nat,
                            )
                        } else {
                            recent_history(
                                old(self).store@.history,
                                Some(id@),
                                HISTORY_LIMIT_SESSION as nat,
                            )
                        },
                    )
                    &&& final(self).phase is Running
                },
                DatabaseEvent::VQuery => {
                    &&& final(self).store == old(self).store
                    &&& final(self).bus@.log == old(self).bus@.log
                    &&& reply_maybe_vstats(r, old(self).store@.vstats)
                    &&& final(self).phase is Running
                },
                DatabaseEvent::Terminate => {
                    &&& final(self).store == old(self).store
                    &&& final(self).bus@.log == old(self).bus@.log
                    &&& reply_unit(r)
                    &&& final(self).phase is Draining
                },
            }),
    {
        match event {
            DatabaseEvent::UserAdd { user } => {
                let existed = self.store.query_user(user);
                let is_new = existed.is_none();
                if is_new {
                    match self.store.insert_user(user, AccessLevel::NoAccess) {
                        Ok(_) => {},
                        Err(e) => {
                            proof {
                                assert(false);
                            }
                            return Err(e);
                        },
                    }
                }
                Ok(Reply::Bool(is_new))
            },
            DatabaseEvent::UserApprove { user, level } => {
                self.store.set_authorized_status(user, level);
                Ok(Reply::Unit)
            },
            DatabaseEvent::UserRevoke { user } => {
                self.store.set_authorized_status(user, AccessLevel::NoAccess);
                Ok(Reply::Unit)
            },
            DatabaseEvent::UserQuery { user } => Ok(Reply::MaybeUser(self.store.query_user(user))),
            DatabaseEvent::CodeQuery { code } => Ok(
                Reply::MaybeCode(self.store.query_code(code.as_str())),
            ),
            DatabaseEvent::CodeAdd { code, message_id } => {
                match self.store.insert_code(code.as_str(), message_id) {
                    Ok(_) => {
                        self.bus.publish(BroadcastEvent::new_code(code.as_str()));
                        Ok(Reply::Unit)
                    },
                    Err(e) => {
                        self.phase = Phase::Closed;
                        Err(e)
                    },
                }
            },
            DatabaseEvent::CodeResent { code } => {
                self.bus.publish(BroadcastEvent::new_code(code.as_str()));
                Ok(Reply::Unit)
            },
            DatabaseEvent::CodeFR { code } => {
                self.store.set_code_fr(code.as_str(), true);
                Ok(Reply::MaybeCode(self.store.query_code(code.as_str())))
            },
            DatabaseEvent::CookieQueryAll(enabled_only) => {
                if enabled_only {
                    Ok(Reply::Cookies(self.store.cookie_query_all_enabled()))
                } else {
                    Ok(Reply::Cookies(self.store.cookie_query_all()))
                }
            },
            DatabaseEvent::CookieQuery(user) => Ok(
                Reply::Cookies(self.store.cookie_query_user(user)),
            ),
            DatabaseEvent::CookieQueryID(id) => Ok(
                Reply::MaybeCookie(self.store.cookie_query(id.as_str())),
            ),
            DatabaseEvent::CookieToggle { id, usable } => {
                self.store.cookie_usable(id.as_str(), usable);
                Ok(Reply::Unit)
            },
            DatabaseEvent::CookieCheckCapacity(codename, user, capacity) => {
                let present = self.store.cookie_query(codename.as_str()).is_some();
                let fits = self.store.cookie_query_user(user).len() <= capacity;
                Ok(Reply::Bool(present || fits))
            },
            DatabaseEvent::CookieSet { user, id, csrf, session } => {
                let allowed = match self.store.cookie_query(id.as_str()) {
                    Some(c) => c.belong == user,
                    None => self.store.cookie_query_user(user).len() < self.cookie_ceiling,
                };
                if allowed {
                    let accepted = self.store.cookie_set(
                        user,
                        csrf.as_str(),
                        session.as_str(),
                        id.as_str(),
                    );
                    proof {
                        assert(accepted);
                    }
                    Ok(Reply::Bool(accepted))
                } else {
                    Ok(Reply::Bool(false))
                }
            },
            DatabaseEvent::CookieUpdateTimestamp(id) => {
                self.store.cookie_update_timestamp(id.as_str(), now);
                Ok(Reply::Unit)
            },
            DatabaseEvent::VUpdate { v } => {
                self.store.v_update(v.as_str(), now as u64);
                Ok(Reply::Unit)
            },
            DatabaseEvent::LogInsert { id, code, error } => {
                self.store.log_add(id.as_str(), code.as_str(), error, now);
                Ok(Reply::Unit)
            },
            DatabaseEvent::LogQuery { id } => {
                if id.as_str().is_empty() {
                    Ok(Reply::HistoryRows(self.store.log_query_all()))
                } else {
                    Ok(Reply::HistoryRows(self.store.log_query(id.as_str())))
                }
            },
            DatabaseEvent::VQuery => Ok(Reply::MaybeVStats(self.store.v_query())),
            DatabaseEvent::Terminate => {
                self.phase = Phase::Draining;
                Ok(Reply::Unit)
            },
        }
    }

    /// Shuts the coordinator down cleanly: the terminal shutdown event is
    /// published and no further request is accepted.
    pub fn close(&mut self)
        requires
            old(self).wf(),
        ensures
            final(self).wf(),
            final(self).phase is Closed,
            final(self).store == old(self).store,
            final(self).bus@.log == old(self).bus@.log.push(EventV::Exit),
            final(self).bus@.capacity == old(self).bus@.capacity,
            final(self).cookie_ceiling == old(self).cookie_ceiling,
    {
        self.bus.publish(BroadcastEvent::exit());
        self.phase = Phase::Closed;
    }
}

} // verus!
