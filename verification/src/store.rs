use vstd::prelude::*;

use crate::access::AccessLevel;
use crate::strutil::str_eq;
use crate::types::{CodeRow, CodeV, Cookie, CookieV, HistV, HistoryRow, User, UserV, VStats, VStatsV};

verus! {

/// Unfiltered history queries return at most this many rows.
pub const HISTORY_LIMIT_ALL: usize = 40;

/// Per-session history queries return at most this many rows.
pub const HISTORY_LIMIT_SESSION: usize = 20;

/// A store-level failure. Store operations never retry; a failed operation
/// leaves the store unchanged.
#[derive(Clone, Copy, Debug, PartialEq, Eq, Structural)]
pub enum StoreError {
    DuplicateKey,
}

/// Mathematical view of the whole store: one sequence per table, in
/// insertion order, and the status blob.
pub struct StoreV {
    pub users: Seq<UserV>,
    pub codes: Seq<CodeV>,
    pub cookies: Seq<CookieV>,
    pub history: Seq<HistV>,
    pub vstats: Option<VStatsV>,
}

pub open spec fn has_user(users: Seq<UserV>, id: i64) -> bool {
    exists|k: int| 0 <= k < users.len() && users[k].id == id
}

pub open spec fn user_idx(users: Seq<UserV>, id: i64) -> int {
    choose|k: int| 0 <= k < users.len() && users[k].id == id
}

pub open spec fn lookup_user(users: Seq<UserV>, id: i64) -> Option<UserV> {
    if has_user(users, id) {
        Some(users[user_idx(users, id)])
    } else {
        None
    }
}

pub open spec fn has_code(codes: Seq<CodeV>, code: Seq<char>) -> bool {
    exists|k: int| 0 <= k < codes.len() && codes[k].code == code
}

pub open spec fn code_idx(codes: Seq<CodeV>, code: Seq<char>) -> int {
    choose|k: int| 0 <= k < codes.len() && codes[k].code == code
}

pub open spec fn lookup_code(codes: Seq<CodeV>, code: Seq<char>) -> Option<CodeV> {
    if has_code(codes, code) {
        Some(codes[code_idx(codes, code)])
    } else {
        None
    }
}

pub open spec fn has_cookie(cookies: Seq<CookieV>, id: Seq<char>) -> bool {
    exists|k: int| 0 <= k < cookies.len() && cookies[k].id == id
}

pub open spec fn cookie_idx(cookies: Seq<CookieV>, id: Seq<char>) -> int {
    choose|k: int| 0 <= k < cookies.len() && cookies[k].id == id
}

pub open spec fn lookup_cookie(cookies: Seq<CookieV>, id: Seq<char>) -> Option<CookieV> {
    if has_cookie(cookies, id) {
        Some(cookies[cookie_idx(cookies, id)])
    } else {
        None
    }
}

/// The cookies belonging to one owner, in insertion order.
pub open spec fn cookies_of(cookies: Seq<CookieV>, owner: i64) -> Seq<CookieV>
    decreases cookies.len(),
{
    if cookies.len() == 0 {
        Seq::empty()
    } else {
        let rest = cookies_of(cookies.drop_last(), owner);
        if cookies.last().belong == owner {
            rest.push(cookies.last())
        } else {
            rest
        }
    }
}

/// The enabled cookies, in insertion order.
pub open spec fn enabled_cookies(cookies: Seq<CookieV>) -> Seq<CookieV>
    decreases cookies.len(),
{
    if cookies.len() == 0 {
        Seq::empty()
    } else {
        let rest = enabled_cookies(cookies.drop_last());
        if cookies.last().enabled {
            rest.push(cookies.last())
        } else {
            rest
        }
    }
}

/// Whether an upsert of `id` on behalf of `user` is accepted: always for a
/// fresh identifier, and for an existing one only when its owner is `user`.
pub open spec fn cookie_set_accepted(cookies: Seq<CookieV>, user: i64, id: Seq<char>) -> bool {
    match lookup_cookie(cookies, id) {
        Some(c) => c.belong == user,
        None => true,
    }
}

/// The cookie table after an upsert: an owned row gets the new tokens and
/// keeps its stamp, owner and flag; a foreign row stays untouched; a fresh
/// identifier is appended enabled with a zero stamp.
pub open spec fn set_cookie(
    cookies: Seq<CookieV>,
    user: i64,
    csrf: Seq<char>,
    session: Seq<char>,
    id: Seq<char>,
) -> Seq<CookieV> {
    match lookup_cookie(cookies, id) {
        Some(c) => if c.belong == user {
            cookies.update(
                cookie_idx(cookies, id),
                (CookieV {
                    id,
                    csrf_token: csrf,
                    session_id: session,
                    last_login: c.last_login,
                    belong: c.belong,
                    enabled: c.enabled,
                }),
            )
        } else {
            cookies
        },
        None => cookies.push(
            (CookieV {
                id,
                csrf_token: csrf,
                session_id: session,
                last_login: 0,
                belong: user,
                enabled: true,
            }),
        ),
    }
}

/// The cookie table with the enabled flag of `id` set; unchanged when the
/// identifier is absent.
pub open spec fn set_cookie_enabled(cookies: Seq<CookieV>, id: Seq<char>, usable: bool) -> Seq<
    CookieV,
> {
    if has_cookie(cookies, id) {
        let c = cookies[cookie_idx(cookies, id)];
        cookies.update(
            cookie_idx(cookies, id),
            (CookieV {
                id,
                csrf_token: c.csrf_token,
                session_id: c.session_id,
                last_login: c.last_login,
                belong: c.belong,
                enabled: usable,
            }),
        )
    } else {
        cookies
    }
}

/// The cookie table with the activity stamp of `id` set to `now`; unchanged
/// when the identifier is absent.
pub open spec fn touch_cookie(cookies: Seq<CookieV>, id: Seq<char>, now: i64) -> Seq<CookieV> {
    if has_cookie(cookies, id) {
        let c = cookies[cookie_idx(cookies, id)];
        cookies.update(
            cookie_idx(cookies, id),
            (CookieV {
                id,
                csrf_token: c.csrf_token,
                session_id: c.session_id,
                last_login: now,
                belong: c.belong,
                enabled: c.enabled,
            }),
        )
    } else {
        cookies
    }
}

/// The most recent history rows, newest first: rows are taken from the end
/// of the log, keeping those that match the session filter, up to `limit`.
pub open spec fn recent_history(h: Seq<HistV>, id: Option<Seq<char>>, limit: nat) -> Seq<HistV>
    decreases h.len(),
{
    if h.len() == 0 || limit == 0 {
        Seq::empty()
    } else {
        let tail = h.last();
        let sel = match id {
            Some(s) => tail.id == s,
            None => true,
        };
        if sel {
            seq![tail] + recent_history(h.drop_last(), id, (limit - 1) as nat)
        } else {
            recent_history(h.drop_last(), id, limit)
        }
    }
}

pub open spec fn users_distinct(users: Seq<UserV>) -> bool {
    forall|k1: int, k2: int|
        0 <= k1 < k2 < users.len() ==> (#[trigger] users[k1]).id != (#[trigger] users[k2]).id
}

pub open spec fn codes_distinct(codes: Seq<CodeV>) -> bool {
    forall|k1: int, k2: int|
        0 <= k1 < k2 < codes.len() ==> (#[trigger] codes[k1]).code != (#[trigger] codes[k2]).code
}

pub open spec fn cookies_distinct(cookies: Seq<CookieV>) -> bool {
    forall|k1: int, k2: int|
        0 <= k1 < k2 < cookies.len() ==> (#[trigger] cookies[k1]).id != (#[trigger] cookies[k2]).id
}

/// All tables other than the user table agree between the two states.
pub open spec fn all_but_users(a: StoreV, b: StoreV) -> bool {
    a.codes == b.codes && a.cookies == b.cookies && a.history == b.history && a.vstats == b.vstats
}

/// All tables other than the code table agree between the two states.
pub open spec fn all_but_codes(a: StoreV, b: StoreV) -> bool {
    a.users == b.users && a.cookies == b.cookies && a.history == b.history && a.vstats == b.vstats
}

/// All tables other than the cookie table agree between the two states.
pub open spec fn all_but_cookies(a: StoreV, b: StoreV) -> bool {
    a.users == b.users && a.codes == b.codes && a.history == b.history && a.vstats == b.vstats
}

/// All tables other than the history log agree between the two states.
pub open spec fn all_but_history(a: StoreV, b: StoreV) -> bool {
    a.users == b.users && a.codes == b.codes && a.cookies == b.cookies && a.vstats == b.vstats
}

/// All tables agree between the two states; only the status blob may differ.
pub open spec fn all_but_vstats(a: StoreV, b: StoreV) -> bool {
    a.users == b.users && a.codes == b.codes && a.cookies == b.cookies && a.history == b.history
}

/// The in-memory model of the persistent store: one entity table per kind,
/// each keyed uniquely, plus the status blob. Exposes one operation per
/// entity action and no business rules.
pub struct Store {
    pub users: Vec<User>,
    pub codes: Vec<CodeRow>,
    pub cookies: Vec<Cookie>,
    pub history: Vec<HistoryRow>,
    pub vstats: Option<VStats>,
}

impl View for Store {
    type V = StoreV;

    open spec fn view(&self) -> StoreV {
        StoreV {
            users: self.users@.map_values(|u: User| u@),
            codes: self.codes@.map_values(|c: CodeRow| c@),
            cookies: self.cookies@.map_values(|c: Cookie| c@),
            history: self.history@.map_values(|h: HistoryRow| h@),
            vstats: match self.vstats {
                Option::Some(v) => Option::Some(v@),
                Option::None => Option::None,
            },
        }
    }
}

impl Store {
    /// Key uniqueness of every table.
    pub open spec fn wf(self) -> bool {
        users_distinct(self@.users) && codes_distinct(self@.codes) && cookies_distinct(
            self@.cookies,
        )
    }

    pub fn new() -> (r: Store)
        ensures
            r.wf(),
            r@.users == Seq::<UserV>::empty(),
            r@.codes == Seq::<CodeV>::empty(),
            r@.cookies == Seq::<CookieV>::empty(),
            r@.history == Seq::<HistV>::empty(),
            r@.vstats is None,
    {
        let r = Store {
            users: Vec::new(),
            codes: Vec::new(),
            cookies: Vec::new(),
            history: Vec::new(),
            vstats: None,
        };
        proof {
            assert(r@.users =~= Seq::<UserV>::empty());
            assert(r@.codes =~= Seq::<CodeV>::empty());
            assert(r@.cookies =~= Seq::<CookieV>::empty());
            assert(r@.history =~= Seq::<HistV>::empty());
        }
        r
    }

    fn find_user_index(&self, id: i64) -> (r: Option<usize>)
        ensures
            match r {
                Some(j) => j < self@.users.len() && self@.users[j as int].id == id && has_user(
                    self@.users,
                    id,
                ),
                None => !has_user(self@.users, id),
            },
    {
        let mut j: usize = 0;
        while j < self.users.len()
            invariant
                j <= self@.users.len(),
                forall|k: int| 0 <= k < j ==> (#[trigger] self@.users[k]).id != id,
            decreases self@.users.len() - j,
        {
            if self.users[j].id == id {
                return Some(j);
            }
            j += 1;
        }
        None
    }

    fn find_code_index(&self, code: &str) -> (r: Option<usize>)
        ensures
            match r {
                Some(j) => j < self@.codes.len() && self@.codes[j as int].code == code@ && has_code(
                    self@.codes,
                    code@,
                ),
                None => !has_code(self@.codes, code@),
            },
    {
        let mut j: usize = 0;
        while j < self.codes.len()
            invariant
                j <= self@.codes.len(),
                forall|k: int| 0 <= k < j ==> (#[trigger] self@.codes[k]).code != code@,
            decreases self@.codes.len() - j,
        {
            if str_eq(self.codes[j].code.as_str(), code) {
                return Some(j);
            }
            j += 1;
        }
        None
    }

    fn find_cookie_index(&self, id: &str) -> (r: Option<usize>)
        ensures
            match r {
                Some(j) => j < self@.cookies.len() && self@.cookies[j as int].id == id@
                    && has_cookie(self@.cookies, id@),
                None => !has_cookie(self@.cookies, id@),
            },
    {
        let mut j: usize = 0;
        while j < self.cookies.len()
            invariant
                j <= self@.cookies.len(),
                forall|k: int| 0 <= k < j ==> (#[trigger] self@.cookies[k]).id != id@,
            decreases self@.cookies.len() - j,
        {
            if str_eq(self.cookies[j].id.as_str(), id) {
                return Some(j);
            }
            j += 1;
        }
        None
    }

    /// Reads one user row.
    pub fn query_user(&self, user: i64) -> (r: Option<User>)
        requires
            self.wf(),
        ensures
            match r {
                Some(u) => lookup_user(self@.users, user) == Some(u@),
                None => lookup_user(self@.users, user) is None,
            },
    {
        match self.find_user_index(user) {
            Some(j) => {
                proof {
                    lemma_user_idx_is(self@.users, user, j as int);
                }
                Some(self.users[j].clone())
            },
            None => None,
        }
    }

    /// The legacy authorization probe: a non-negative identity whose stored
    /// value is exactly one.
    pub fn _check_auth(&self, user: i64) -> (r: bool)
        requires
            self.wf(),
        ensures
            r == (user >= 0 && lookup_user(self@.users, user) == Some(
                UserV { id: user, authorized: 1i32 },
            )),
    {
        if user < 0 {
            return false;
        }
        match self.find_user_index(user) {
            Some(j) => {
                proof {
                    lemma_user_idx_is(self@.users, user, j as int);
                }
                self.users[j].authorized == 1
            },
            None => false,
        }
    }

    /// Inserts a user row; refused when the identity is already present.
    pub fn insert_user(&mut self, user: i64, level: AccessLevel) -> (r: Result<(), StoreError>)
        requires
            old(self).wf(),
        ensures
            final(self).wf(),
            all_but_users(old(self)@, final(self)@),
            match r {
                Ok(_) => !has_user(old(self)@.users, user) && final(self)@.users == old(self)@.users.push(
                    (UserV { id: user, authorized: level.value() }),
                ),
                Err(e) => has_user(old(self)@.users, user) && *final(self) == *old(self) && e
                    == StoreError::DuplicateKey,
            },
    {
        match self.find_user_index(user) {
            Some(_) => Err(StoreError::DuplicateKey),
            None => {
                let lv = level.i32();
                self.users.push(User { id: user, authorized: lv });
                proof {
                    assert(self@.users =~= old(self)@.users.push(
                        UserV { id: user, authorized: level.value() },
                    ));
                    lemma_user_push_distinct(
                        old(self)@.users,
                        UserV { id: user, authorized: level.value() },
                    );
                }
                Ok(())
            },
        }
    }

    /// Sets the stored access value of an identity to exactly `level`,
    /// creating the row when absent; a no-op when the value already matches.
    pub fn set_authorized_status(&mut self, user: i64, level: AccessLevel)
        requires
            old(self).wf(),
        ensures
            final(self).wf(),
            all_but_users(old(self)@, final(self)@),
            has_user(old(self)@.users, user) ==> final(self)@.users == old(self)@.users.update(
                user_idx(old(self)@.users, user),
                (UserV { id: user, authorized: level.value() }),
            ),
            !has_user(old(self)@.users, user) ==> final(self)@.users == old(self)@.users.push(
                (UserV { id: user, authorized: level.value() }),
            ),
    {
        match self.find_user_index(user) {
            Some(j) => {
                proof {
                    lemma_user_idx_is(self@.users, user, j as int);
                }
                if self.users[j].authorized == level.i32() {
                    proof {
                        assert(self@.users =~= old(self)@.users.update(
                            j as int,
                            UserV { id: user, authorized: level.value() },
                        ));
                    }
                } else {
                    let lv = level.i32();
                    self.users[j] = User { id: user, authorized: lv };
                    proof {
                        assert(self@.users =~= old(self)@.users.update(
                            j as int,
                            UserV { id: user, authorized: level.value() },
                        ));
                        lemma_user_update_distinct(
                            old(self)@.users,
                            j as int,
                            UserV { id: user, authorized: level.value() },
                        );
                    }
                }
            },
            None => {
                let lv = level.i32();
                self.users.push(User { id: user, authorized: lv });
                proof {
                    assert(self@.users =~= old(self)@.users.push(
                        UserV { id: user, authorized: level.value() },
                    ));
                    lemma_user_push_distinct(
                        old(self)@.users,
                        UserV { id: user, authorized: level.value() },
                    );
                }
            },
        }
    }

    /// Reads one code row.
    pub fn query_code(&self, code: &str) -> (r: Option<CodeRow>)
        requires
            self.wf(),
        ensures
            match r {
                Some(c) => lookup_code(self@.codes, code@) == Some(c@),
                None => lookup_code(self@.codes, code@) is None,
            },
    {
        match self.find_code_index(code) {
            Some(j) => {
                proof {
                    lemma_code_idx_is(self@.codes, code@, j as int);
                }
                Some(self.codes[j].clone())
            },
            None => None,
        }
    }

    /// Inserts a code row, not yet finalized; refused when the token is
    /// already present.
    pub fn insert_code(&mut self, code: &str, message_id: i32) -> (r: Result<(), StoreError>)
        requires
            old(self).wf(),
        ensures
            final(self).wf(),
            all_but_codes(old(self)@, final(self)@),
            match r {
                Ok(_) => !has_code(old(self)@.codes, code@) && final(self)@.codes == old(
                    self,
                )@.codes.push((CodeV { code: code@, fr: false, message_id })),
                Err(e) => has_code(old(self)@.codes, code@) && *final(self) == *old(self) && e
                    == StoreError::DuplicateKey,
            },
    {
        match self.find_code_index(code) {
            Some(_) => Err(StoreError::DuplicateKey),
            None => {
                self.codes.push(CodeRow { code: code.to_owned(), fr: false, message_id });
                proof {
                    assert(self@.codes =~= old(self)@.codes.push(
                        CodeV { code: code@, fr: false, message_id },
                    ));
                    lemma_code_push_distinct(
                        old(self)@.codes,
                        CodeV { code: code@, fr: false, message_id },
                    );
                }
                Ok(())
            },
        }
    }

    /// Sets the finalized flag of a code row; a no-op when the token is
    /// absent. The flag is written, not toggled, so repeating the call
    /// leaves the same state.
    pub fn set_code_fr(&mut self, code: &str, is_fr: bool)
        requires
            old(self).wf(),
        ensures
            final(self).wf(),
            all_but_codes(old(self)@, final(self)@),
            final(self)@.codes == mark_code(old(self)@.codes, code@, is_fr),
    {
        match self.find_code_index(code) {
            Some(j) => {
                proof {
                    lemma_code_idx_is(self@.codes, code@, j as int);
                }
                let mid = self.codes[j].message_id;
                let tok = self.codes[j].code.clone();
                self.codes[j] = CodeRow { code: tok, fr: is_fr, message_id: mid };
                proof {
                    assert(self@.codes =~= mark_code(old(self)@.codes, code@, is_fr));
                    lemma_code_update_distinct(
                        old(self)@.codes,
                        j as int,
                        self@.codes[j as int],
                    );
                }
            },
            None => {},
        }
    }

    /// Reads the status blob.
    pub fn v_query(&self) -> (r: Option<VStats>)
        ensures
            match r {
                Some(v) => self@.vstats == Some(v@),
                None => self@.vstats is None,
            },
    {
        match &self.vstats {
            Some(v) => Some(v.clone()),
            None => None,
        }
    }

    /// Writes the status blob, stamping it with `now`; a no-op (keeping the
    /// old stamp) when the stored value already matches.
    pub fn v_update(&mut self, v: &str, now: u64)
        requires
            old(self).wf(),
        ensures
            final(self).wf(),
            all_but_vstats(old(self)@, final(self)@),
            final(self)@.vstats == (match old(self)@.vstats {
                Some(prev) => if prev.v == v@ {
                    Some(prev)
                } else {
                    Some(VStatsV { v: v@, last: now })
                },
                None => Some(VStatsV { v: v@, last: now }),
            }),
    {
        match &self.vstats {
            Some(prev) => {
                if str_eq(prev.v.as_str(), v) {
                    return ;
                }
                self.vstats = Some(VStats { v: v.to_owned(), last: now });
            },
            None => {
                self.vstats = Some(VStats { v: v.to_owned(), last: now });
            },
        }
    }

    /// Reads one session credential by identifier.
    pub fn cookie_query(&self, id: &str) -> (r: Option<Cookie>)
        requires
            self.wf(),
        ensures
            match r {
                Some(c) => lookup_cookie(self@.cookies, id@) == Some(c@),
                None => lookup_cookie(self@.cookies, id@) is None,
            },
    {
        match self.find_cookie_index(id) {
            Some(j) => {
                proof {
                    lemma_cookie_idx_is(self@.cookies, id@, j as int);
                }
                Some(self.cookies[j].clone())
            },
            None => None,
        }
    }

    /// Lists the credentials belonging to one owner, in insertion order.
    pub fn cookie_query_user(&self, id: i64) -> (r: Vec<Cookie>)
        ensures
            views_of_cookies(r@) == cookies_of(self@.cookies, id),
    {
        let mut out: Vec<Cookie> = Vec::new();
        let mut j: usize = 0;
        while j < self.cookies.len()
            invariant
                j <= self@.cookies.len(),
                views_of_cookies(out@) == cookies_of(self@.cookies.take(j as int), id),
            decreases self@.cookies.len() - j,
        {
            proof {
                assert(self@.cookies.take(j as int + 1).drop_last() =~= self@.cookies.take(
                    j as int,
                ));
                assert(self@.cookies.take(j as int + 1).last() == self@.cookies[j as int]);
            }
            let ghost out0 = out@;
            if self.cookies[j].belong == id {
                out.push(self.cookies[j].clone());
                proof {
                    assert(views_of_cookies(out@) =~= views_of_cookies(out0).push(
                        self@.cookies[j as int],
                    ));
                }
            }
            j += 1;
        }
        proof {
            assert(self@.cookies.take(self@.cookies.len() as int) =~= self@.cookies);
        }
        out
    }

    /// Lists every credential, in insertion order.
    pub fn cookie_query_all(&self) -> (r: Vec<Cookie>)
        ensures
            views_of_cookies(r@) == self@.cookies,
    {
        let mut out: Vec<Cookie> = Vec::new();
        let mut j: usize = 0;
        proof {
            assert(views_of_cookies(out@) =~= self@.cookies.take(0));
        }
        while j < self.cookies.len()
            invariant
                j <= self@.cookies.len(),
                views_of_cookies(out@) == self@.cookies.take(j as int),
            decreases self@.cookies.len() - j,
        {
            let ghost out0 = out@;
            out.push(self.cookies[j].clone());
            proof {
                assert(views_of_cookies(out@) =~= views_of_cookies(out0).push(
                    self@.cookies[j as int],
                ));
                assert(self@.cookies.take(j as int + 1) =~= self@.cookies.take(j as int).push(
                    self@.cookies[j as int],
                ));
            }
            j += 1;
        }
        proof {
            assert(self@.cookies.take(self@.cookies.len() as int) =~= self@.cookies);
        }
        out
    }

    /// Lists the enabled credentials, in insertion order.
    pub fn cookie_query_all_enabled(&self) -> (r: Vec<Cookie>)
        ensures
            views_of_cookies(r@) == enabled_cookies(self@.cookies),
    {
        let mut out: Vec<Cookie> = Vec::new();
        let mut j: usize = 0;
        while j < self.cookies.len()
            invariant
                j <= self@.cookies.len(),
                views_of_cookies(out@) == enabled_cookies(self@.cookies.take(j as int)),
            decreases self@.cookies.len() - j,
        {
            proof {
                assert(self@.cookies.take(j as int + 1).drop_last() =~= self@.cookies.take(
                    j as int,
                ));
                assert(self@.cookies.take(j as int + 1).last() == self@.cookies[j as int]);
            }
            let ghost out0 = out@;
            if self.cookies[j].enabled {
                out.push(self.cookies[j].clone());
                proof {
                    assert(views_of_cookies(out@) =~= views_of_cookies(out0).push(
                        self@.cookies[j as int],
                    ));
                }
            }
            j += 1;
        }
        proof {
            assert(self@.cookies.take(self@.cookies.len() as int) =~= self@.cookies);
        }
        out
    }

    /// Inserts or updates a session credential. An existing identifier is
    /// rewritten only when the caller-supplied owner matches its stored
    /// owner; otherwise the call refuses and nothing is mutated. A fresh
    /// identifier is inserted enabled, owned by the caller.
    pub fn cookie_set(&mut self, user: i64, csrf: &str, session: &str, id: &str) -> (r: bool)
        requires
            old(self).wf(),
        ensures
            final(self).wf(),
            all_but_cookies(old(self)@, final(self)@),
            final(self)@.cookies == set_cookie(old(self)@.cookies, user, csrf@, session@, id@),
            r == cookie_set_accepted(old(self)@.cookies, user, id@),
            !r ==> *final(self) == *old(self),
    {
        match self.find_cookie_index(id) {
            Some(j) => {
                proof {
                    lemma_cookie_idx_is(self@.cookies, id@, j as int);
                }
                if self.cookies[j].belong != user {
                    return false;
                }
                let ll = self.cookies[j].last_login;
                let bel = self.cookies[j].belong;
                let en = self.cookies[j].enabled;
                self.cookies[j] = Cookie {
                    id: id.to_owned(),
                    csrf_token: csrf.to_owned(),
                    session_id: session.to_owned(),
                    last_login: ll,
                    belong: bel,
                    enabled: en,
                };
                proof {
                    assert(self@.cookies =~= set_cookie(
                        old(self)@.cookies,
                        user,
                        csrf@,
                        session@,
                        id@,
                    ));
                    lemma_cookie_update_distinct(
                        old(self)@.cookies,
                        j as int,
                        self@.cookies[j as int],
                    );
                }
                true
            },
            None => {
                self.cookies.push(
                    Cookie {
                        id: id.to_owned(),
                        csrf_token: csrf.to_owned(),
                        session_id: session.to_owned(),
                        last_login: 0,
                        belong: user,
                        enabled: true,
                    },
                );
                proof {
                    assert(self@.cookies =~= set_cookie(
                        old(self)@.cookies,
                        user,
                        csrf@,
                        session@,
                        id@,
                    ));
                    lemma_cookie_push_distinct(
                        old(self)@.cookies,
                        CookieV {
                            id: id@,
                            csrf_token: csrf@,
                            session_id: session@,
                            last_login: 0,
                            belong: user,
                            enabled: true,
                        },
                    );
                }
                true
            },
        }
    }

    /// Sets the enabled flag of a credential; a no-op when the identifier
    /// is absent.
    pub fn cookie_usable(&mut self, id: &str, usable: bool)
        requires
            old(self).wf(),
        ensures
            final(self).wf(),
            all_but_cookies(old(self)@, final(self)@),
            final(self)@.cookies == set_cookie_enabled(old(self)@.cookies, id@, usable),
    {
        match self.find_cookie_index(id) {
            Some(j) => {
                proof {
                    lemma_cookie_idx_is(self@.cookies, id@, j as int);
                }
                let tok = self.cookies[j].id.clone();
                let csrf = self.cookies[j].csrf_token.clone();
                let session = self.cookies[j].session_id.clone();
                let ll = self.cookies[j].last_login;
                let bel = self.cookies[j].belong;
                self.cookies[j] = Cookie {
                    id: tok,
                    csrf_token: csrf,
                    session_id: session,
                    last_login: ll,
                    belong: bel,
                    enabled: usable,
                };
                proof {
                    assert(self@.cookies =~= set_cookie_enabled(old(self)@.cookies, id@, usable));
                    lemma_cookie_update_distinct(
                        old(self)@.cookies,
                        j as int,
                        self@.cookies[j as int],
                    );
                }
            },
            None => {},
        }
    }

    /// Sets the activity stamp of a credential to `now`; a no-op when the
    /// identifier is absent.
    pub fn cookie_update_timestamp(&mut self, id: &str, now: i64)
        requires
            old(self).wf(),
        ensures
            final(self).wf(),
            all_but_cookies(old(self)@, final(self)@),
            final(self)@.cookies == touch_cookie(old(self)@.cookies, id@, now),
    {
        match self.find_cookie_index(id) {
            Some(j) => {
                proof {
                    lemma_cookie_idx_is(self@.cookies, id@, j as int);
                }
                let tok = self.cookies[j].id.clone();
                let csrf = self.cookies[j].csrf_token.clone();
                let session = self.cookies[j].session_id.clone();
                let bel = self.cookies[j].belong;
                let en = self.cookies[j].enabled;
                self.cookies[j] = Cookie {
                    id: tok,
                    csrf_token: csrf,
                    session_id: session,
                    last_login: now,
                    belong: bel,
                    enabled: en,
                };
                proof {
                    assert(self@.cookies =~= touch_cookie(old(self)@.cookies, id@, now));
                    lemma_cookie_update_distinct(
                        old(self)@.cookies,
                        j as int,
                        self@.cookies[j as int],
                    );
                }
            },
            None => {},
        }
    }

    /// Appends one row to the history log, stamped with `now`.
    pub fn log_add(&mut self, id: &str, code: &str, error: Option<String>, now: i64)
        requires
            old(self).wf(),
        ensures
            final(self).wf(),
            all_but_history(old(self)@, final(self)@),
            final(self)@.history == old(self)@.history.push(
                (HistV {
                    timestamp: now,
                    id: id@,
                    code: code@,
                    error: match error {
                        Option::Some(e) => Option::Some(e@),
                        Option::None => Option::None,
                    },
                }),
            ),
    {
        self.history.push(
            HistoryRow { timestamp: now, id: id.to_owned(), code: code.to_owned(), error },
        );
        proof {
            assert(self@.history =~= old(self)@.history.push(
                HistV {
                    timestamp: now,
                    id: id@,
                    code: code@,
                    error: match error {
                        Option::Some(e) => Option::Some(e@),
                        Option::None => Option::None,
                    },
                },
            ));
        }
    }

    fn collect_recent(&self, id: Option<&str>, limit: usize) -> (r: Vec<HistoryRow>)
        ensures
            views_of_history(r@) == recent_history(
                self@.history,
                match id {
                    Option::Some(s) => Option::Some(s@),
                    Option::None => Option::None,
                },
                limit as nat,
            ),
    {
        let ghost idv: Option<Seq<char>> = match id {
            Option::Some(s) => Option::Some(s@),
            Option::None => Option::None,
        };
        let mut out: Vec<HistoryRow> = Vec::new();
        let mut j: usize = self.history.len();
        proof {
            assert(self@.history.take(j as int) =~= self@.history);
            assert(views_of_history(out@) =~= Seq::<HistV>::empty());
            assert(views_of_history(out@) + recent_history(
                self@.history.take(j as int),
                idv,
                (limit - out@.len()) as nat,
            ) =~= recent_history(self@.history, idv, limit as nat));
        }
        while j > 0 && out.len() < limit
            invariant
                idv == (match id {
                    Option::Some(s) => Option::Some(s@),
                    Option::None => Option::None,
                }),
                j <= self@.history.len(),
                out@.len() <= limit,
                recent_history(self@.history, idv, limit as nat) == views_of_history(out@)
                    + recent_history(
                    self@.history.take(j as int),
                    idv,
                    (limit - out@.len()) as nat,
                ),
            decreases j,
        {
            j -= 1;
            let row = &self.history[j];
            let ghost t = self@.history[j as int];
            let ghost specsel: bool = match idv {
                Option::Some(sv) => t.id == sv,
                Option::None => true,
            };
            let sel: bool;
            match id {
                Option::Some(s) => {
                    sel = str_eq(row.id.as_str(), s);
                    proof {
                        assert(sel == specsel);
                    }
                },
                Option::None => {
                    sel = true;
                    proof {
                        assert(sel == specsel);
                    }
                },
            }
            proof {
                assert(self@.history.take(j as int + 1).drop_last() =~= self@.history.take(
                    j as int,
                ));
                assert(self@.history.take(j as int + 1).last() == self@.history[j as int]);
            }
            if sel {
                let ghost out0 = out@;
                let ghost rem: nat = (limit - out@.len()) as nat;
                out.push(row.clone());
                proof {
                    let t1 = self@.history.take(j as int + 1);
                    let pre = self@.history.take(j as int);
                    assert(specsel);
                    assert(t1.len() != 0 && rem != 0);
                    assert(views_of_history(out@) =~= views_of_history(out0).push(t));
                    assert(recent_history(t1, idv, rem) == seq![t] + recent_history(
                        pre,
                        idv,
                        (rem - 1) as nat,
                    ));
                    assert(views_of_history(out0) + (seq![t] + recent_history(
                        pre,
                        idv,
                        (rem - 1) as nat,
                    )) =~= views_of_history(out0).push(t) + recent_history(
                        pre,
                        idv,
                        (rem - 1) as nat,
                    ));
                }
            } else {
                proof {
                    let t1 = self@.history.take(j as int + 1);
                    let pre = self@.history.take(j as int);
                    assert(!specsel);
                    assert(recent_history(t1, idv, (limit - out@.len()) as nat)
                        == recent_history(pre, idv, (limit - out@.len()) as nat));
                }
            }
        }
        proof {
            if out@.len() == limit {
                assert(recent_history(self@.history.take(j as int), idv, 0nat)
                    == Seq::<HistV>::empty());
            } else {
                assert(j == 0);
                assert(self@.history.take(0) =~= Seq::<HistV>::empty());
            }
            assert(views_of_history(out@) + Seq::<HistV>::empty() =~= views_of_history(out@));
        }
        out
    }

    /// The most recent rows for one session, newest first, bounded to
    /// `HISTORY_LIMIT_SESSION`.
    pub fn log_query(&self, id: &str) -> (r: Vec<HistoryRow>)
        ensures
            views_of_history(r@) == recent_history(
                self@.history,
                Some(id@),
                HISTORY_LIMIT_SESSION as nat,
            ),
    {
        self.collect_recent(Some(id), HISTORY_LIMIT_SESSION)
    }

    /// The most recent rows system-wide, newest first, bounded to
    /// `HISTORY_LIMIT_ALL`.
    pub fn log_query_all(&self) -> (r: Vec<HistoryRow>)
        ensures
            views_of_history(r@) == recent_history(
                self@.history,
                None,
                HISTORY_LIMIT_ALL as nat,
            ),
    {
        self.collect_recent(None, HISTORY_LIMIT_ALL)
    }
}

/// The views of a vector of cookie rows.
pub open spec fn views_of_cookies(rows: Seq<Cookie>) -> Seq<CookieV> {
    rows.map_values(|c: Cookie| c@)
}

/// The views of a vector of history rows.
pub open spec fn views_of_history(rows: Seq<HistoryRow>) -> Seq<HistV> {
    rows.map_values(|h: HistoryRow| h@)
}

pub proof fn lemma_cookie_idx_is(cookies: Seq<CookieV>, id: Seq<char>, j: int)
    requires
        cookies_distinct(cookies),
        0 <= j < cookies.len(),
        cookies[j].id == id,
    ensures
        has_cookie(cookies, id),
        cookie_idx(cookies, id) == j,
{
    assert(has_cookie(cookies, id));
    let k = cookie_idx(cookies, id);
    assert(0 <= k < cookies.len() && cookies[k].id == id);
    if k < j {
        assert(cookies[k].id != cookies[j].id);
    } else if j < k {
        assert(cookies[j].id != cookies[k].id);
    }
}

pub proof fn lemma_cookie_push_distinct(cookies: Seq<CookieV>, c: CookieV)
    requires
        cookies_distinct(cookies),
        !has_cookie(cookies, c.id),
    ensures
        cookies_distinct(cookies.push(c)),
{
    let s = cookies.push(c);
    assert forall|k1: int, k2: int| 0 <= k1 < k2 < s.len() implies (#[trigger] s[k1]).id != (
    #[trigger] s[k2]).id by {
        if k2 == cookies.len() {
            if cookies[k1].id == c.id {
                assert(has_cookie(cookies, c.id));
            }
        }
    }
}

pub proof fn lemma_cookie_update_distinct(cookies: Seq<CookieV>, j: int, c: CookieV)
    requires
        cookies_distinct(cookies),
        0 <= j < cookies.len(),
        cookies[j].id == c.id,
    ensures
        cookies_distinct(cookies.update(j, c)),
{
    let s = cookies.update(j, c);
    assert forall|k1: int, k2: int| 0 <= k1 < k2 < s.len() implies (#[trigger] s[k1]).id != (
    #[trigger] s[k2]).id by {
        assert(cookies[k1].id != cookies[k2].id);
    }
}

/// Every code row as it was, except that the row carrying `code`, if any,
/// has its finalized flag set to `fr`.
pub open spec fn mark_code(codes: Seq<CodeV>, code: Seq<char>, fr: bool) -> Seq<CodeV> {
    if has_code(codes, code) {
        codes.update(
            code_idx(codes, code),
            (CodeV { code, fr, message_id: codes[code_idx(codes, code)].message_id }),
        )
    } else {
        codes
    }
}

pub proof fn lemma_user_idx_is(users: Seq<UserV>, id: i64, j: int)
    requires
        users_distinct(users),
        0 <= j < users.len(),
        users[j].id == id,
    ensures
        has_user(users, id),
        user_idx(users, id) == j,
{
    assert(has_user(users, id));
    let k = user_idx(users, id);
    assert(0 <= k < users.len() && users[k].id == id);
    if k < j {
        assert(users[k].id != users[j].id);
    } else if j < k {
        assert(users[j].id != users[k].id);
    }
}

pub proof fn lemma_user_push_distinct(users: Seq<UserV>, u: UserV)
    requires
        users_distinct(users),
        !has_user(users, u.id),
    ensures
        users_distinct(users.push(u)),
{
    let s = users.push(u);
    assert forall|k1: int, k2: int| 0 <= k1 < k2 < s.len() implies (#[trigger] s[k1]).id != (
    #[trigger] s[k2]).id by {
        if k2 == users.len() {
            if users[k1].id == u.id {
                assert(has_user(users, u.id));
            }
        }
    }
}

pub proof fn lemma_user_update_distinct(users: Seq<UserV>, j: int, u: UserV)
    requires
        users_distinct(users),
        0 <= j < users.len(),
        users[j].id == u.id,
    ensures
        users_distinct(users.update(j, u)),
{
    let s = users.update(j, u);
    assert forall|k1: int, k2: int| 0 <= k1 < k2 < s.len() implies (#[trigger] s[k1]).id != (
    #[trigger] s[k2]).id by {
        assert(users[k1].id != users[k2].id);
    }
}

pub proof fn lemma_code_idx_is(codes: Seq<CodeV>, code: Seq<char>, j: int)
    requires
        codes_distinct(codes),
        0 <= j < codes.len(),
        codes[j].code == code,
    ensures
        has_code(codes, code),
        code_idx(codes, code) == j,
{
    assert(has_code(codes, code));
    let k = code_idx(codes, code);
    assert(0 <= k < codes.len() && codes[k].code == code);
    if k < j {
        assert(codes[k].code != codes[j].code);
    } else if j < k {
        assert(codes[j].code != codes[k].code);
    }
}

pub proof fn lemma_code_push_distinct(codes: Seq<CodeV>, c: CodeV)
    requires
        codes_distinct(codes),
        !has_code(codes, c.code),
    ensures
        codes_distinct(codes.push(c)),
{
    let s = codes.push(c);
    assert forall|k1: int, k2: int| 0 <= k1 < k2 < s.len() implies (#[trigger] s[k1]).code != (
    #[trigger] s[k2]).code by {
        if k2 == codes.len() {
            if codes[k1].code == c.code {
                assert(has_code(codes, c.code));
            }
        }
    }
}

pub proof fn lemma_code_update_distinct(codes: Seq<CodeV>, j: int, c: CodeV)
    requires
        codes_distinct(codes),
        0 <= j < codes.len(),
        codes[j].code == c.code,
    ensures
        codes_distinct(codes.update(j, c)),
{
    let s = codes.update(j, c);
    assert forall|k1: int, k2: int| 0 <= k1 < k2 < s.len() implies (#[trigger] s[k1]).code != (
    #[trigger] s[k2]).code by {
        assert(codes[k1].code != codes[k2].code);
    }
}

} // verus!
