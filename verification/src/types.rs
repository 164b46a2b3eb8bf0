use vstd::prelude::*;

verus! {

/// Mathematical view of a stored user row.
pub struct UserV {
    pub id: i64,
    pub authorized: i32,
}

/// One row of the user table: an identity and its stored access value.
#[derive(Clone, Copy, Debug)]
pub struct User {
    pub id: i64,
    pub authorized: i32,
}

impl View for User {
    type V = UserV;

    open spec fn view(&self) -> UserV {
        UserV { id: self.id, authorized: self.authorized }
    }
}

impl User {
    pub fn new(id: i64, authorized: i32) -> (r: Self)
        ensures
            r@ == (UserV { id, authorized }),
    {
        User { id, authorized }
    }

    pub fn id(&self) -> (r: i64)
        ensures
            r == self@.id,
    {
        self.id
    }

    pub fn authorized(&self) -> (r: i32)
        ensures
            r == self@.authorized,
    {
        self.authorized
    }
}

/// Mathematical view of a stored code row.
pub struct CodeV {
    pub code: Seq<char>,
    pub fr: bool,
    pub message_id: i32,
}

/// One row of the code table: the unique token, its finalized flag and the
/// reference to the outward announcement message.
#[derive(Debug)]
pub struct CodeRow {
    pub code: String,
    pub fr: bool,
    pub message_id: i32,
}

impl View for CodeRow {
    type V = CodeV;

    open spec fn view(&self) -> CodeV {
        CodeV { code: self.code@, fr: self.fr, message_id: self.message_id }
    }
}

impl Clone for CodeRow {
    fn clone(&self) -> (r: Self)
        ensures
            r == *self,
    {
        CodeRow { code: self.code.clone(), fr: self.fr, message_id: self.message_id }
    }
}

impl CodeRow {
    pub fn new(code: String, message_id: i32, fr: bool) -> (r: Self)
        ensures
            r@ == (CodeV { code: code@, fr, message_id }),
    {
        CodeRow { code, fr, message_id }
    }

    pub fn is_fr(&self) -> (r: bool)
        ensures
            r == self@.fr,
    {
        self.fr
    }

    pub fn message_id(&self) -> (r: i32)
        ensures
            r == self@.message_id,
    {
        self.message_id
    }

    pub fn code(&self) -> (r: &str)
        ensures
            r@ == self@.code,
    {
        self.code.as_str()
    }
}

/// Mathematical view of a stored session credential.
pub struct CookieV {
    pub id: Seq<char>,
    pub csrf_token: Seq<char>,
    pub session_id: Seq<char>,
    pub last_login: i64,
    pub belong: i64,
    pub enabled: bool,
}

/// One row of the cookie table: a session credential owned by a user.
#[derive(Debug)]
pub struct Cookie {
    pub id: String,
    pub csrf_token: String,
    pub session_id: String,
    pub last_login: i64,
    pub belong: i64,
    pub enabled: bool,
}

impl View for Cookie {
    type V = CookieV;

    open spec fn view(&self) -> CookieV {
        CookieV {
            id: self.id@,
            csrf_token: self.csrf_token@,
            session_id: self.session_id@,
            last_login: self.last_login,
            belong: self.belong,
            enabled: self.enabled,
        }
    }
}

impl Clone for Cookie {
    fn clone(&self) -> (r: Self)
        ensures
            r == *self,
    {
        Cookie {
            id: self.id.clone(),
            csrf_token: self.csrf_token.clone(),
            session_id: self.session_id.clone(),
            last_login: self.last_login,
            belong: self.belong,
            enabled: self.enabled,
        }
    }
}

impl Cookie {
    pub const RECENTLY: i64 = 7200;

    pub fn new(
        id: String,
        csrf_token: String,
        session_id: String,
        last_login: i64,
        belong: i64,
        enabled: bool,
    ) -> (r: Self)
        ensures
            r@ == (CookieV {
                id: id@,
                csrf_token: csrf_token@,
                session_id: session_id@,
                last_login,
                belong,
                enabled,
            }),
    {
        Cookie { id, csrf_token, session_id, last_login, belong, enabled }
    }

    pub fn csrf_token(&self) -> (r: &str)
        ensures
            r@ == self@.csrf_token,
    {
        self.csrf_token.as_str()
    }

    pub fn session_id(&self) -> (r: &str)
        ensures
            r@ == self@.session_id,
    {
        self.session_id.as_str()
    }

    pub fn id(&self) -> (r: &str)
        ensures
            r@ == self@.id,
    {
        self.id.as_str()
    }

    /// Whether the last recorded activity lies within `limit` seconds of
    /// `now`, the current unix time supplied by the caller.
    pub fn login_recently(&self, now: i64, limit: i64) -> (r: bool)
        requires
            0 <= self@.last_login,
            0 <= now,
        ensures
            r == (now - self@.last_login < limit),
    {
        now - self.last_login < limit
    }

    pub fn belong(&self) -> (r: i64)
        ensures
            r == self@.belong,
    {
        self.belong
    }

    pub fn enabled(&self) -> (r: bool)
        ensures
            r == self@.enabled,
    {
        self.enabled
    }
}

/// Mathematical view of an append-only log entry.
pub struct HistV {
    pub timestamp: i64,
    pub id: Seq<char>,
    pub code: Seq<char>,
    pub error: Option<Seq<char>>,
}

/// One row of the append-only history log.
#[derive(Debug)]
pub struct HistoryRow {
    pub timestamp: i64,
    pub id: String,
    pub code: String,
    pub error: Option<String>,
}

impl View for HistoryRow {
    type V = HistV;

    open spec fn view(&self) -> HistV {
        HistV {
            timestamp: self.timestamp,
            id: self.id@,
            code: self.code@,
            error: match self.error {
                Option::Some(e) => Option::Some(e@),
                Option::None => Option::None,
            },
        }
    }
}

impl Clone for HistoryRow {
    fn clone(&self) -> (r: Self)
        ensures
            r@ == self@,
    {
        HistoryRow {
            timestamp: self.timestamp,
            id: self.id.clone(),
            code: self.code.clone(),
            error: match &self.error {
                Option::Some(e) => Option::Some(e.clone()),
                Option::None => Option::None,
            },
        }
    }
}

/// The largest timestamp the calendar formatter accepts (end of year 9999).
pub const MAX_FORMAT_TIMESTAMP: i64 = 253_402_300_799;

/// What the calendar formatter prints for a unix timestamp; fixed by the
/// timestamp alone (the zone data is compiled in).
pub uninterp spec fn local_time_text(timestamp: i64) -> Seq<char>;

impl HistoryRow {
    pub fn new(timestamp: i64, id: String, code: String, error: Option<String>) -> (r: Self)
        ensures
            r@ == (HistV {
                timestamp,
                id: id@,
                code: code@,
                error: match error {
                    Option::Some(e) => Option::Some(e@),
                    Option::None => Option::None,
                },
            }),
    {
        HistoryRow { timestamp, id, code, error }
    }

    pub fn timestamp(&self) -> (r: i64)
        ensures
            r == self@.timestamp,
    {
        self.timestamp
    }

    /// Relies on chrono's `DateTime::from_timestamp` (defined for every
    /// timestamp in the accepted range) and on chrono-tz's compiled-in
    /// `Asia::Taipei` zone data: renders the timestamp as local calendar
    /// time, a function of the timestamp alone.
    #[verifier::external_body]
    pub fn timestamp_to_string(timestamp: i64) -> (r: String)
        requires
            0 <= timestamp <= MAX_FORMAT_TIMESTAMP,
        ensures
            r@ == local_time_text(timestamp),
    {
        let time = chrono::DateTime::from_timestamp(timestamp, 0).unwrap();
        time.with_timezone(&chrono_tz::Asia::Taipei)
            .format("%Y-%m-%d %H:%M:%S")
            .to_string()
    }

    pub fn time(&self) -> (r: String)
        requires
            0 <= self@.timestamp <= MAX_FORMAT_TIMESTAMP,
        ensures
            r@ == local_time_text(self@.timestamp),
    {
        Self::timestamp_to_string(self.timestamp)
    }

    pub fn id(&self) -> (r: &str)
        ensures
            r@ == self@.id,
    {
        self.id.as_str()
    }

    pub fn code(&self) -> (r: &str)
        ensures
            r@ == self@.code,
    {
        self.code.as_str()
    }

    pub fn error(&self) -> (r: Option<&str>)
        ensures
            match r {
                Option::Some(e) => self@.error == Option::Some(e@),
                Option::None => self@.error is None,
            },
    {
        match &self.error {
            Option::Some(e) => Option::Some(e.as_str()),
            Option::None => Option::None,
        }
    }
}

/// One row of the key/value metadata table.
#[derive(Debug)]
pub struct MetaRow {
    pub key: String,
    pub value: String,
}

impl MetaRow {
    pub fn new(key: String, value: String) -> (r: Self)
        ensures
            r@.0 == key@,
            r@.1 == value@,
    {
        MetaRow { key, value }
    }

    pub fn value(&self) -> (r: &str)
        ensures
            r@ == self@.1,
    {
        self.value.as_str()
    }
}

impl View for MetaRow {
    type V = (Seq<char>, Seq<char>);

    open spec fn view(&self) -> (Seq<char>, Seq<char>) {
        (self.key@, self.value@)
    }
}

/// Mathematical view of the stored status blob.
pub struct VStatsV {
    pub v: Seq<char>,
    pub last: u64,
}

/// The status blob kept under the well-known metadata key: a value and the
/// unix time it was last seen.
#[derive(Debug)]
pub struct VStats {
    pub v: String,
    pub last: u64,
}

impl View for VStats {
    type V = VStatsV;

    open spec fn view(&self) -> VStatsV {
        VStatsV { v: self.v@, last: self.last }
    }
}

impl Clone for VStats {
    fn clone(&self) -> (r: Self)
        ensures
            r == *self,
    {
        VStats { v: self.v.clone(), last: self.last }
    }
}

impl VStats {
    /// Builds a fresh status blob; `now` is the current unix time supplied
    /// by the caller.
    pub fn new(v: String, now: u64) -> (r: Self)
        ensures
            r@ == (VStatsV { v: v@, last: now }),
    {
        VStats { v, last: now }
    }

    pub fn v(&self) -> (r: &str)
        ensures
            r@ == self@.v,
    {
        self.v.as_str()
    }

    pub fn last(&self) -> (r: u64)
        ensures
            r == self@.last,
    {
        self.last
    }
}

} // verus!
