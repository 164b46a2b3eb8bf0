use vstd::prelude::*;

verus! {

/// Settings of the upstream messaging platform.
#[derive(Debug)]
pub struct Upstream {
    pub key: String,
    pub target: i64,
    pub server: Option<String>,
}

impl Upstream {
    pub fn new(key: String, target: i64, server: Option<String>) -> (r: Self)
        ensures
            r.key@ == key@,
            r.target == target,
            r.server == server,
    {
        Upstream { key, target, server }
    }

    pub fn server(&self) -> (r: Option<&String>)
        ensures
            match r {
                Some(s) => self.server == Some(*s),
                None => self.server is None,
            },
    {
        self.server.as_ref()
    }

    pub fn key(&self) -> (r: &str)
        ensures
            r@ == self.key@,
    {
        self.key.as_str()
    }

    pub fn target(&self) -> (r: i64)
        ensures
            r == self.target,
    {
        self.target
    }
}

/// Settings of the outward notification feed.
#[derive(Debug)]
pub struct Web {
    pub enabled: bool,
    pub bind: String,
    pub prefix: Option<String>,
    pub access_key: String,
}

impl Web {
    pub fn new(enabled: bool, bind: String, prefix: Option<String>, access_key: String) -> (r:
        Self)
        ensures
            r.enabled == enabled,
            r.bind@ == bind@,
            r.prefix == prefix,
            r.access_key@ == access_key@,
    {
        Web { enabled, bind, prefix, access_key }
    }

    pub fn enabled(&self) -> (r: bool)
        ensures
            r == self.enabled,
    {
        self.enabled
    }

    pub fn bind(&self) -> (r: &str)
        ensures
            r@ == self.bind@,
    {
        self.bind.as_str()
    }

    pub fn prefix(&self) -> (r: Option<&String>)
        ensures
            match r {
                Some(s) => self.prefix == Some(*s),
                None => self.prefix is None,
            },
    {
        self.prefix.as_ref()
    }

    pub fn access_key(&self) -> (r: &str)
        ensures
            r@ == self.access_key@,
    {
        self.access_key.as_str()
    }
}

impl Default for Web {
    /// The feed settings used when the configuration names none: disabled,
    /// with a fixed bind address and access key.
    fn default() -> (r: Self)
        ensures
            !r.enabled,
            r.bind@ == "0.0.0.0:26511"@,
            r.prefix is None,
            r.access_key@ == "114514"@,
    {
        Web {
            enabled: false,
            bind: "0.0.0.0:26511".to_owned(),
            prefix: None,
            access_key: "114514".to_owned(),
        }
    }
}

/// The application's configuration: the administrator identities, the
/// one-time-password secret, the store location, the feed settings and the
/// upstream platform settings.
#[derive(Debug)]
pub struct Config {
    pub admin: Vec<i64>,
    pub totp: String,
    pub database: String,
    pub web: Web,
    pub platform: Upstream,
}

impl Config {
    pub fn new(admin: Vec<i64>, totp: String, database: String, web: Web, platform: Upstream) -> (r:
        Self)
        ensures
            r.admin@ == admin@,
            r.totp@ == totp@,
            r.database@ == database@,
            r.web == web,
            r.platform == platform,
    {
        Config { admin, totp, database, web, platform }
    }

    pub fn admin(&self) -> (r: &Vec<i64>)
        ensures
            r@ == self.admin@,
    {
        &self.admin
    }

    pub fn platform(&self) -> (r: &Upstream)
        ensures
            *r == self.platform,
    {
        &self.platform
    }

    pub fn web(&self) -> (r: &Web)
        ensures
            *r == self.web,
    {
        &self.web
    }

    pub fn database(&self) -> (r: &str)
        ensures
            r@ == self.database@,
    {
        self.database.as_str()
    }
}

} // verus!
