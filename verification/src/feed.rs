use vstd::prelude::*;

use argon2::PasswordVerifier;

use crate::bus::{BroadcastEvent, EventV};
use crate::strutil::str_eq;

verus! {

/// Whether the stored hash string parses and the password verifies
/// against it; a function of the two strings alone.
pub uninterp spec fn argon2_verified(password: Seq<char>, stored: Seq<char>) -> bool;

/// Relies on argon2's `Argon2::default().verify_password`, which parses
/// the PHC-format hash string and recomputes the digest: the outcome is
/// deterministic in the password and the hash string alone, true exactly
/// when the hash parses and the password matches it.
#[verifier::external_body]
fn argon2_verify(password: &str, stored: &str) -> (r: bool)
    ensures
        r == argon2_verified(password@, stored@),
{
    argon2::Argon2::default().verify_password(password.as_bytes(), stored).is_ok()
}

/// A subscriber's one-shot authentication message: the password it offers
/// and the codename it identifies as.
#[derive(Debug)]
pub struct Auth {
    pub hash: String,
    pub codename: String,
}

impl Clone for Auth {
    fn clone(&self) -> (r: Self)
        ensures
            r.hash@ == self.hash@,
            r.codename@ == self.codename@,
    {
        Auth { hash: self.hash.clone(), codename: self.codename.clone() }
    }
}

impl Auth {
    pub fn new(hash: String, codename: String) -> (r: Self)
        ensures
            r.hash@ == hash@,
            r.codename@ == codename@,
    {
        Auth { hash, codename }
    }

    pub fn codename(&self) -> (r: &str)
        ensures
            r@ == self.codename@,
    {
        self.codename.as_str()
    }

    /// Whether the offered password verifies against the stored PHC-format
    /// hash `origin`; an unparsable hash never verifies.
    pub fn check(&self, origin: &str) -> (r: bool)
        ensures
            r == argon2_verified(self.hash@, origin@),
    {
        argon2_verify(self.hash.as_str(), origin)
    }
}

/// What the transport layer should do after one turn of a subscriber
/// session.
#[derive(Debug)]
pub enum FeedAction {
    /// Send this text to the subscriber.
    Send(String),
    /// Send nothing.
    Ignore,
    /// Send this goodbye, then close the connection.
    SendAndClose(String),
    /// Close the connection without a word.
    Close,
}

/// One subscriber session of the notification feed: unauthenticated until
/// a verified authentication message arrives, then forwarding each
/// announced code; the shutdown event and the subscriber's own goodbye
/// are terminal.
#[derive(Clone, Copy, Debug)]
pub struct FeedSession {
    pub registered: bool,
    pub closed: bool,
}

impl FeedSession {
    pub fn new() -> (r: Self)
        ensures
            !r.registered,
            !r.closed,
    {
        FeedSession { registered: false, closed: false }
    }

    /// The turn taken for one bus event: before authentication every event
    /// is dropped; afterwards an announced code is forwarded, and the
    /// shutdown event says goodbye and ends the session.
    pub fn on_event(&mut self, event: &BroadcastEvent) -> (r: FeedAction)
        requires
            !old(self).closed,
        ensures
            final(self).registered == old(self).registered,
            (match event@ {
                EventV::NewCode(code) => if old(self).registered {
                    (match r {
                        FeedAction::Send(t) => t@ == code,
                        _ => false,
                    }) && !final(self).closed
                } else {
                    r is Ignore && !final(self).closed
                },
                EventV::Exit => if old(self).registered {
                    (match r {
                        FeedAction::SendAndClose(t) => t@ == "close"@,
                        _ => false,
                    }) && final(self).closed
                } else {
                    r is Ignore && !final(self).closed
                },
            }),
    {
        if !self.registered {
            return FeedAction::Ignore;
        }
        match event {
            BroadcastEvent::NewCode(code) => FeedAction::Send(code.clone()),
            BroadcastEvent::Exit => {
                self.closed = true;
                FeedAction::SendAndClose("close".to_owned())
            },
        }
    }

    /// The turn taken for one inbound text from the subscriber: its
    /// goodbye ends the session; a verified authentication message
    /// registers it; anything else is dropped without a reply. `auth` is
    /// the already-decoded authentication message, where the text decodes
    /// as one; `origin` is the stored access-key hash.
    pub fn on_message(&mut self, text: &str, auth: Option<&Auth>, origin: &str) -> (r: FeedAction)
        requires
            !old(self).closed,
        ensures
            final(self).closed == (text@ == "close"@),
            text@ == "close"@ ==> r is Close && final(self).registered == old(self).registered,
            text@ != "close"@ ==> {
                &&& r is Ignore
                &&& final(self).registered == (old(self).registered || (match auth {
                    Option::Some(a) => argon2_verified(a.hash@, origin@),
                    Option::None => false,
                }))
            },
    {
        if str_eq(text, "close") {
            self.closed = true;
            return FeedAction::Close;
        }
        match auth {
            Option::Some(a) => {
                if a.check(origin) {
                    self.registered = true;
                }
            },
            Option::None => {},
        }
        FeedAction::Ignore
    }
}

/// The subscriber's address as the fronting proxy reports it.
#[derive(Debug)]
pub struct RealIP(pub String);

impl RealIP {
    pub fn new(s: String) -> (r: Self)
        ensures
            r.0@ == s@,
    {
        RealIP(s)
    }

    pub fn into_inner(self) -> (r: String)
        ensures
            r@ == self.0@,
    {
        self.0
    }
}

} // verus!
