//! Signing in, and picking up a session that was saved.

use crate::roblox::auth::{LoginCode, LoginStatus, Session, CONFIRM_BASE, POLL_INTERVAL};
use crate::roblox::error::Error;
use crate::roblox::models::AuthedUser;
use crate::text::{cat2, cat3, same};
use vstd::prelude::*;
use vstd::utf8::{encode_utf8, is_char_boundary};

verus! {

#[derive(Debug, Clone, Copy, PartialEq, Eq, Structural)]
pub enum SignInPhase {
    Idle,
    Requesting,
    Waiting,
    Approved,
    Failed,
}

/// How long a code is waited for, in seconds.
pub const BUDGET: u64 = 360;

/// A sign-in by quick code: ask for a code, show it, and poll until the user
/// has approved it elsewhere.
pub struct SignIn {
    pub phase: SignInPhase,
    /// The code as it is shown.
    pub code: String,
    pub error: String,
    pub attempt: Option<LoginCode>,
    /// How long the code has been waited for, in seconds.
    pub waited: u64,
}

/// What to do after a poll.
#[derive(Debug)]
pub enum Polled {
    Again,
    /// The code was approved: redeem it, for this account.
    Redeem(Option<String>),
    Over,
}

impl SignIn {
    pub open spec fn wf(&self) -> bool {
        self.waited <= BUDGET + POLL_INTERVAL
    }

    pub fn new() -> (s: SignIn)
        ensures
            s.wf(),
            s.phase == SignInPhase::Idle,
            s.code@.len() == 0,
            s.error@.len() == 0,
            s.attempt is None,
            s.waited == 0,
    {
        SignIn {
            phase: SignInPhase::Idle,
            code: String::new(),
            error: String::new(),
            attempt: None,
            waited: 0,
        }
    }

    /// Begin: a code is to be asked for.
    pub fn start(&mut self)
        requires
            old(self).wf(),
        ensures
            final(self).wf(),
            final(self).phase == SignInPhase::Requesting,
            final(self).error@.len() == 0,
            final(self).code == old(self).code,
            final(self).attempt == old(self).attempt,
            final(self).waited == old(self).waited,
    {
        self.phase = SignInPhase::Requesting;
        self.error = String::new();
    }

    /// A code has come, or has not.
    pub fn created(&mut self, result: std::result::Result<LoginCode, Error>)
        requires
            old(self).wf(),
            result matches Ok(c) ==> encode_utf8(c.code@).len() == 6 ==> is_char_boundary(
                encode_utf8(c.code@),
                3,
            ),
        ensures
            final(self).wf(),
            match result {
                Ok(c) => final(self).phase == SignInPhase::Waiting && final(self).code@
                    == c.display() && final(self).attempt == Some(c) && final(self).waited == 0
                    && final(self).error == old(self).error,
                Err(e) => final(self).phase == SignInPhase::Failed && final(self).error@
                    == "Could not reach Roblox: "@ + e.words() && final(self).attempt == old(
                    self,
                ).attempt && final(self).code == old(self).code && final(self).waited == old(
                    self,
                ).waited,
            },
    {
        match result {
            Ok(c) => {
                self.code = c.display_code();
                self.phase = SignInPhase::Waiting;
                self.attempt = Some(c);
                self.waited = 0;
            },
            Err(e) => {
                self.phase = SignInPhase::Failed;
                self.error = cat2("Could not reach Roblox: ", e.message().as_str());
            },
        }
    }

    fn fail(&mut self, words: String)
        ensures
            *final(self) == (SignIn { phase: SignInPhase::Failed, error: words, ..*old(self) }),
    {
        self.phase = SignInPhase::Failed;
        self.error = words;
    }

    /// One interval has passed. True where the service is to be polled now; a
    /// code that was waited for too long has expired.
    pub fn tick(&mut self) -> (poll: bool)
        requires
            old(self).wf(),
            old(self).waited <= BUDGET,
        ensures
            final(self).wf(),
            final(self).waited == old(self).waited + POLL_INTERVAL,
            poll == (final(self).waited <= BUDGET),
            final(self).code == old(self).code,
            final(self).attempt == old(self).attempt,
            poll ==> final(self).phase == old(self).phase && final(self).error == old(self).error,
            !poll ==> final(self).phase == SignInPhase::Failed && final(self).error@
                == "That code expired. Get a new one to try again."@,
    {
        self.waited = self.waited + POLL_INTERVAL;
        if self.waited > BUDGET {
            self.fail("That code expired. Get a new one to try again.".to_owned());
            false
        } else {
            true
        }
    }

    /// The service was polled. A poll that failed is tried again.
    pub fn polled(
        &mut self,
        result: std::result::Result<(LoginStatus, Option<String>), Error>,
    ) -> (next: Polled)
        requires
            old(self).wf(),
        ensures
            final(self).wf(),
            final(self).code == old(self).code,
            final(self).attempt == old(self).attempt,
            final(self).waited == old(self).waited,
            match result {
                Ok((LoginStatus::Pending, _)) => next is Again && *final(self) == *old(self),
                Ok((LoginStatus::Cancelled, _)) => next is Over && final(self).phase
                    == SignInPhase::Failed && final(self).error@ == "That sign-in was declined."@,
                Ok((LoginStatus::Validated, name)) => next == Polled::Redeem(name) && *final(self)
                    == *old(self),
                Err(_) => next is Again && *final(self) == *old(self),
            },
    {
        match result {
            Ok((status, name)) => match status {
                LoginStatus::Pending => Polled::Again,
                LoginStatus::Cancelled => {
                    self.fail("That sign-in was declined.".to_owned());
                    Polled::Over
                },
                LoginStatus::Validated => Polled::Redeem(name),
            },
            Err(_) => Polled::Again,
        }
    }

    /// The code was redeemed for a session, or was not. Gives the cookie to sign
    /// in with.
    pub fn redeemed(&mut self, result: std::result::Result<Session, Error>) -> (cookie: Option<
        String,
    >)
        requires
            old(self).wf(),
        ensures
            final(self).wf(),
            final(self).code == old(self).code,
            final(self).attempt == old(self).attempt,
            final(self).waited == old(self).waited,
            match result {
                Ok(s) => cookie == Some(s.cookie) && *final(self) == *old(self),
                Err(e) => cookie is None && final(self).phase == SignInPhase::Failed
                    && final(self).error@ == "Approved, but the sign-in did not complete: "@
                    + e.words(),
            },
    {
        match result {
            Ok(s) => Some(s.cookie),
            Err(e) => {
                self.fail(
                    cat2("Approved, but the sign-in did not complete: ", e.message().as_str()),
                );
                None
            },
        }
    }

    /// The session was asked who it is.
    pub fn identified(&mut self, result: &std::result::Result<AuthedUser, Error>) -> (entered: bool)
        requires
            old(self).wf(),
        ensures
            final(self).wf(),
            final(self).code == old(self).code,
            final(self).waited == old(self).waited,
            entered == (*result is Ok),
            match *result {
                Ok(_) => final(self).phase == SignInPhase::Approved && final(self).attempt is None
                    && final(self).error == old(self).error,
                Err(e) => final(self).phase == SignInPhase::Failed && final(self).attempt == old(
                    self,
                ).attempt && final(self).error@ == "Signed in, but Roblox rejected the session: "@
                    + e.words(),
            },
    {
        match result {
            Ok(_) => {
                self.phase = SignInPhase::Approved;
                self.attempt = None;
                true
            },
            Err(e) => {
                self.fail(
                    cat2("Signed in, but Roblox rejected the session: ", e.message().as_str()),
                );
                false
            },
        }
    }

    /// Give the sign-in up.
    pub fn cancel(&mut self)
        requires
            old(self).wf(),
        ensures
            final(self).wf(),
            final(self).phase == SignInPhase::Idle,
            final(self).code@.len() == 0,
            final(self).attempt is None,
            final(self).error == old(self).error,
            final(self).waited == old(self).waited,
    {
        self.attempt = None;
        self.phase = SignInPhase::Idle;
        self.code = String::new();
    }

    /// Sign in with another account.
    pub fn add_account(&mut self)
        requires
            old(self).wf(),
        ensures
            final(self).wf(),
            *final(self) == (SignIn { phase: SignInPhase::Idle, ..*old(self) }),
    {
        self.phase = SignInPhase::Idle;
    }

    /// The page on which the code is approved.
    pub fn browser_url(&self) -> (r: String)
        ensures
            r@ == (match self.attempt {
                Some(c) => CONFIRM_BASE@ + "?code="@ + c.code@,
                None => CONFIRM_BASE@,
            }),
    {
        match &self.attempt {
            Some(c) => c.confirm_url(),
            None => CONFIRM_BASE.to_owned(),
        }
    }
}

/// The pauses before each try to pick up a saved session, in seconds. Patient on
/// purpose: a desktop is routinely up before its network is.
pub const RESTORE_WAITS: [u64; 4] = [0, 2, 5, 15];

/// What came of a try to pick up a saved session.
#[derive(Debug)]
pub enum Restored {
    Enter(AuthedUser),
    /// The session is over, with what is said of it.
    SignedOut(String),
    /// Try again, after this many seconds.
    Again(u64),
    /// No more tries, with what is said of it.
    GaveUp(String),
}

/// The tries to pick up a saved session.
pub struct Restore {
    pub attempt: usize,
}

impl Restore {
    pub open spec fn wf(&self) -> bool {
        self.attempt < 4
    }

    pub fn new() -> (r: Restore)
        ensures
            r.attempt == 0,
            r.wf(),
    {
        Restore { attempt: 0 }
    }

    /// Take in the answer to one try. Only a session that has expired is signed
    /// out. Anything else, no network or a throttle, says nothing about the
    /// login, and the saved session is left where it is.
    pub fn answer(&mut self, result: std::result::Result<AuthedUser, Error>) -> (r: Restored)
        requires
            old(self).wf(),
        ensures
            final(self).wf(),
            match result {
                Ok(u) => r == Restored::Enter(u) && final(self).attempt == old(self).attempt,
                Err(Error::Expired) => final(self).attempt == old(self).attempt && (
                r matches Restored::SignedOut(words) && words@
                    == "Roblox ended this session, so signing in again is needed."@),
                Err(e) => if old(self).attempt < 3 {
                    &&& final(self).attempt == old(self).attempt + 1
                    &&& r == Restored::Again(RESTORE_WAITS@[final(self).attempt as int])
                } else {
                    &&& final(self).attempt == old(self).attempt
                    &&& r matches Restored::GaveUp(words)
                    &&& words@ == "Could not reach Roblox ("@ + e.words()
                        + "). Your saved login is still here — restart RoJoin once you are back online."@
                },
            },
    {
        match result {
            Ok(u) => Restored::Enter(u),
            Err(Error::Expired) => Restored::SignedOut(
                "Roblox ended this session, so signing in again is needed.".to_owned(),
            ),
            Err(e) => if self.attempt < 3 {
                self.attempt = self.attempt + 1;
                Restored::Again(RESTORE_WAITS[self.attempt])
            } else {
                Restored::GaveUp(
                    cat3(
                        "Could not reach Roblox (",
                        e.message().as_str(),
                        "). Your saved login is still here — restart RoJoin once you are back online.",
                    ),
                )
            },
        }
    }
}

/// The cookie of the game's own account where it is another than ours: that
/// account is to be identified, and the user warned. A launch rewrites it.
pub fn check_client_account(mine: &Option<String>, theirs: Option<String>) -> (r: Option<String>)
    ensures
        r == (match (*mine, theirs) {
            (Some(m), Some(t)) => if m@ == t@ {
                None
            } else {
                theirs
            },
            _ => None,
        }),
{
    match (mine, theirs) {
        (Some(m), Some(t)) => if same(m.as_str(), t.as_str()) {
            None
        } else {
            Some(t)
        },
        _ => None,
    }
}

/// A cookie that the service has issued anew is stored for the active account.
/// Without one there is nowhere to store it.
pub fn persist_refreshed_cookie(refreshed: Option<String>, active: &Option<String>) -> (r: Option<
    (String, String),
>)
    ensures
        match (r, refreshed, *active) {
            (Some(s), Some(c), Some(id)) => s.0@ == id@ && s.1 == c,
            (None, Some(_), Some(_)) => false,
            (Some(_), _, _) => false,
            (None, _, _) => true,
        },
{
    match (refreshed, active) {
        (Some(c), Some(id)) => Some((id.clone(), c)),
        _ => None,
    }
}

/// How long a code is waited for, and how long is waited before each try to pick up a
/// session that was saved.
pub proof fn law_how_long_is_waited()
    ensures
        BUDGET == 360,
        RESTORE_WAITS@ == seq![0u64, 2u64, 5u64, 15u64],
{
    assert(RESTORE_WAITS@ =~= seq![0u64, 2u64, 5u64, 15u64]);
}

} // verus!
