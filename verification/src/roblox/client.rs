//! What every request goes through: the session cookie, the token against
//! forgery, backing off, and what a refusal means.
//!
//! Rate limiting is the defining constraint: a throttle affects the user's whole
//! account. So a client is patient, and it never mistakes a blank cookie for a
//! new login.

use crate::roblox::auth::{first_cookie, find_cookie};
use crate::roblox::error::Error;
use crate::text::{
    cat2, cat3, chars_of, opt_text, range_text, same, starts_with, starts_with_spec, trim, trimmed,
};
use vstd::prelude::*;
use vstd::string::*;
use vstd::utf8::encode_utf8;

verus! {

/// How long to wait before each further try after 429 or a server error, in
/// milliseconds.
pub const BACKOFF: [u64; 4] = [400, 1200, 3000, 7000];

/// How every session cookie begins.
pub const COOKIE_MARK: &'static str = "_|WARNING:-DO-NOT-SHARE-THIS";

/// The shortest session cookie, in bytes.
pub const COOKIE_LEN: usize = 200;

/// What is shown for a write that has to be completed on the website.
pub const CHALLENGE_TEXT: &'static str =
    "Roblox wants to verify this one itself. Open it on the website with the ↗ button and do it there.";

/// The text in a JSON document at `key`, the element `index` of the list there,
/// and its `field`; nothing where the document, or that path in it, does not
/// exist or is no text.
pub uninterp spec fn json_text(
    body: Seq<char>,
    key: Seq<char>,
    index: nat,
    field: Seq<char>,
) -> Option<Seq<char>>;

/// Reads `body` with `serde_json::from_str` and follows the path with
/// `Value::get`, `Value::as_array` and `Value::as_str`. The contract gives the
/// result a name: it depends on the arguments alone.
#[verifier::external_body]
pub(crate) fn json_text_at(body: &str, key: &str, index: usize, field: &str) -> (r: Option<String>)
    ensures
        opt_text(r) == json_text(body@, key@, index as nat, field@),
{
    let value: serde_json::Value = serde_json::from_str(body).ok()?;
    let text = value.get(key)?.as_array()?.get(index)?.get(field)?.as_str()?;
    Some(text.to_owned())
}

/// The message that was found in an answer, or else the beginning of the answer
/// itself.
pub open spec fn message_shown(found: Option<Seq<char>>, body: Seq<char>) -> Seq<char> {
    match found {
        Some(m) => m,
        None => {
            let t = trimmed(body);
            if t.len() == 0 {
                "no detail"@
            } else if t.len() > 160 {
                t.take(160)
            } else {
                t
            }
        },
    }
}

/// The message that was found in an answer, or else the beginning of the answer
/// itself, at most 160 characters of it.
pub fn message_or_body(found: Option<String>, body: &str) -> (r: String)
    ensures
        r@ == message_shown(opt_text(found), body@),
{
    match found {
        Some(m) => m,
        None => {
            let t = chars_of(trim(body).as_str());
            if t.len() == 0 {
                "no detail".to_owned()
            } else {
                let end: usize = if t.len() > 160 {
                    160
                } else {
                    t.len()
                };
                let r = range_text(&t, 0, end);
                assert(r@ =~= message_shown(None, body@));
                r
            }
        },
    }
}

/// What the service says went wrong.
pub open spec fn service_message(body: Seq<char>) -> Seq<char> {
    message_shown(json_text(body, "errors"@, 0, "message"@), body)
}

/// Errors come back as `{"errors":[{"code":0,"message":"..."}]}`. Showing that
/// message beats showing a status code.
pub fn first_message(body: &str) -> (r: String)
    ensures
        r@ == service_message(body@),
{
    message_or_body(json_text_at(body, "errors", 0, "message"), body)
}

/// The seconds a request may take: what was asked for, within 5 and 120.
pub fn timeout_secs(secs: u32) -> (r: u64)
    ensures
        r == (if secs < 5 { 5u32 } else if secs > 120 { 120u32 } else { secs }),
{
    if secs < 5 {
        5
    } else if secs > 120 {
        120
    } else {
        secs as u64
    }
}

/// The credentials a client carries.
pub struct Client {
    pub cookie: Option<String>,
    pub csrf: Option<String>,
    /// A cookie the service handed back in mid-session, waiting to be stored.
    pub refreshed: Option<String>,
}

/// The value is unmistakably a session cookie. The service also sends the cookie
/// to *clear* it, and that must not overwrite a good login.
pub open spec fn is_session_cookie(v: Seq<char>) -> bool {
    starts_with_spec(v, COOKIE_MARK@) && encode_utf8(v).len() >= COOKIE_LEN
}

/// The cookie that an answer re-issues, if it is a session cookie and not the
/// one in use.
pub open spec fn rotation(lines: Seq<String>, current: Option<String>) -> Option<Seq<char>> {
    match first_cookie(lines) {
        Some(v) => if is_session_cookie(v) && opt_text(current) != Some(v) {
            Some(v)
        } else {
            None
        },
        None => None,
    }
}

/// What the answer to a request means for what happens next.
pub enum Next {
    /// Send it again at once, with the new token.
    Again,
    /// Wait so many milliseconds and send it again.
    After(u64),
    Fail(Error),
    Done,
}

/// The answer to a request, as far as it decides what happens next.
pub struct Answer {
    pub status: u16,
    /// The status in words, such as `404 Not Found`.
    pub shown: String,
    pub csrf: Option<String>,
    /// The answer carries a challenge.
    pub challenged: bool,
    pub body: String,
    pub set_cookies: Vec<String>,
}

pub open spec fn is_server_error(status: u16) -> bool {
    500 <= status < 600
}

/// The answer is a refusal that carries a token which was not tried yet.
pub open spec fn token_retry(csrf: Option<String>, attempt: nat, a: Answer) -> bool {
    a.status == 403 && a.csrf is Some && (csrf is None || attempt == 0)
}

/// What comes next, exactly.
pub open spec fn next_is(
    next: Next,
    csrf: Option<String>,
    attempt: nat,
    url: Seq<char>,
    a: Answer,
) -> bool {
    if token_retry(csrf, attempt, a) {
        next is Again
    } else if a.status == 403 {
        if a.challenged {
            next matches Next::Fail(Error::Challenge(e)) && e@ == CHALLENGE_TEXT@
        } else {
            next matches Next::Fail(Error::Api(e)) && e@ == service_message(a.body@)
        }
    } else if a.status == 401 {
        next matches Next::Fail(e) && e is Expired
    } else if a.status == 429 || is_server_error(a.status) {
        if attempt < 4 {
            next matches Next::After(ms) && ms == BACKOFF@[attempt as int]
        } else if a.status == 429 {
            next matches Next::Fail(e) && e is RateLimited
        } else {
            next matches Next::Fail(Error::Api(e)) && e@ == a.shown@ + " for "@ + url
        }
    } else if !(200 <= a.status < 300) {
        next matches Next::Fail(Error::Api(e)) && e@ == a.shown@ + ": "@ + service_message(a.body@)
    } else {
        next is Done
    }
}

impl Client {
    pub fn new() -> (c: Client)
        ensures
            c.cookie is None,
            c.csrf is None,
            c.refreshed is None,
    {
        Client { cookie: None, csrf: None, refreshed: None }
    }

    /// Switch the account. The token and any pending refresh belonged to the one
    /// before.
    pub fn set_cookie(&mut self, cookie: Option<String>)
        ensures
            final(self).cookie == cookie,
            final(self).csrf is None,
            final(self).refreshed is None,
    {
        self.cookie = cookie;
        self.csrf = None;
        self.refreshed = None;
    }

    /// Hand over a re-issued cookie, once, to be stored.
    pub fn take_refreshed_cookie(&mut self) -> (r: Option<String>)
        ensures
            r == old(self).refreshed,
            final(self).refreshed is None,
            final(self).cookie == old(self).cookie,
            final(self).csrf == old(self).csrf,
    {
        self.refreshed.take()
    }

    /// Adopt a session cookie that came back on an answer. The service sends one
    /// when it has replaced the old value.
    pub fn absorb_refreshed_cookie(&mut self, set_cookies: &Vec<String>)
        ensures
            final(self).csrf == old(self).csrf,
            match rotation(set_cookies@, old(self).cookie) {
                Some(v) => opt_text(final(self).cookie) == Some(v) && opt_text(
                    final(self).refreshed,
                ) == Some(v),
                None => final(self).cookie == old(self).cookie && final(self).refreshed == old(self).refreshed,
            },
    {
        let fresh = match find_cookie(set_cookies) {
            Some(v) => v,
            None => {
                return ;
            },
        };
        if !starts_with(fresh.as_str(), COOKIE_MARK) || fresh.as_str().as_bytes().len()
            < COOKIE_LEN {
            return ;
        }
        let echo = match &self.cookie {
            Some(c) => same(c.as_str(), fresh.as_str()),
            None => false,
        };
        if echo {
            return ;
        }
        self.cookie = Some(fresh.clone());
        self.refreshed = Some(fresh);
    }

    pub fn has_cookie(&self) -> (r: bool)
        ensures
            r == self.cookie is Some,
    {
        self.cookie.is_some()
    }

    /// The `Cookie` header of a request.
    pub fn cookie_header(&self) -> (r: Option<String>)
        ensures
            opt_text(r) == (match self.cookie {
                Some(c) => Some(".ROBLOSECURITY="@ + c@),
                None => None,
            }),
    {
        match &self.cookie {
            Some(c) => Some(cat2(".ROBLOSECURITY=", c.as_str())),
            None => None,
        }
    }

    /// Decide what follows the answer to a request. `attempt` counts the tries so
    /// far, and is one more where there is to be another.
    pub fn send(&mut self, attempt: &mut usize, url: &str, a: &Answer) -> (next: Next)
        requires
            *old(attempt) < usize::MAX,
        ensures
            next_is(next, old(self).csrf, *old(attempt) as nat, url@, *a),
            *final(attempt) == *old(attempt) + (if next is Again || next is After {
                1int
            } else {
                0
            }),
            a.status == 403 && a.csrf is Some ==> opt_text(final(self).csrf) == opt_text(a.csrf),
            !(a.status == 403 && a.csrf is Some) ==> final(self).csrf == old(self).csrf,
            next is Done ==> match rotation(a.set_cookies@, old(self).cookie) {
                Some(v) => opt_text(final(self).cookie) == Some(v) && opt_text(
                    final(self).refreshed,
                ) == Some(v),
                None => final(self).cookie == old(self).cookie && final(self).refreshed == old(self).refreshed,
            },
            !(next is Done) ==> final(self).cookie == old(self).cookie && final(self).refreshed
                == old(self).refreshed,
    {
        if a.status == 403 {
            match &a.csrf {
                Some(token) => {
                    let had_one = self.csrf.is_some();
                    self.csrf = Some(token.clone());
                    if !had_one || *attempt == 0 {
                        *attempt = *attempt + 1;
                        return Next::Again;
                    }
                },
                None => {},
            }
            return Next::Fail(
                if a.challenged {
                    Error::Challenge(CHALLENGE_TEXT.to_owned())
                } else {
                    Error::Api(first_message(a.body.as_str()))
                },
            );
        }
        if a.status == 401 {
            return Next::Fail(Error::Expired);
        }
        if a.status == 429 || (500 <= a.status && a.status < 600) {
            if *attempt < 4 {
                let wait: u64 = BACKOFF[*attempt];
                *attempt = *attempt + 1;
                return Next::After(wait);
            }
            return Next::Fail(
                if a.status == 429 {
                    Error::RateLimited
                } else {
                    Error::Api(cat3(a.shown.as_str(), " for ", url))
                },
            );
        }
        if !(200 <= a.status && a.status < 300) {
            return Next::Fail(
                Error::Api(cat3(a.shown.as_str(), ": ", first_message(a.body.as_str()).as_str())),
            );
        }
        self.absorb_refreshed_cookie(&a.set_cookies);
        Next::Done
    }

    /// Decide what follows the answer to a request whose answer is in its
    /// headers. There is one further try, with a token.
    pub fn post_with_headers(&mut self, attempt: u32, url: &str, a: &Answer) -> (next: Next)
        ensures
            if attempt == 0 && a.status == 403 && a.csrf is Some {
                next is Again
            } else if attempt >= 2 {
                next matches Next::Fail(Error::Api(e)) && e@ == url@
                    + " kept refusing the CSRF token"@
            } else if a.status == 401 {
                next matches Next::Fail(e) && e is Expired
            } else if !(200 <= a.status < 300) {
                next matches Next::Fail(Error::Api(e)) && e@ == a.shown@ + " for "@ + url@
            } else {
                next is Done
            },
            next is Again ==> opt_text(final(self).csrf) == opt_text(a.csrf),
            !(next is Again) ==> final(self).csrf == old(self).csrf,
            next is Done ==> match rotation(a.set_cookies@, old(self).cookie) {
                Some(v) => opt_text(final(self).cookie) == Some(v) && opt_text(
                    final(self).refreshed,
                ) == Some(v),
                None => final(self).cookie == old(self).cookie && final(self).refreshed == old(self).refreshed,
            },
            !(next is Done) ==> final(self).cookie == old(self).cookie && final(self).refreshed
                == old(self).refreshed,
    {
        if attempt == 0 && a.status == 403 {
            match &a.csrf {
                Some(token) => {
                    self.csrf = Some(token.clone());
                    return Next::Again;
                },
                None => {},
            }
        }
        if attempt >= 2 {
            return Next::Fail(Error::Api(cat2(url, " kept refusing the CSRF token")));
        }
        if a.status == 401 {
            return Next::Fail(Error::Expired);
        }
        if !(200 <= a.status && a.status < 300) {
            return Next::Fail(Error::Api(cat3(a.shown.as_str(), " for ", url)));
        }
        self.absorb_refreshed_cookie(&a.set_cookies);
        Next::Done
    }
}

/// What a plain download came to, by its status.
pub fn fetched(status: u16, shown: &str, url: &str) -> (r: std::result::Result<(), Error>)
    ensures
        match r {
            Ok(()) => 200 <= status < 300,
            Err(Error::Api(e)) => !(200 <= status < 300) && e@ == shown@ + " for "@ + url@,
            Err(_) => false,
        },
{
    if 200 <= status && status < 300 {
        Ok(())
    } else {
        Err(Error::Api(cat3(shown, " for ", url)))
    }
}

/// How many more tries a request may still get.
pub open spec fn tries_left(csrf: Option<String>, attempt: nat) -> nat {
    ((if attempt < 4 { (4 - attempt) as nat } else { 0nat }) + (if csrf is None {
        1nat
    } else {
        0nat
    })) as nat
}

/// A request comes to an end: whatever the service answers, each further try
/// uses up one of at most five.
pub proof fn law_a_request_comes_to_an_end(
    next: Next,
    before: Option<String>,
    after: Option<String>,
    attempt: nat,
    url: Seq<char>,
    a: Answer,
)
    requires
        next_is(next, before, attempt, url, a),
        next is Again || next is After,
        a.status == 403 && a.csrf is Some ==> opt_text(after) == opt_text(a.csrf),
        !(a.status == 403 && a.csrf is Some) ==> after == before,
    ensures
        tries_left(after, attempt + 1) < tries_left(before, attempt),
        tries_left(before, attempt) <= 5,
{
}

/// An answer that clears the cookie, or echoes the one in use, is no rotation.
pub proof fn law_blank_and_echoed_cookies_are_ignored(lines: Seq<String>, current: Option<String>)
    ensures
        first_cookie(lines) is None ==> rotation(lines, current) is None,
        first_cookie(lines) matches Some(v) && (!is_session_cookie(v) || opt_text(current) == Some(
            v,
        )) ==> rotation(lines, current) is None,
{
}

/// What follows an answer, status by status: a success is the end, a lost session is
/// signed in again, a throttle or a failing service is waited for longer and longer,
/// a refusal with a fresh token is tried again, and everything else is shown with the
/// service's own words.
pub proof fn law_what_follows_an_answer(
    next: Next,
    csrf: Option<String>,
    attempt: nat,
    url: Seq<char>,
    a: Answer,
)
    requires
        next_is(next, csrf, attempt, url, a),
    ensures
        next is Done <==> 200 <= a.status < 300,
        next is Again <==> a.status == 403 && a.csrf is Some && (csrf is None || attempt == 0),
        next is After <==> attempt < 4 && (a.status == 429 || 500 <= a.status < 600),
        next matches Next::After(ms) ==> ms == (if attempt == 0 {
            400u64
        } else if attempt == 1 {
            1200
        } else if attempt == 2 {
            3000
        } else {
            7000
        }),
        a.status == 401 ==> (next matches Next::Fail(e) && e is Expired),
        a.status == 429 && attempt >= 4 ==> (next matches Next::Fail(e) && e is RateLimited),
        500 <= a.status < 600 && attempt >= 4 ==> (next matches Next::Fail(Error::Api(e)) && e@
            == a.shown@ + " for "@ + url),
        a.status == 403 && !(next is Again) && a.challenged ==> (next matches Next::Fail(
            Error::Challenge(e),
        )
            && e@
            == "Roblox wants to verify this one itself. Open it on the website with the ↗ button and do it there."@),
        a.status == 403 && !(next is Again) && !a.challenged ==> (next matches Next::Fail(
            Error::Api(e),
        ) && e@ == service_message(a.body@)),
        a.status < 200 || 300 <= a.status < 401 || a.status == 402 || 404 <= a.status < 429
            || 430 <= a.status < 500 || a.status >= 600 ==> (next matches Next::Fail(Error::Api(e))
            && e@ == a.shown@ + ": "@ + service_message(a.body@)),
{
}

/// The message of an answer is the first of its errors; without one it is the answer
/// itself, cut to 160 characters, and an empty answer has no detail.
pub proof fn law_messages_shown(body: Seq<char>)
    ensures
        json_text(body, "errors"@, 0, "message"@) matches Some(m) ==> service_message(body) == m,
        json_text(body, "errors"@, 0, "message"@) is None ==> {
            let t = trimmed(body);
            &&& t.len() == 0 ==> service_message(body) == "no detail"@
            &&& 0 < t.len() <= 160 ==> service_message(body) == t
            &&& t.len() > 160 ==> service_message(body) == t.take(160)
        },
{
    let t = trimmed(body);
    if t.len() == 160 {
        assert(t.take(160) =~= t);
    }
}

/// A cookie replaces the one in use only where it is a whole session cookie, with the
/// warning that each begins with and two hundred bytes or more, and another than the
/// one in use.
pub proof fn law_only_session_cookies_replace_one(lines: Seq<String>, current: Option<String>)
    ensures
        match rotation(lines, current) {
            Some(v) => {
                &&& first_cookie(lines) == Some(v)
                &&& starts_with_spec(v, "_|WARNING:-DO-NOT-SHARE-THIS"@)
                &&& encode_utf8(v).len() >= 200
                &&& opt_text(current) != Some(v)
            },
            None => first_cookie(lines) matches Some(v) ==> !starts_with_spec(
                v,
                "_|WARNING:-DO-NOT-SHARE-THIS"@,
            ) || encode_utf8(v).len() < 200 || opt_text(current) == Some(v),
        },
{
}

} // verus!
