//! Signing in with a code that is approved on another device.
//!
//! It is a real browser login that needs no browser in this process:
//!   1. `login/create` gives a code;
//!   2. the user confirms it in their own browser or the mobile app;
//!   3. `login/status` is polled until it is approved or declined;
//!   4. `v2/login` exchanges the approved code for a session cookie.

use crate::json::{json_quote, quoted};
use crate::roblox::error::Error;
use crate::text::{
    cat2, cat3, cat5, chars_of, opt_text, range_text, run_until, same, strip_prefix, trim,
    after_prefix, is_space_spec, lemma_trimmed, lemma_trimmed_is, lemma_until, lemma_until_is,
    occurs, occurs_at, trimmed, until,
};
use vstd::prelude::*;
use vstd::string::*;
use vstd::utf8::{decode_utf8, encode_utf8, is_char_boundary};

verus! {

pub const CREATE_URL: &'static str =
    "https://apis.roblox.com/auth-token-service/v1/login/create";

pub const STATUS_URL: &'static str =
    "https://apis.roblox.com/auth-token-service/v1/login/status";

pub const LOGIN_URL: &'static str = "https://auth.roblox.com/v2/login";

pub const CONFIRM_BASE: &'static str = "https://www.roblox.com/crossdevicelogin/ConfirmCode";

/// How often to ask whether the user has approved yet, in seconds. The endpoint
/// is rate limited.
pub const POLL_INTERVAL: u64 = 2;

#[derive(Debug, Clone)]
pub struct LoginCode {
    pub code: String,
    pub private_key: String,
    pub expiration_time: String,
    /// The path of a QR picture, relative to the token service.
    pub image_path: String,
}

impl LoginCode {
    /// The page the user opens to approve.
    pub fn confirm_url(&self) -> (r: String)
        ensures
            r@ == CONFIRM_BASE@ + "?code="@ + self.code@,
    {
        cat3(CONFIRM_BASE, "?code=", self.code.as_str())
    }

    pub fn qr_url(&self) -> (r: String)
        ensures
            r@ == "https://apis.roblox.com/auth-token-service"@ + self.image_path@,
    {
        cat2("https://apis.roblox.com/auth-token-service", self.image_path.as_str())
    }

    /// The code in two halves, where it has six bytes: `7FPRR3` reads far better
    /// as `7FP RR3` when someone is copying it onto a phone.
    pub open spec fn display(&self) -> Seq<char> {
        let b = encode_utf8(self.code@);
        if b.len() == 6 {
            decode_utf8(b.subrange(0, 3)) + " "@ + decode_utf8(b.subrange(3, 6))
        } else {
            self.code@
        }
    }

    /// The code as it is shown.
    pub fn display_code(&self) -> (r: String)
        requires
            encode_utf8(self.code@).len() == 6 ==> is_char_boundary(encode_utf8(self.code@), 3),
        ensures
            r@ == self.display(),
    {
        let c = self.code.as_str();
        if c.as_bytes().len() == 6 {
            let (a, b) = c.split_at(3);
            proof {
                vstd::utf8::encode_utf8_decode_utf8(a@);
                vstd::utf8::encode_utf8_decode_utf8(b@);
            }
            cat3(a, " ", b)
        } else {
            self.code.clone()
        }
    }
}

#[derive(Debug, Clone, Copy, PartialEq, Eq, Structural)]
pub enum LoginStatus {
    /// Created but not yet approved: keep polling.
    Pending,
    /// Approved: the code can be redeemed.
    Validated,
    /// The user rejected it, or it timed out.
    Cancelled,
}

/// What the service says of a code.
#[derive(Debug)]
pub struct StatusResponse {
    pub status: String,
    pub account_name: Option<String>,
}

/// A completed sign-in.
#[derive(Debug, Clone)]
pub struct Session {
    pub cookie: String,
    pub account_name: Option<String>,
}

pub open spec fn status_of(text: Seq<char>) -> LoginStatus {
    if text == "Validated"@ {
        LoginStatus::Validated
    } else if text == "Cancelled"@ {
        LoginStatus::Cancelled
    } else {
        LoginStatus::Pending
    }
}

/// Read a status. One that is not known yet means to keep polling.
pub fn login_status(text: &str) -> (r: LoginStatus)
    ensures
        r == status_of(text@),
{
    if same(text, "Validated") {
        LoginStatus::Validated
    } else if same(text, "Cancelled") {
        LoginStatus::Cancelled
    } else {
        LoginStatus::Pending
    }
}

pub open spec fn is_success(status: u16) -> bool {
    200 <= status < 300
}

/// What `login/create` answered, by its status.
pub fn created(status: u16, shown: &str) -> (r: std::result::Result<(), Error>)
    ensures
        match r {
            Ok(()) => is_success(status),
            Err(Error::Api(e)) => !is_success(status) && e@ == "login/create returned "@ + shown@,
            Err(_) => false,
        },
{
    if 200 <= status && status < 300 {
        Ok(())
    } else {
        Err(Error::Api(cat2("login/create returned ", shown)))
    }
}

/// Whether a refusal asks for another try with the token it carries. It is asked
/// once: the token can rotate in mid-session.
pub fn wants_token(status: u16) -> (r: bool)
    ensures
        r == (status == 403),
{
    status == 403
}

/// Remember the token of an answer that carries one.
pub fn capture_csrf(token: Option<String>, csrf: &mut Option<String>)
    ensures
        *final(csrf) == (if token is Some { token } else { *old(csrf) }),
{
    match token {
        Some(t) => {
            *csrf = Some(t);
        },
        None => {},
    }
}

/// Whether a request is sent once more: after a first refusal, with the token that
/// it carries or else the one at hand.
pub fn next_try(
    tried: bool,
    status: u16,
    token: Option<String>,
    csrf: &mut Option<String>,
) -> (again: bool)
    ensures
        again == (!tried && status == 403),
        *final(csrf) == (if again && token is Some {
            token
        } else {
            *old(csrf)
        }),
{
    if tried || !wants_token(status) {
        return false;
    }
    capture_csrf(token, csrf);
    true
}

/// What a poll came to, by the status of its answer and, where that was a
/// success, by what it said.
pub fn poll(status: u16, shown: &str, parsed: StatusResponse) -> (r: std::result::Result<
    (LoginStatus, Option<String>),
    Error,
>)
    ensures
        match r {
            Ok((s, name)) => is_success(status) && s == status_of(parsed.status@) && name
                == parsed.account_name,
            Err(Error::RateLimited) => status == 429,
            Err(Error::Api(e)) => status != 429 && !is_success(status) && e@
                == "login/status returned "@ + shown@,
            Err(_) => false,
        },
{
    if status == 429 {
        return Err(Error::RateLimited);
    }
    if !(200 <= status && status < 300) {
        return Err(Error::Api(cat2("login/status returned ", shown)));
    }
    Ok((login_status(parsed.status.as_str()), parsed.account_name))
}

/// The session cookie that a `Set-Cookie` line sets: the value of
/// `.ROBLOSECURITY` up to the first semicolon, unless it is empty.
pub open spec fn cookie_set(line: Seq<char>) -> Option<Seq<char>> {
    match after_prefix(trimmed(line.take(until(line, ';') as int)), ".ROBLOSECURITY="@) {
        Some(v) => if v.len() > 0 {
            Some(v)
        } else {
            None
        },
        None => None,
    }
}

/// The session cookie that a `Set-Cookie` line sets.
pub fn extract_roblosecurity(header: &str) -> (r: Option<String>)
    ensures
        opt_text(r) == cookie_set(header@),
{
    let v = chars_of(header);
    assert(v@.skip(0) =~= v@);
    let k: usize = run_until(&v, ';', 0);
    let first = range_text(&v, 0, k);
    assert(first@ =~= header@.take(until(header@, ';') as int));
    match strip_prefix(trim(first.as_str()).as_str(), ".ROBLOSECURITY=") {
        Some(value) => if value.as_str().is_empty() {
            None
        } else {
            Some(value)
        },
        None => None,
    }
}

/// The first session cookie that some of the lines sets.
pub open spec fn first_cookie(lines: Seq<String>) -> Option<Seq<char>>
    decreases lines.len(),
{
    if lines.len() == 0 {
        None
    } else if cookie_set(lines[0]@) is Some {
        cookie_set(lines[0]@)
    } else {
        first_cookie(lines.skip(1))
    }
}

/// The first session cookie that some of the lines sets.
pub fn find_cookie(lines: &Vec<String>) -> (r: Option<String>)
    ensures
        opt_text(r) == first_cookie(lines@),
{
    let mut i: usize = 0;
    assert(lines@.skip(0) =~= lines@);
    while i < lines.len()
        invariant
            i <= lines.len(),
            first_cookie(lines@) == first_cookie(lines@.skip(i as int)),
        decreases lines.len() - i,
    {
        assert(lines@.skip(i as int)[0] == lines@[i as int]);
        assert(lines@.skip(i as int).skip(1) =~= lines@.skip(i as int + 1));
        match extract_roblosecurity(lines[i].as_str()) {
            Some(c) => {
                return Some(c);
            },
            None => {},
        }
        i = i + 1;
    }
    None
}

/// What redeeming an approved code came to.
pub fn redeem(
    status: u16,
    shown: &str,
    set_cookies: &Vec<String>,
    account_name: Option<String>,
) -> (r: std::result::Result<Session, Error>)
    ensures
        match r {
            Ok(s) => is_success(status) && first_cookie(set_cookies@) == Some(s.cookie@)
                && s.account_name == account_name,
            Err(Error::Api(e)) => if is_success(status) {
                first_cookie(set_cookies@) is None && e@
                    == "login succeeded but returned no .ROBLOSECURITY"@
            } else {
                e@ == "v2/login returned "@ + shown@
            },
            Err(_) => false,
        },
{
    if !(200 <= status && status < 300) {
        return Err(Error::Api(cat2("v2/login returned ", shown)));
    }
    match find_cookie(set_cookies) {
        Some(cookie) => Ok(Session { cookie, account_name }),
        None => Err(Error::Api("login succeeded but returned no .ROBLOSECURITY".to_owned())),
    }
}

/// The body that asks what became of a code.
pub fn status_body(c: &LoginCode) -> (body: String)
    ensures
        body@ == "{\"code\":"@ + quoted(c.code@) + ",\"privateKey\":"@ + quoted(c.private_key@)
            + "}"@,
{
    cat5(
        "{\"code\":",
        json_quote(c.code.as_str()).as_str(),
        ",\"privateKey\":",
        json_quote(c.private_key.as_str()).as_str(),
        "}",
    )
}

/// The body that redeems an approved code for a session.
pub fn login_body(c: &LoginCode) -> (body: String)
    ensures
        body@ == "{\"ctype\":\"AuthToken\",\"cvalue\":"@ + quoted(c.code@) + ",\"password\":"@
            + quoted(c.private_key@) + "}"@,
{
    cat5(
        "{\"ctype\":\"AuthToken\",\"cvalue\":",
        json_quote(c.code.as_str()).as_str(),
        ",\"password\":",
        json_quote(c.private_key.as_str()).as_str(),
        "}",
    )
}

/// A code is redeemed only once the service calls it validated and given up only
/// once it calls it cancelled: whatever else it says, the user is still being waited
/// for.
pub proof fn law_codes_are_waited_for(text: Seq<char>)
    ensures
        status_of(text) == LoginStatus::Validated <==> text == "Validated"@,
        status_of(text) == LoginStatus::Cancelled <==> text == "Cancelled"@,
        text != "Validated"@ && text != "Cancelled"@ <==> status_of(text) == LoginStatus::Pending,
{
    reveal_strlit("Validated");
    reveal_strlit("Cancelled");
    assert("Validated"@[0] == 'V' && "Cancelled"@[0] == 'C');
}

/// The answers that count as a success are those from 200 to 299.
pub proof fn law_successes(status: u16)
    ensures
        is_success(status) <==> status / 100 == 2,
{
}

/// A code of six ASCII characters is shown in two halves with a space between them,
/// and one of another length as it is.
pub proof fn law_codes_are_shown_in_halves(c: LoginCode)
    requires
        vstd::utf8::is_ascii_chars(c.code@),
    ensures
        c.code@.len() == 6 ==> c.display() == c.code@.take(3) + seq![' '] + c.code@.skip(3),
        c.code@.len() != 6 ==> c.display() == c.code@,
{
    reveal_strlit(" ");
    assert(" "@ =~= seq![' ']);
    let s = c.code@;
    let b = encode_utf8(s);
    lemma_ascii(s);
    if s.len() == 6 {
        lemma_ascii(s.take(3));
        lemma_ascii(s.skip(3));
        assert(encode_utf8(s.take(3)) =~= b.subrange(0, 3));
        assert(encode_utf8(s.skip(3)) =~= b.subrange(3, 6));
        vstd::utf8::encode_utf8_decode_utf8(s.take(3));
        vstd::utf8::encode_utf8_decode_utf8(s.skip(3));
    }
}

proof fn lemma_ascii(s: Seq<char>)
    requires
        vstd::utf8::is_ascii_chars(s),
    ensures
        encode_utf8(s).len() == s.len(),
        forall|i: int| 0 <= i < s.len() ==> #[trigger] encode_utf8(s)[i] == s[i] as u8,
{
    vstd::utf8::is_ascii_chars_encode_utf8(s);
}

/// The cookie that a line sets is what stands behind its name, up to the semicolon
/// or the end; the attributes behind it are no part of it.
pub proof fn law_cookies_read_back(value: Seq<char>, rest: Seq<char>)
    requires
        value.len() > 0,
        !value.contains(';'),
        !is_space_spec(value.last()),
        rest.len() > 0 ==> rest[0] == ';',
    ensures
        cookie_set(".ROBLOSECURITY="@ + value + rest) == Some(value),
{
    reveal_strlit(".ROBLOSECURITY=");
    let name = ".ROBLOSECURITY="@;
    let line = name + value + rest;
    let whole = name + value;
    let n = whole.len() as int;
    assert forall|i: int| 0 <= i < n implies line[i] != ';' by {
        if i >= name.len() {
            assert(line[i] == value[i - name.len()]);
        }
    }
    lemma_until_is(line, ';', n);
    assert(line.take(n) =~= whole);
    lemma_trimmed_is(whole);
    assert(whole.subrange(0, name.len() as int) =~= name);
    assert(whole.skip(name.len() as int) =~= value);
}

/// A line that sets no session cookie gives none, and what is given holds no
/// semicolon and is not empty.
pub proof fn law_only_the_session_cookie_is_taken(line: Seq<char>)
    ensures
        cookie_set(line) matches Some(v) ==> v.len() > 0 && !v.contains(';') && occurs(
            line,
            ".ROBLOSECURITY="@ + v,
        ),
{
    if cookie_set(line) is Some {
        let v = cookie_set(line)->0;
        let name = ".ROBLOSECURITY="@;
        let k = until(line, ';') as int;
        lemma_until(line, ';');
        let (a, b) = lemma_trimmed(line.take(k));
        let t = trimmed(line.take(k));
        assert(t.subrange(0, name.len() as int) == name);
        assert(t =~= name + v);
        assert(line.subrange(a, a + t.len()) =~= t);
        assert(occurs_at(line, name + v, a));
        assert forall|i: int| 0 <= i < v.len() implies v[i] != ';' by {
            assert(v[i] == t[i + name.len()]);
            assert(t[i + name.len()] == line[a + i + name.len()]);
        }
    }
}

/// The session is taken from the first line that sets it.
pub proof fn law_the_first_cookie_counts(lines: Seq<String>, k: int)
    requires
        0 <= k <= lines.len(),
        forall|j: int| 0 <= j < k ==> cookie_set((#[trigger] lines[j])@) is None,
        k < lines.len() ==> cookie_set(lines[k]@) is Some,
    ensures
        first_cookie(lines) == (if k < lines.len() {
            cookie_set(lines[k]@)
        } else {
            None
        }),
    decreases k,
{
    if k > 0 {
        assert(cookie_set(lines[0]@) is None);
        assert forall|j: int| 0 <= j < k - 1 implies cookie_set(
            (#[trigger] lines.skip(1)[j])@,
        ) is None by {
            assert(lines.skip(1)[j] == lines[j + 1]);
        }
        if k < lines.len() {
            assert(lines.skip(1)[k - 1] == lines[k]);
        }
        law_the_first_cookie_counts(lines.skip(1), k - 1);
    }
}

/// Where a sign-in asks, how often, and where the user confirms it.
pub proof fn law_sign_in_service()
    ensures
        CREATE_URL@ == "https://apis.roblox.com/auth-token-service/v1/login/create"@,
        STATUS_URL@ == "https://apis.roblox.com/auth-token-service/v1/login/status"@,
        LOGIN_URL@ == "https://auth.roblox.com/v2/login"@,
        CONFIRM_BASE@ == "https://www.roblox.com/crossdevicelogin/ConfirmCode"@,
        POLL_INTERVAL == 2,
{
}

} // verus!
