//! The official client on Windows.
//!
//! Joining as a chosen account goes through an authentication ticket: a
//! short-lived token minted from the account's cookie and handed to the client
//! in the link:
//! ```text
//! roblox-player:1+launchmode:play+gameinfo:<ticket>+launchtime:<ms>
//!   +placelauncherurl:<the launcher's address, percent-encoded>
//!   +browsertrackerid:<id>+robloxLocale:en_us+gameLocale:en_us
//!   +channel:+LaunchExp:InApp
//! ```

use crate::launcher::{carried, with_param, Error, JoinRequest};
use crate::number::{decimal_int, int_text};
use crate::text::{cat3, cat5, law_percent_text_is_inert, percent_text};
use vstd::prelude::*;
use vstd::string::*;

verus! {

pub const PLACE_LAUNCHER: &'static str = "https://assetgame.roblox.com/game/PlaceLauncher.ashx";

/// A tracker id from the nanoseconds of a clock: two blocks of six digits.
pub open spec fn tracker_of(nanos: int) -> int {
    (100_000 + nanos % 75_000) * 1_000_000 + 100_000 + (nanos / 75_000) % 800_000
}

/// A plausible browser tracker id, from the nanoseconds within a second. It is
/// an identifier, not a secret.
pub fn tracker_id(nanos: u32) -> (id: i64)
    requires
        nanos < 1_000_000_000,
    ensures
        id == tracker_of(nanos as int),
        100_000_100_000 <= id < 175_000_000_000,
{
    let n: i64 = nanos as i64;
    let high: i64 = 100_000 + (n % 75_000);
    let low: i64 = 100_000 + ((n / 75_000) % 800_000);
    high * 1_000_000 + low
}

/// The tracker id of a process, once it has one.
pub struct Tracker {
    pub id: Option<i64>,
}

/// The id that is given out: the one that was given out before, or one from the
/// clock.
pub open spec fn given_out(before: Option<i64>, nanos: int) -> int {
    match before {
        Some(id) => id as int,
        None => tracker_of(nanos),
    }
}

impl Tracker {
    /// The id has eleven or twelve digits, as that of a browser session has.
    pub open spec fn wf(&self) -> bool {
        self.id matches Some(id) ==> 10_000_000_000 <= id <= 999_999_999_999
    }

    pub fn new() -> (t: Tracker)
        ensures
            t.wf(),
            t.id is None,
    {
        Tracker { id: None }
    }

    /// The id: made from the clock at first, and the same ever after, as a browser
    /// keeps its own.
    pub fn get(&mut self, nanos: u32) -> (id: i64)
        requires
            old(self).wf(),
            nanos < 1_000_000_000,
        ensures
            final(self).wf(),
            id == given_out(old(self).id, nanos as int),
            final(self).id == Some(id),
            10_000_000_000 <= id <= 999_999_999_999,
    {
        match self.id {
            Some(id) => id,
            None => {
                let id: i64 = tracker_id(nanos);
                self.id = Some(id);
                id
            },
        }
    }
}

/// A process keeps the first id it made, whatever the clock says later, and it has
/// eleven or twelve digits.
pub proof fn law_the_first_tracker_id_is_kept(before: Option<i64>, nanos: int, later: int)
    requires
        (Tracker { id: before }).wf(),
        0 <= nanos < 1_000_000_000,
    ensures
        10_000_000_000 <= given_out(before, nanos) <= 999_999_999_999,
        given_out(Some(given_out(before, nanos) as i64), later) == given_out(before, nanos),
{
    assert(0 <= nanos % 75_000 < 75_000);
    assert(0 <= (nanos / 75_000) % 800_000 < 800_000);
}

/// A server that is not open to everyone.
pub open spec fn is_private(req: JoinRequest) -> bool {
    req.link_code is Some || req.access_code is Some
}

/// The launcher's address for a request: a private server before a specific
/// server before the game. A share code travels as `linkCode` and a reserved
/// server's code as `accessCode`; the two are not interchangeable.
pub open spec fn launcher_text(req: JoinRequest, tracker_id: i64) -> Seq<char> {
    let id = decimal_int(tracker_id as int);
    let place = decimal_int(req.place_id as int);
    if is_private(req) {
        let base = PLACE_LAUNCHER@ + "?request=RequestPrivateGame&browserTrackerId="@ + id
            + "&placeId="@ + place;
        with_param(
            with_param(base, "&accessCode="@, req.access_code),
            "&linkCode="@,
            req.link_code,
        )
    } else {
        match req.job_id {
            Some(job) => PLACE_LAUNCHER@ + "?request=RequestGameJob&browserTrackerId="@ + id
                + "&placeId="@ + place + "&gameId="@ + job@ + "&isPlayTogetherGame=false"@,
            None => PLACE_LAUNCHER@ + "?request=RequestGame&browserTrackerId="@ + id
                + "&placeId="@ + place + "&isPlayTogetherGame=false"@,
        }
    }
}

/// The launcher's address for a normal join, a specific server, a private server
/// or a reserved one.
pub fn place_launcher_url(req: &JoinRequest, tracker_id: i64) -> (url: String)
    ensures
        url@ == launcher_text(*req, tracker_id),
{
    let id = int_text(tracker_id);
    let place = int_text(req.place_id);
    if req.link_code.is_some() || req.access_code.is_some() {
        let mut url = cat5(
            PLACE_LAUNCHER,
            "?request=RequestPrivateGame&browserTrackerId=",
            id.as_str(),
            "&placeId=",
            place.as_str(),
        );
        match &req.access_code {
            Some(code) => {
                url.append("&accessCode=");
                url.append(code.as_str());
            },
            None => {},
        }
        match &req.link_code {
            Some(code) => {
                url.append("&linkCode=");
                url.append(code.as_str());
            },
            None => {},
        }
        return url;
    }
    match &req.job_id {
        Some(job) => {
            let mut url = cat5(
                PLACE_LAUNCHER,
                "?request=RequestGameJob&browserTrackerId=",
                id.as_str(),
                "&placeId=",
                place.as_str(),
            );
            url.append("&gameId=");
            url.append(job.as_str());
            url.append("&isPlayTogetherGame=false");
            url
        },
        None => {
            let mut url = cat5(
                PLACE_LAUNCHER,
                "?request=RequestGame&browserTrackerId=",
                id.as_str(),
                "&placeId=",
                place.as_str(),
            );
            url.append("&isPlayTogetherGame=false");
            url
        },
    }
}

/// A private server outranks a specific one: the server's id does not travel.
pub proof fn law_private_servers_outrank(a: JoinRequest, b: JoinRequest, tracker_id: i64)
    requires
        is_private(a),
        a.place_id == b.place_id,
        a.access_code == b.access_code,
        a.link_code == b.link_code,
    ensures
        launcher_text(a, tracker_id) == launcher_text(b, tracker_id),
{
}

pub open spec fn launch_text(
    ticket: Seq<char>,
    place_launcher: Seq<char>,
    launch_time_ms: i64,
    tracker_id: i64,
) -> Seq<char> {
    "roblox-player:1+launchmode:play+gameinfo:"@ + ticket + "+launchtime:"@ + decimal_int(
        launch_time_ms as int,
    ) + "+placelauncherurl:"@ + percent_text(place_launcher) + "+browsertrackerid:"@ + decimal_int(
        tracker_id as int,
    ) + "+robloxLocale:en_us+gameLocale:en_us+channel:+LaunchExp:InApp"@
}

/// The whole link for the client.
pub fn launch_uri(
    ticket: &str,
    place_launcher: &str,
    launch_time_ms: i64,
    tracker_id: i64,
) -> (uri: String)
    ensures
        uri@ == launch_text(ticket@, place_launcher@, launch_time_ms, tracker_id),
{
    let mut uri = cat5(
        "roblox-player:1+launchmode:play+gameinfo:",
        ticket,
        "+launchtime:",
        int_text(launch_time_ms).as_str(),
        "+placelauncherurl:",
    );
    uri.append(percent_encode(place_launcher).as_str());
    uri.append("+browsertrackerid:");
    uri.append(int_text(tracker_id).as_str());
    uri.append("+robloxLocale:en_us+gameLocale:en_us+channel:+LaunchExp:InApp");
    uri
}

/// Percent-encode the launcher's address, so that its `?`, `&` and `=` do not
/// collide with the link's own grammar.
pub fn percent_encode(s: &str) -> (r: String)
    ensures
        r@ == percent_text(s@),
{
    crate::text::percent_encode(s)
}

/// What the shell made of a link, by its return code: above 32 it was opened; 2
/// and 3 mean that nothing is registered for it. Off Windows there is no such
/// shell, and no code.
pub fn open_uri(code: Option<i64>) -> (r: crate::launcher::Result<()>)
    ensures
        match r {
            Ok(()) => code is Some && code->0 > 32,
            Err(Error::Launch(e)) => match code {
                None => e@ == "the Windows client launcher is not available on this platform"@,
                Some(c) => c <= 32 && e@ == (if c == 2 || c == 3 {
                    "Windows has nothing registered for roblox-player: links. Install the Roblox client and open a game from roblox.com once, then try again."@
                } else {
                    "Windows refused to start the Roblox client (code "@ + decimal_int(c as int)
                        + ")"@
                }),
            },
            Err(_) => false,
        },
{
    match code {
        None => Err(
            Error::Launch(
                "the Windows client launcher is not available on this platform".to_owned(),
            ),
        ),
        Some(c) => if c > 32 {
            Ok(())
        } else if c == 2 || c == 3 {
            Err(
                Error::Launch(
                    "Windows has nothing registered for roblox-player: links. Install the Roblox client and open a game from roblox.com once, then try again.".to_owned(),
                ),
            )
        } else {
            Err(
                Error::Launch(
                    cat3(
                        "Windows refused to start the Roblox client (code ",
                        int_text(c).as_str(),
                        ")",
                    ),
                ),
            )
        },
    }
}

/// A private server is asked for as such, with the access code of a reserved one and
/// the share code of a private one each under its own name. Otherwise a running
/// server is asked for by its id, and a game without one by its place alone.
pub proof fn law_what_is_asked_of_the_launcher(req: JoinRequest, tracker_id: i64)
    ensures
        ({
            let id = decimal_int(tracker_id as int);
            let place = decimal_int(req.place_id as int);
            let at = "https://assetgame.roblox.com/game/PlaceLauncher.ashx"@;
            match (req.access_code, req.link_code, req.job_id) {
                (None, None, None) => launcher_text(req, tracker_id) == at
                    + "?request=RequestGame&browserTrackerId="@ + id + "&placeId="@ + place
                    + "&isPlayTogetherGame=false"@,
                (None, None, Some(job)) => launcher_text(req, tracker_id) == at
                    + "?request=RequestGameJob&browserTrackerId="@ + id + "&placeId="@ + place
                    + "&gameId="@ + job@ + "&isPlayTogetherGame=false"@,
                (access, link, _) => launcher_text(req, tracker_id) == at
                    + "?request=RequestPrivateGame&browserTrackerId="@ + id + "&placeId="@ + place
                    + carried("&accessCode="@, access) + carried("&linkCode="@, link),
            }
        }),
{
    let id = decimal_int(tracker_id as int);
    let place = decimal_int(req.place_id as int);
    let at = "https://assetgame.roblox.com/game/PlaceLauncher.ashx"@;
    if is_private(req) {
        assert(launcher_text(req, tracker_id) =~= at
            + "?request=RequestPrivateGame&browserTrackerId="@ + id + "&placeId="@ + place
            + carried("&accessCode="@, req.access_code) + carried("&linkCode="@, req.link_code));
    }
}

/// The link that starts the client: the ticket, the time, the launcher's address,
/// written so that it cannot be taken for a part of the link, and the tracker id.
pub proof fn law_what_the_client_is_started_with(
    ticket: Seq<char>,
    place_launcher: Seq<char>,
    ms: i64,
    tracker_id: i64,
)
    ensures
        launch_text(ticket, place_launcher, ms, tracker_id)
            == "roblox-player:1+launchmode:play+gameinfo:"@ + ticket + "+launchtime:"@
            + decimal_int(ms as int) + "+placelauncherurl:"@ + percent_text(place_launcher)
            + "+browsertrackerid:"@ + decimal_int(tracker_id as int)
            + "+robloxLocale:en_us+gameLocale:en_us+channel:+LaunchExp:InApp"@,
        !percent_text(place_launcher).contains('+'),
{
    law_percent_text_is_inert(place_launcher);
}

/// Two moments of a second give two tracker ids.
pub proof fn law_tracker_ids_differ(a: int, b: int)
    requires
        0 <= a < 1_000_000_000,
        0 <= b < 1_000_000_000,
        a != b,
    ensures
        tracker_of(a) != tracker_of(b),
{
    let (p, q) = (a % 75_000, a / 75_000);
    let (r, s) = (b % 75_000, b / 75_000);
    assert(q % 800_000 == q && s % 800_000 == s);
    if tracker_of(a) == tracker_of(b) {
        assert(p == r && q == s);
    }
}

} // verus!
