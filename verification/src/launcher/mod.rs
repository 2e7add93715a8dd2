//! Launching a game.
//!
//! On Linux through Sober with a `roblox://` deep link, on Windows through the
//! official client with a `roblox-player:` link and an authentication ticket.
//!
//! Joining a sub-place is a first-class case: `place_id` is whatever place the
//! user chose, and `root_place_id` is kept beside it so that per-game settings
//! stay keyed to the game.

use crate::number::{decimal_int, int_text};
use crate::text::{cat2, opt_text};
use vstd::prelude::*;
use vstd::string::*;

pub mod config;
pub mod sober;
pub mod windows;
pub mod winflags;

verus! {

#[derive(Debug)]
pub enum Error {
    Launch(String),
    SoberMissing,
}

pub type Result<T> = std::result::Result<T, Error>;

impl Error {
    pub open spec fn words(&self) -> Seq<char> {
        match self {
            Error::Launch(e) => "launch failed: "@ + e@,
            Error::SoberMissing => "Sober is not installed"@,
        }
    }

    /// The words shown for this error.
    pub fn message(&self) -> (r: String)
        ensures
            r@ == self.words(),
    {
        match self {
            Error::Launch(e) => cat2("launch failed: ", e.as_str()),
            Error::SoberMissing => "Sober is not installed".to_owned(),
        }
    }
}

#[derive(Debug, Clone, Copy, PartialEq, Eq, Structural)]
pub enum Backend {
    Sober,
    WindowsClient,
}

/// The way games are launched on this platform.
pub fn detect(windows: bool) -> (b: Backend)
    ensures
        b == (if windows { Backend::WindowsClient } else { Backend::Sober }),
{
    if windows {
        Backend::WindowsClient
    } else {
        Backend::Sober
    }
}

#[derive(Debug, Clone, Default)]
pub struct JoinRequest {
    /// The place the user chose: a sub-place when they picked one.
    pub place_id: i64,
    /// The universe's root place, for keying per-game settings.
    pub root_place_id: i64,
    /// A specific server, from the server browser.
    pub job_id: Option<String>,
    /// A reserved server's access code.
    pub access_code: Option<String>,
    /// A private server's share code.
    pub link_code: Option<String>,
}

/// `name=value` behind what is there, where there is a value.
pub open spec fn with_param(uri: Seq<char>, name: Seq<char>, value: Option<String>) -> Seq<char> {
    match value {
        Some(v) => uri + name + v@,
        None => uri,
    }
}

fn add_param(uri: &mut String, name: &str, value: &Option<String>)
    ensures
        final(uri)@ == with_param(old(uri)@, name@, *value),
{
    match value {
        Some(v) => {
            uri.append(name);
            uri.append(v.as_str());
        },
        None => {},
    }
}

impl JoinRequest {
    pub fn place(place_id: i64) -> (r: JoinRequest)
        ensures
            r.place_id == place_id,
            r.root_place_id == place_id,
            r.job_id is None,
            r.access_code is None,
            r.link_code is None,
    {
        JoinRequest {
            place_id,
            root_place_id: place_id,
            job_id: None,
            access_code: None,
            link_code: None,
        }
    }

    /// Join `place_id`, but attribute settings and history to `root_place_id`.
    pub fn sub_place(place_id: i64, root_place_id: i64) -> (r: JoinRequest)
        ensures
            r.place_id == place_id,
            r.root_place_id == root_place_id,
            r.job_id is None,
            r.access_code is None,
            r.link_code is None,
    {
        JoinRequest { place_id, root_place_id, job_id: None, access_code: None, link_code: None }
    }

    /// Join this server.
    pub fn server(self, job_id: &str) -> (r: JoinRequest)
        ensures
            opt_text(r.job_id) == Some(job_id@),
            r.place_id == self.place_id,
            r.root_place_id == self.root_place_id,
            r.access_code == self.access_code,
            r.link_code == self.link_code,
    {
        JoinRequest {
            place_id: self.place_id,
            root_place_id: self.root_place_id,
            job_id: Some(job_id.to_owned()),
            access_code: self.access_code,
            link_code: self.link_code,
        }
    }

    /// Join a private server by its share code.
    pub fn private_link(self, link_code: &str) -> (r: JoinRequest)
        ensures
            opt_text(r.link_code) == Some(link_code@),
            r.place_id == self.place_id,
            r.root_place_id == self.root_place_id,
            r.job_id == self.job_id,
            r.access_code == self.access_code,
    {
        JoinRequest {
            place_id: self.place_id,
            root_place_id: self.root_place_id,
            job_id: self.job_id,
            access_code: self.access_code,
            link_code: Some(link_code.to_owned()),
        }
    }

    /// Join a reserved server by its access code.
    pub fn reserved(self, access_code: &str) -> (r: JoinRequest)
        ensures
            opt_text(r.access_code) == Some(access_code@),
            r.place_id == self.place_id,
            r.root_place_id == self.root_place_id,
            r.job_id == self.job_id,
            r.link_code == self.link_code,
    {
        JoinRequest {
            place_id: self.place_id,
            root_place_id: self.root_place_id,
            job_id: self.job_id,
            access_code: Some(access_code.to_owned()),
            link_code: self.link_code,
        }
    }

    /// A place other than the game's root; a missing root is no root.
    pub fn is_sub_place(&self) -> (r: bool)
        ensures
            r == (self.root_place_id != 0 && self.place_id != self.root_place_id),
    {
        self.root_place_id != 0 && self.place_id != self.root_place_id
    }

    pub open spec fn uri_text(&self) -> Seq<char> {
        let base = "roblox://experiences/start?placeId="@ + decimal_int(self.place_id as int);
        let with_job = with_param(base, "&gameInstanceId="@, self.job_id);
        let with_access = with_param(with_job, "&accessCode="@, self.access_code);
        with_param(with_access, "&linkCode="@, self.link_code)
    }

    /// The deep link that Sober consumes.
    pub fn roblox_uri(&self) -> (uri: String)
        ensures
            uri@ == self.uri_text(),
    {
        let mut uri = cat2(
            "roblox://experiences/start?placeId=",
            int_text(self.place_id).as_str(),
        );
        add_param(&mut uri, "&gameInstanceId=", &self.job_id);
        add_param(&mut uri, "&accessCode=", &self.access_code);
        add_param(&mut uri, "&linkCode=", &self.link_code);
        uri
    }
}

/// The root place is never what is launched: the link depends on the chosen
/// place and the server, not on the root.
pub proof fn law_the_root_is_not_launched(a: JoinRequest, b: JoinRequest)
    requires
        a.place_id == b.place_id,
        a.job_id == b.job_id,
        a.access_code == b.access_code,
        a.link_code == b.link_code,
    ensures
        a.uri_text() == b.uri_text(),
{
}

/// The link to launch on Linux, where Sober is installed.
pub fn launch_sober(req: &JoinRequest, installed: bool) -> (r: Result<String>)
    ensures
        match r {
            Ok(uri) => installed && uri@ == req.uri_text(),
            Err(e) => !installed && e is SoberMissing,
        },
{
    if !installed {
        return Err(Error::SoberMissing);
    }
    Ok(req.roblox_uri())
}

/// The link to launch on Windows, with a fresh authentication ticket.
pub fn launch_windows(
    req: &JoinRequest,
    ticket: &str,
    launch_time_ms: i64,
    tracker_id: i64,
) -> (uri: String)
    ensures
        uri@ == windows::launch_text(
            ticket@,
            windows::launcher_text(*req, tracker_id),
            launch_time_ms,
            tracker_id,
        ),
{
    let inner = windows::place_launcher_url(req, tracker_id);
    windows::launch_uri(ticket, inner.as_str(), launch_time_ms, tracker_id)
}

/// Whether a game is running. On Windows it is recognised by its process, at the
/// call site.
pub fn game_running(backend: Backend, sober_running: bool) -> (r: bool)
    ensures
        r == (backend == Backend::Sober && sober_running),
{
    match backend {
        Backend::Sober => sober_running,
        Backend::WindowsClient => false,
    }
}

/// A parameter as the link carries it: its name and its value, or nothing.
pub open spec fn carried(name: Seq<char>, value: Option<String>) -> Seq<char> {
    match value {
        Some(v) => name + v@,
        None => Seq::empty(),
    }
}

/// The link that joins: the place that was chosen, then the server's id, the access
/// code of a reserved server and the share code of a private one, each where there
/// is one and under the name that the client reads it by.
pub proof fn law_the_link_names_place_and_server(req: JoinRequest)
    ensures
        req.uri_text() == "roblox://experiences/start?placeId="@ + decimal_int(req.place_id as int)
            + carried("&gameInstanceId="@, req.job_id) + carried("&accessCode="@, req.access_code)
            + carried("&linkCode="@, req.link_code),
{
    assert(req.uri_text() =~= "roblox://experiences/start?placeId="@ + decimal_int(
        req.place_id as int,
    ) + carried("&gameInstanceId="@, req.job_id) + carried("&accessCode="@, req.access_code)
        + carried("&linkCode="@, req.link_code));
}

/// What is shown when a launch fails.
pub proof fn law_launch_errors(e: Error)
    ensures
        match e {
            Error::Launch(t) => e.words() == "launch failed: "@ + t@,
            Error::SoberMissing => e.words() == "Sober is not installed"@,
        },
{
}

} // verus!
