//! Launching a game.

use crate::desktop::linkhandler::{parse_uri, uri_target};
use crate::launcher::{self, Backend, JoinRequest};
use crate::number::{parse_i64, read_i64};
use crate::roblox::error::Error;
use crate::roblox::search::{resolve_join_target, target_is, JoinTarget};
use crate::text::opt_text;
use vstd::prelude::*;

verus! {

/// The request for a place, and for a server of it where one is named.
pub open spec fn joins(req: JoinRequest, place: i64, job: Option<Seq<char>>) -> bool {
    &&& req.place_id == place
    &&& req.root_place_id == place
    &&& opt_text(req.job_id) == job
    &&& req.access_code is None
    &&& req.link_code is None
}

/// The place that a launch is remembered under: the root, where it is known.
pub fn history_key(req: &JoinRequest) -> (id: i64)
    ensures
        id == (if req.root_place_id != 0 { req.root_place_id } else { req.place_id }),
{
    if req.root_place_id != 0 {
        req.root_place_id
    } else {
        req.place_id
    }
}

/// Play a game by the place of its tile.
pub fn play_game(id: &str) -> (r: Option<JoinRequest>)
    ensures
        match (r, read_i64(id@)) {
            (Some(req), Some(place)) => joins(req, place, None),
            (None, None) => true,
            _ => false,
        },
{
    match parse_i64(id) {
        Some(place) => Some(JoinRequest::place(place)),
        None => None,
    }
}

/// Play a place of the game that is open.
pub fn play_sub_place(id: &str, root_place_id: &str) -> (r: Option<JoinRequest>)
    ensures
        match (r, read_i64(id@)) {
            (Some(req), Some(place)) => {
                &&& req.place_id == place
                &&& req.root_place_id == (match read_i64(root_place_id@) {
                    Some(root) => root,
                    None => place,
                })
                &&& req.job_id is None
                &&& req.access_code is None
                &&& req.link_code is None
            },
            (None, None) => true,
            _ => false,
        },
{
    match parse_i64(id) {
        Some(place) => {
            let root: i64 = match parse_i64(root_place_id) {
                Some(root) => root,
                None => place,
            };
            Some(JoinRequest::sub_place(place, root))
        },
        None => None,
    }
}

/// Join a server of the place that is open.
pub fn join_server(current_place: i64, job_id: &str) -> (r: Option<JoinRequest>)
    ensures
        match r {
            Some(req) => current_place != 0 && joins(req, current_place, Some(job_id@)),
            None => current_place == 0,
        },
{
    if current_place == 0 {
        None
    } else {
        Some(JoinRequest::place(current_place).server(job_id))
    }
}

/// The first argument that is a link to a game.
pub open spec fn first_link(args: Seq<String>) -> Option<(i64, Option<Seq<char>>)>
    decreases args.len(),
{
    if args.len() == 0 {
        None
    } else {
        match uri_target(args[0]@) {
            Some(t) => Some(t),
            None => first_link(args.skip(1)),
        }
    }
}

/// What is launched from the arguments of the program.
pub fn deep_link(args: &Vec<String>) -> (r: Option<JoinRequest>)
    ensures
        match (r, first_link(args@)) {
            (Some(req), Some(t)) => joins(req, t.0, t.1),
            (None, None) => true,
            _ => false,
        },
{
    let mut i: usize = 0;
    assert(args@.skip(0) =~= args@);
    while i < args.len()
        invariant
            i <= args.len(),
            first_link(args@) == first_link(args@.skip(i as int)),
        decreases args.len() - i,
    {
        assert(args@.skip(i as int)[0] == args@[i as int]);
        assert(args@.skip(i as int).skip(1) =~= args@.skip(i as int + 1));
        match parse_uri(args[i].as_str()) {
            Some((place, job)) => {
                let req = JoinRequest::place(place);
                return match job {
                    Some(j) => Some(req.server(j.as_str())),
                    None => Some(req),
                };
            },
            None => {},
        }
        i = i + 1;
    }
    None
}

/// What is done with what was typed into the bar at the top.
#[derive(Debug)]
pub enum Submit {
    /// It names a server or a private server: open the game and join.
    Join(JoinRequest),
    /// It names a game: open it.
    Open(i64),
    /// It is to be searched for.
    Search,
}

/// The target names more than a game.
pub open spec fn names_server(t: JoinTarget) -> bool {
    t.job_id is Some || t.access_code is Some || t.link_code is Some
}

/// The request joins what the target names.
pub open spec fn joins_target(req: JoinRequest, t: JoinTarget) -> bool {
    &&& req.place_id == t.place_id
    &&& req.root_place_id == t.place_id
    &&& opt_text(req.job_id) == opt_text(t.job_id)
    &&& opt_text(req.access_code) == opt_text(t.access_code)
    &&& opt_text(req.link_code) == opt_text(t.link_code)
}

/// What is done with a target.
pub fn submit_target(target: Option<JoinTarget>) -> (r: Submit)
    ensures
        match target {
            Some(t) => if names_server(t) {
                r matches Submit::Join(req) && joins_target(req, t)
            } else {
                r matches Submit::Open(place) && place == t.place_id
            },
            None => r is Search,
        },
{
    match target {
        Some(t) => {
            if t.job_id.is_none() && t.access_code.is_none() && t.link_code.is_none() {
                return Submit::Open(t.place_id);
            }
            let mut req = JoinRequest::place(t.place_id);
            match &t.job_id {
                Some(job) => {
                    req = req.server(job.as_str());
                },
                None => {},
            }
            match &t.access_code {
                Some(code) => {
                    req = req.reserved(code.as_str());
                },
                None => {},
            }
            match &t.link_code {
                Some(code) => {
                    req = req.private_link(code.as_str());
                },
                None => {},
            }
            Submit::Join(req)
        },
        None => Submit::Search,
    }
}

/// What is done with what was typed into the bar at the top. A link that names a
/// server or a private server is an instruction to join it.
pub fn top_submit(text: &str) -> (r: Submit)
    ensures
        match r {
            Submit::Join(req) => exists|t: JoinTarget| #[trigger]
                target_is(t, text@) && names_server(t) && joins_target(req, t),
            Submit::Open(place) => exists|t: JoinTarget| #[trigger]
                target_is(t, text@) && !names_server(t) && place == t.place_id,
            Submit::Search => crate::roblox::search::place_named(text@) is None,
        },
{
    let target = resolve_join_target(text);
    let ghost t = target;
    let r = submit_target(target);
    proof {
        if t is Some {
            assert(target_is(t->0, text@));
        }
    }
    r
}

/// A launch, and what is said of it.
pub struct Launch {
    pub launching: bool,
    pub error: String,
    /// The game is signed in to another account.
    pub account_mismatch: bool,
}

/// What is to be done next.
#[derive(Debug, PartialEq, Eq)]
pub enum LaunchAction {
    /// Put this cookie into the game's jar.
    SwapCookie(String),
    /// Write the account's flags: the game holds one set, and would use those of
    /// the account before.
    WriteFlags,
    /// Start the game.
    Start,
    /// Ask for a ticket to start the game with.
    Ticket,
    Over,
}

impl Launch {
    pub fn new() -> (l: Launch)
        ensures
            !l.launching,
            l.error@.len() == 0,
            !l.account_mismatch,
    {
        Launch { launching: false, error: String::new(), account_mismatch: false }
    }

    /// Begin. `cookie` is that of the active account, where there is one: without
    /// it the game starts as whoever it is.
    pub fn begin(&mut self, backend: Backend, cookie: Option<String>) -> (next: LaunchAction)
        ensures
            *final(self) == (Launch { launching: true, ..*old(self) }),
            next == (match backend {
                Backend::Sober => match cookie {
                    Some(c) => LaunchAction::SwapCookie(c),
                    None => LaunchAction::WriteFlags,
                },
                Backend::WindowsClient => LaunchAction::Ticket,
            }),
    {
        self.launching = true;
        match backend {
            Backend::Sober => match cookie {
                Some(c) => LaunchAction::SwapCookie(c),
                None => LaunchAction::WriteFlags,
            },
            Backend::WindowsClient => LaunchAction::Ticket,
        }
    }

    /// The cookie was put in, or was there, or could not be: then nothing is
    /// started, since it would be as somebody else.
    pub fn swapped(&mut self, result: &std::result::Result<bool, launcher::Error>) -> (next:
        LaunchAction)
        ensures
            match *result {
                Ok(_) => next == LaunchAction::WriteFlags && *final(self) == (Launch {
                    account_mismatch: false,
                    ..*old(self)
                }),
                Err(e) => {
                    &&& next == LaunchAction::Over
                    &&& !final(self).launching
                    &&& final(self).error@ == e.words()
                    &&& final(self).account_mismatch == old(self).account_mismatch
                },
            },
    {
        match result {
            Ok(_) => {
                self.account_mismatch = false;
                LaunchAction::WriteFlags
            },
            Err(e) => {
                self.error = e.message();
                self.launching = false;
                LaunchAction::Over
            },
        }
    }

    /// The flags were written, or were not: the game is started either way.
    pub fn flags_written(&mut self) -> (next: LaunchAction)
        ensures
            next == LaunchAction::Start,
            *final(self) == *old(self),
    {
        LaunchAction::Start
    }

    /// The game was started, or was not.
    pub fn started(&mut self, result: &std::result::Result<(), launcher::Error>) -> (next:
        LaunchAction)
        ensures
            next == LaunchAction::Over,
            !final(self).launching,
            final(self).account_mismatch == old(self).account_mismatch,
            match *result {
                Ok(_) => final(self).error == old(self).error,
                Err(e) => final(self).error@ == e.words(),
            },
    {
        match result {
            Ok(_) => {},
            Err(e) => {
                self.error = e.message();
            },
        }
        self.launching = false;
        LaunchAction::Over
    }

    /// A ticket has come, or has not.
    pub fn ticket(&mut self, result: &std::result::Result<String, Error>) -> (next: LaunchAction)
        ensures
            *final(self) == (Launch { launching: false, ..*old(self) }),
            next == (if *result is Ok { LaunchAction::Start } else { LaunchAction::Over }),
    {
        self.launching = false;
        match result {
            Ok(_) => LaunchAction::Start,
            Err(_) => LaunchAction::Over,
        }
    }
}

/// A launch goes to the place that was asked for, and to its server where one was
/// named; nothing else is asked for.
pub proof fn law_a_launch_goes_where_it_was_asked_to(
    req: JoinRequest,
    place: i64,
    job: Option<Seq<char>>,
)
    requires
        joins(req, place, job),
    ensures
        req.place_id == place,
        req.root_place_id == place,
        opt_text(req.job_id) == job,
        req.access_code is None,
        req.link_code is None,
{
}

/// What was pasted is joined as it names it: the place, the running server, the
/// reserved one and the private one, each as itself. Without a server it is opened.
pub proof fn law_a_link_is_joined_as_it_names_it(req: JoinRequest, t: JoinTarget)
    ensures
        joins_target(req, t) ==> req.place_id == t.place_id && req.root_place_id == t.place_id
            && opt_text(req.job_id) == opt_text(t.job_id) && opt_text(req.access_code) == opt_text(
            t.access_code,
        ) && opt_text(req.link_code) == opt_text(t.link_code),
        names_server(t) <==> !(t.job_id is None && t.access_code is None && t.link_code is None),
{
}

/// Of the program's arguments the first that is a link to a game is followed.
pub proof fn law_the_first_link_is_followed(args: Seq<String>, k: int)
    requires
        0 <= k <= args.len(),
        forall|j: int| 0 <= j < k ==> uri_target((#[trigger] args[j])@) is None,
        k < args.len() ==> uri_target(args[k]@) is Some,
    ensures
        first_link(args) == (if k < args.len() {
            uri_target(args[k]@)
        } else {
            None
        }),
    decreases k,
{
    if k > 0 {
        assert(uri_target(args[0]@) is None);
        assert forall|j: int| 0 <= j < k - 1 implies uri_target(
            (#[trigger] args.skip(1)[j])@,
        ) is None by {
            assert(args.skip(1)[j] == args[j + 1]);
        }
        if k < args.len() {
            assert(args.skip(1)[k - 1] == args[k]);
        }
        law_the_first_link_is_followed(args.skip(1), k - 1);
    }
}

} // verus!
