//! Made-up data, for looking at the screens of somebody who is signed in without
//! being signed in.

use crate::clock::Moment;
use crate::desktop::adapters::{
    compact, compact_text, item_is, DetailItem, GameDetailData, GameTile, ServerRow, SubPlace,
};
use crate::desktop::find::Finder;
use crate::desktop::friends::{
    friend_rows_at, is_in_game, is_online, view_shows, FriendInput, FriendsView,
};
use crate::desktop::home::Grids;
use crate::desktop::nav::{Screen, NO_PAGE};
use crate::desktop::profile::ProfileData;
use crate::desktop::session::Session;
use crate::number::{decimal, decimal_int, int_text, nat_text};
use crate::text::{cat2, cat3, texts};
use vstd::prelude::*;

verus! {

/// Games: the name, who made it, how many play it and how it is rated.
pub const GAMES: [(&'static str, &'static str, &'static str, i32); 6] = [
    ("Jailbreak", "Badimo", "13K", 88),
    ("Tower Defense Simulator", "Paradoxum Games", "38K", 91),
    ("Doors", "LSPLASH", "52K", 95),
    ("Phantom Forces", "StyLiS Studios", "6.1K", 93),
    ("Bee Swarm Simulator", "Onett", "19K", 90),
    ("Natural Disaster Survival", "Stickmasterluke", "12K", 92),
];

/// Servers: how many play and how many fit.
pub const SERVERS: [(i32, i32); 4] = [(23, 24), (18, 24), (11, 24), (3, 24)];

/// Places of the game: the name and what is said of it.
pub const SUB_PLACES: [(&'static str, &'static str); 3] = [
    ("Jailbreak: Winter Update", "Seasonal map with the new vehicles"),
    ("Jailbreak: Testing Realm", "Early builds, unstable"),
    ("Jailbreak: Museum", ""),
];

/// Friends: the name, the username, what they are up to, where they are, and
/// whether they are pinned and watched.
pub const FRIENDS: [(&'static str, &'static str, i32, &'static str, bool, bool); 8] = [
    ("UsedHenry06", "usedhenry06", 2, "Jailbreak", true, true),
    ("felix", "felixsson", 2, "Tower Defense Simulator", true, false),
    ("quuut", "quuut", 1, "", false, false),
    ("Floofy", "floofyiv", 1, "", false, true),
    ("Nova", "novabuilds", 3, "", false, false),
    ("Marcus", "marcusdev", 0, "", false, false),
    ("Ellie", "elliebuilds", 0, "", false, false),
    ("Tom", "tomtomtom", 0, "", false, false),
];

/// Requests: the id, the name, the username, what they say of themselves, what
/// they are up to, and that in words.
pub const REQUESTS: [(
    &'static str,
    &'static str,
    &'static str,
    &'static str,
    i32,
    &'static str,
); 3] = [
    ("101", "NewPerson", "newperson", "Builder. Mostly obbies.", 2, "Playing Doors"),
    ("102", "SomeoneElse", "someoneelse", "", 1, "Online"),
    ("103", "Quiet", "quietone", "Just here for the trains.", 0, ""),
];

/// Members of the group: the id, the name, the username, the role and its rank.
pub const MEMBERS: [(&'static str, &'static str, &'static str, &'static str, i32); 6] = [
    ("1", "Badimo", "badimo", "Owner", 255),
    ("2", "asimo3089", "asimo3089", "Developer", 200),
    ("3", "bad_cc", "badcc", "Developer", 200),
    ("4", "Helper One", "helperone", "Moderator", 100),
    ("5", "Helper Two", "helpertwo", "Moderator", 100),
    ("6", "Someone", "someone", "Member", 1),
];

pub const RECENTS: [&'static str; 3] = ["jailbreak", "tower defense", "doors"];

pub open spec fn demo_tile(t: GameTile, i: int) -> bool {
    &&& t.id@ == decimal((100000 + i) as nat)
    &&& t.universe_id@.len() == 0
    &&& t.name@ == GAMES@[i].0@
    &&& t.creator@ == GAMES@[i].1@
    &&& t.playing@ == GAMES@[i].2@
    &&& t.rating == GAMES@[i].3
    &&& t.favorited == (i % 3 == 0)
}

/// The tiles are those of the games from `from` on.
pub open spec fn demo_tiles(tiles: Seq<GameTile>, from: int, n: nat) -> bool {
    &&& tiles.len() == n
    &&& forall|i: int| 0 <= i < n ==> demo_tile(#[trigger] tiles[i], from + i)
}

/// The tile of one game.
pub fn tile(i: usize) -> (t: GameTile)
    requires
        i < 6,
    ensures
        demo_tile(t, i as int),
{
    let g = GAMES[i];
    GameTile {
        id: nat_text(100000 + i as u64),
        universe_id: String::new(),
        name: g.0.to_owned(),
        creator: g.1.to_owned(),
        playing: g.2.to_owned(),
        rating: g.3,
        favorited: i % 3 == 0,
    }
}

/// The tiles of the games from `from` to `to`.
pub fn tiles(from: usize, to: usize) -> (out: Vec<GameTile>)
    requires
        from <= to <= 6,
    ensures
        demo_tiles(out@, from as int, (to - from) as nat),
{
    let mut out: Vec<GameTile> = Vec::new();
    let mut i: usize = from;
    while i < to
        invariant
            from <= i <= to <= 6,
            out.len() == i - from,
            forall|k: int| 0 <= k < out.len() ==> demo_tile(#[trigger] out@[k], from + k),
        decreases to - i,
    {
        out.push(tile(i));
        i = i + 1;
    }
    out
}

pub open spec fn demo_game(g: GameDetailData) -> bool {
    &&& g.universe_id@ == "245662005"@
    &&& g.root_place_id@ == "606849621"@
    &&& g.name@ == "Jailbreak"@
    &&& g.creator@ == "Badimo"@
    &&& g.creator_id@ == "1032204"@
    &&& g.creator_is_group
    &&& g.description@
            == "Orchestrate a robbery or catch criminals. Team up with friends for even more fun."@
    &&& g.playing@ == "13K"@
    &&& g.visits@ == "8.2B"@
    &&& g.favorites@ == "12M"@
    &&& g.max_players@ == "24"@
    &&& g.created@ == "27 Apr 2017"@
    &&& g.updated@ == "14 Aug 2026"@
    &&& g.genre@ == "Town and City"@
    &&& g.rating == 88
    &&& g.favorited
    &&& !g.notify
}

/// The game that is open.
pub fn game() -> (g: GameDetailData)
    ensures
        demo_game(g),
{
    GameDetailData {
        universe_id: "245662005".to_owned(),
        root_place_id: "606849621".to_owned(),
        name: "Jailbreak".to_owned(),
        creator: "Badimo".to_owned(),
        creator_id: "1032204".to_owned(),
        creator_is_group: true,
        description: "Orchestrate a robbery or catch criminals. Team up with friends for even more fun.".to_owned(),
        playing: "13K".to_owned(),
        visits: "8.2B".to_owned(),
        favorites: "12M".to_owned(),
        max_players: "24".to_owned(),
        created: "27 Apr 2017".to_owned(),
        updated: "14 Aug 2026".to_owned(),
        genre: "Town and City".to_owned(),
        rating: 88,
        favorited: true,
        notify: false,
    }
}

pub open spec fn demo_sub_place(p: SubPlace, i: int) -> bool {
    &&& p.id@ == decimal((i + 1) as nat)
    &&& p.name@ == SUB_PLACES@[i].0@
    &&& p.description@ == SUB_PLACES@[i].1@
}

pub fn sub_places() -> (out: Vec<SubPlace>)
    ensures
        out.len() == 3,
        forall|i: int| 0 <= i < 3 ==> demo_sub_place(#[trigger] out@[i], i),
{
    let mut out: Vec<SubPlace> = Vec::new();
    let mut i: usize = 0;
    while i < 3
        invariant
            i <= 3,
            out.len() == i,
            forall|k: int| 0 <= k < i ==> demo_sub_place(#[trigger] out@[k], k),
        decreases 3 - i,
    {
        let p = SUB_PLACES[i];
        out.push(
            SubPlace {
                id: nat_text(i as u64 + 1),
                name: p.0.to_owned(),
                description: p.1.to_owned(),
            },
        );
        i = i + 1;
    }
    out
}

pub open spec fn demo_server(r: ServerRow, i: int) -> bool {
    let playing = SERVERS@[i].0;
    let max = SERVERS@[i].1;
    &&& r.id@ == "srv-"@ + decimal(i as nat)
    &&& r.playing == playing
    &&& r.max == max
    &&& r.label@ == decimal_int(playing as int) + " / "@ + decimal_int(max as int)
    &&& r.fill_part == playing
    &&& r.fill_whole == max
    &&& r.more == (if playing > 4 { playing - 4 } else { 0 })
}

pub fn servers() -> (out: Vec<ServerRow>)
    ensures
        out.len() == 4,
        forall|i: int| 0 <= i < 4 ==> demo_server(#[trigger] out@[i], i),
{
    let mut out: Vec<ServerRow> = Vec::new();
    let mut i: usize = 0;
    while i < 4
        invariant
            i <= 4,
            out.len() == i,
            forall|k: int| 0 <= k < i ==> demo_server(#[trigger] out@[k], k),
        decreases 4 - i,
    {
        let (playing, max): (i32, i32) = SERVERS[i];
        out.push(
            ServerRow {
                id: cat2("srv-", nat_text(i as u64).as_str()),
                playing,
                max,
                label: cat3(
                    int_text(playing as i64).as_str(),
                    " / ",
                    int_text(max as i64).as_str(),
                ),
                fill_part: playing,
                fill_whole: max,
                more: if playing > 4 {
                    playing - 4
                } else {
                    0
                },
            },
        );
        i = i + 1;
    }
    out
}

pub fn passes() -> (out: Vec<DetailItem>)
    ensures
        out.len() == 4,
        forall|i: int|
            0 <= i < 4 ==> item_is(
                #[trigger] out@[i],
                "p"@ + decimal(i as nat),
                "VIP Pass "@ + decimal((i + 1) as nat),
                Seq::empty(),
                2,
            ),
{
    let mut out: Vec<DetailItem> = Vec::new();
    let mut i: usize = 0;
    while i < 4
        invariant
            i <= 4,
            out.len() == i,
            forall|k: int|
                0 <= k < i ==> item_is(
                    #[trigger] out@[k],
                    "p"@ + decimal(k as nat),
                    "VIP Pass "@ + decimal((k + 1) as nat),
                    Seq::empty(),
                    2,
                ),
        decreases 4 - i,
    {
        let subtitle = String::new();
        assert(subtitle@ =~= Seq::<char>::empty());
        out.push(
            DetailItem {
                id: cat2("p", nat_text(i as u64).as_str()),
                name: cat2("VIP Pass ", nat_text(i as u64 + 1).as_str()),
                subtitle,
                kind: 2,
            },
        );
        i = i + 1;
    }
    out
}

pub open spec fn demo_friend(f: FriendInput, i: int, last_online: Seq<char>) -> bool {
    let (name, username, presence, location, _, _) = FRIENDS@[i];
    &&& f.id == i + 1
    &&& f.name@ == name@
    &&& f.username@ == username@
    &&& f.presence == presence
    &&& f.location@ == location@
    &&& f.last_online@ == last_online
    &&& f.place_id == (if presence == 2 { Some(606849621i64) } else { None })
    &&& f.game_id is None
    &&& f.avatar_url@.len() == 0
    &&& f.joinable == (presence == 2)
}

/// The friends. `last_online` says when each was online last.
pub fn friends(last_online: &Vec<String>) -> (out: Vec<FriendInput>)
    requires
        last_online.len() == 8,
    ensures
        out.len() == 8,
        forall|i: int|
            0 <= i < 8 ==> demo_friend(#[trigger] out@[i], i, last_online@[i]@),
{
    let mut out: Vec<FriendInput> = Vec::new();
    let mut i: usize = 0;
    while i < 8
        invariant
            i <= 8,
            last_online.len() == 8,
            out.len() == i,
            forall|k: int|
                0 <= k < i ==> demo_friend(#[trigger] out@[k], k, last_online@[k]@),
        decreases 8 - i,
    {
        let (name, username, presence, location, pinned, watched) = FRIENDS[i];
        out.push(
            FriendInput {
                id: i as i64 + 1,
                name: name.to_owned(),
                username: username.to_owned(),
                presence,
                location: location.to_owned(),
                last_online: last_online[i].clone(),
                place_id: if presence == 2 {
                    Some(606849621)
                } else {
                    None
                },
                game_id: None,
                avatar_url: String::new(),
                joinable: presence == 2,
            },
        );
        i = i + 1;
    }
    out
}

/// The ids of the first `n` friends that are pinned, or that are watched.
pub open spec fn marked_friends(pinned: bool, n: nat) -> Seq<Seq<char>>
    decreases n,
{
    if n == 0 {
        Seq::empty()
    } else {
        let before = marked_friends(pinned, (n - 1) as nat);
        let f = FRIENDS@[n - 1];
        if if pinned {
            f.4
        } else {
            f.5
        } {
            before.push(decimal(n))
        } else {
            before
        }
    }
}

/// The ids of the friends that are pinned, or that are watched.
pub fn marked(pinned: bool) -> (out: Vec<String>)
    ensures
        texts(out@) == marked_friends(pinned, 8),
{
    let mut out: Vec<String> = Vec::new();
    let mut i: usize = 0;
    assert(texts(out@) =~= Seq::<Seq<char>>::empty());
    while i < 8
        invariant
            i <= 8,
            texts(out@) == marked_friends(pinned, i as nat),
        decreases 8 - i,
    {
        let (name, username, presence, location, is_pinned, is_watched) = FRIENDS[i];
        let on = if pinned {
            is_pinned
        } else {
            is_watched
        };
        if on {
            let ghost before = out@;
            let id = nat_text(i as u64 + 1);
            let ghost key = id@;
            out.push(id);
            assert(texts(out@) =~= texts(before).push(key));
        }
        i = i + 1;
    }
    out
}

/// A request as it is shown.
pub struct RequestRow {
    pub id: String,
    pub name: String,
    pub username: String,
    pub description: String,
    pub presence: i32,
    pub presence_label: String,
}

pub open spec fn demo_request(r: RequestRow, i: int) -> bool {
    let (id, name, username, about, presence, label) = REQUESTS@[i];
    &&& r.id@ == id@
    &&& r.name@ == name@
    &&& r.username@ == username@
    &&& r.description@ == about@
    &&& r.presence == presence
    &&& r.presence_label@ == label@
}

pub fn requests() -> (out: Vec<RequestRow>)
    ensures
        out.len() == 3,
        forall|i: int| 0 <= i < 3 ==> demo_request(#[trigger] out@[i], i),
{
    let mut out: Vec<RequestRow> = Vec::new();
    let mut i: usize = 0;
    while i < 3
        invariant
            i <= 3,
            out.len() == i,
            forall|k: int| 0 <= k < i ==> demo_request(#[trigger] out@[k], k),
        decreases 3 - i,
    {
        let (id, name, username, about, presence, label) = REQUESTS[i];
        out.push(
            RequestRow {
                id: id.to_owned(),
                name: name.to_owned(),
                username: username.to_owned(),
                description: about.to_owned(),
                presence,
                presence_label: label.to_owned(),
            },
        );
        i = i + 1;
    }
    out
}

pub open spec fn demo_profile(p: ProfileData, me: bool) -> bool {
    &&& p.id@ == "9314226124"@
    &&& p.name@ == (if me { "adam"@ } else { "UsedHenry06"@ })
    &&& p.username@ == (if me { "adam"@ } else { "usedhenry06"@ })
    &&& p.description@ == "Building things in Studio, mostly. Ask me about trains."@
    &&& p.joined@ == "3 years"@
    &&& p.also_known_as@.len() == 0
    &&& !p.verified
    &&& p.friends@ == "48"@
    &&& p.followers@ == "126"@
    &&& p.following@ == "83"@
    &&& p.presence == 2
    &&& p.presence_label@ == "In Jailbreak"@
    &&& p.place_id@ == "606849621"@
    &&& p.is_friend == !me
    &&& !p.has_incoming_request
    &&& p.is_self == me
}

/// A profile to look at: the user's own, or that of a friend.
pub fn profile(me: bool) -> (p: ProfileData)
    ensures
        demo_profile(p, me),
{
    ProfileData {
        id: "9314226124".to_owned(),
        name: (if me {
            "adam"
        } else {
            "UsedHenry06"
        }).to_owned(),
        username: (if me {
            "adam"
        } else {
            "usedhenry06"
        }).to_owned(),
        description: "Building things in Studio, mostly. Ask me about trains.".to_owned(),
        joined: "3 years".to_owned(),
        also_known_as: String::new(),
        verified: false,
        friends: "48".to_owned(),
        followers: "126".to_owned(),
        following: "83".to_owned(),
        presence: 2,
        presence_label: "In Jailbreak".to_owned(),
        place_id: "606849621".to_owned(),
        is_friend: !me,
        has_incoming_request: false,
        is_self: me,
    }
}

/// A line of the members of a group.
pub struct MemberRow {
    pub id: String,
    pub name: String,
    pub username: String,
    pub role: String,
    pub rank: i32,
}

pub open spec fn demo_member(r: MemberRow, i: int) -> bool {
    let (id, name, username, role, rank) = MEMBERS@[i];
    &&& r.id@ == id@
    &&& r.name@ == name@
    &&& r.username@ == username@
    &&& r.role@ == role@
    &&& r.rank == rank
}

pub fn members() -> (out: Vec<MemberRow>)
    ensures
        out.len() == 6,
        forall|i: int| 0 <= i < 6 ==> demo_member(#[trigger] out@[i], i),
{
    let mut out: Vec<MemberRow> = Vec::new();
    let mut i: usize = 0;
    while i < 6
        invariant
            i <= 6,
            out.len() == i,
            forall|k: int| 0 <= k < i ==> demo_member(#[trigger] out@[k], k),
        decreases 6 - i,
    {
        let (id, name, username, role, rank) = MEMBERS[i];
        out.push(
            MemberRow {
                id: id.to_owned(),
                name: name.to_owned(),
                username: username.to_owned(),
                role: role.to_owned(),
                rank,
            },
        );
        i = i + 1;
    }
    out
}

/// A stretch of play.
#[derive(Debug, Clone)]
pub struct PlaySession {
    pub universe_id: i64,
    pub root_place_id: i64,
    pub name: String,
    pub start: i64,
    pub end: i64,
}

/// The games that are played: the universe and the name. The last is hidden.
pub const PLAYED: [(i64, &'static str); 4] = [
    (245662005, "Jailbreak"),
    (1962086868, "Tower Defense Simulator"),
    (2440500124, "Doors"),
    (0, ""),
];

/// How many sessions a day has.
pub open spec fn sessions_on(day: int, spread: int) -> nat {
    ((day * spread) % 3 + 1) as nat
}

/// The session is number `k` of a day.
pub open spec fn session_is(s: PlaySession, now: int, spread: int, day: int, k: int) -> bool {
    let game = PLAYED@[(day + k + spread) % 4];
    let start = now - day * 86_400 - 21_600 + k * 5_400;
    &&& s.universe_id == game.0
    &&& s.root_place_id == game.0 * 10
    &&& s.name@ == game.1@
    &&& s.start == start
    &&& s.end == start + 900 + ((day * 13 + k * 29 + spread) % 47) * 120
}

/// The sessions of the first `days` days: the day and the number of each.
pub open spec fn sessions_of(spread: int, days: nat) -> Seq<(int, int)>
    decreases days,
{
    if days == 0 {
        Seq::empty()
    } else {
        sessions_of(spread, (days - 1) as nat) + Seq::new(
            sessions_on(days - 1, spread),
            |k: int| (days - 1, k),
        )
    }
}

/// A fortnight of plausible sessions. `spread` makes them uneven.
pub fn fake_sessions(now: i64, spread: i64) -> (out: Vec<PlaySession>)
    requires
        i64::MIN + 1_144_800 <= now,
        0 <= spread <= i64::MAX / 13,
    ensures
        out.len() == sessions_of(spread as int, 14).len(),
        forall|i: int|
            0 <= i < out.len() ==> session_is(
                #[trigger] out@[i],
                now as int,
                spread as int,
                sessions_of(spread as int, 14)[i].0,
                sessions_of(spread as int, 14)[i].1,
            ),
{
    let mut out: Vec<PlaySession> = Vec::new();
    let mut day: i64 = 0;
    while day < 14
        invariant
            0 <= day <= 14,
            i64::MIN + 1_144_800 <= now,
            0 <= spread <= i64::MAX / 13,
            out.len() == sessions_of(spread as int, day as nat).len(),
            forall|i: int|
                0 <= i < out.len() ==> session_is(
                    #[trigger] out@[i],
                    now as int,
                    spread as int,
                    sessions_of(spread as int, day as nat)[i].0,
                    sessions_of(spread as int, day as nat)[i].1,
                ),
        decreases 14 - day,
    {
        assert(0 <= day * spread <= 13 * spread) by (nonlinear_arith)
            requires
                0 <= day <= 13,
                0 <= spread,
        ;
        let base: i64 = now - day * 86_400 - 21_600;
        let n: i64 = (day * spread) % 3 + 1;
        let ghost before = sessions_of(spread as int, day as nat);
        let ghost after = sessions_of(spread as int, (day + 1) as nat);
        assert(after =~= before + Seq::new(n as nat, |k: int| (day as int, k)));
        let mut k: i64 = 0;
        while k < n
            invariant
                0 <= k <= n <= 3,
                0 <= day < 14,
                i64::MIN + 1_144_800 <= now,
                0 <= spread <= i64::MAX / 13,
                base == now - day * 86_400 - 21_600,
                after == before + Seq::new(n as nat, |k: int| (day as int, k)),
                out.len() == before.len() + k,
                forall|i: int|
                    0 <= i < out.len() ==> session_is(
                        #[trigger] out@[i],
                        now as int,
                        spread as int,
                        after[i].0,
                        after[i].1,
                    ),
            decreases n - k,
        {
            let (universe, name): (i64, &'static str) = PLAYED[((day + k + spread) % 4) as usize];
            let start: i64 = base + k * 5_400;
            let secs: i64 = 900 + ((day * 13 + k * 29 + spread) % 47) * 120;
            assert(after[before.len() + k] == (day as int, k as int));
            assert(0 <= universe <= 2440500124);
            out.push(
                PlaySession {
                    universe_id: universe,
                    root_place_id: universe * 10,
                    name: name.to_owned(),
                    start,
                    end: start + secs,
                },
            );
            k = k + 1;
        }
        day = day + 1;
    }
    out
}

pub fn recents() -> (out: Vec<String>)
    ensures
        out.len() == 3,
        forall|i: int| 0 <= i < 3 ==> (#[trigger] out@[i])@ == RECENTS@[i]@,
{
    let mut out: Vec<String> = Vec::new();
    let mut i: usize = 0;
    while i < 3
        invariant
            i <= 3,
            out.len() == i,
            forall|k: int| 0 <= k < i ==> (#[trigger] out@[k])@ == RECENTS@[k]@,
        decreases 3 - i,
    {
        out.push(RECENTS[i].to_owned());
        i = i + 1;
    }
    out
}

/// What is asked to be on screen at first.
pub struct Wish {
    /// The profile is the user's own.
    pub me: bool,
    /// The requests are open.
    pub requests: bool,
    pub section: Option<i32>,
    /// The page on top of the section, or none of them.
    pub page: Option<i32>,
}

/// What is shown beside the session.
pub struct Showcase {
    pub accounts: i32,
    pub friend_requests: i32,
    pub game: GameDetailData,
    pub recents: Vec<String>,
    pub requests: Vec<RequestRow>,
    pub requests_open: bool,
    pub profile: ProfileData,
    pub member_total: String,
    pub members: Vec<MemberRow>,
}

pub open spec fn demo_showcase(c: Showcase, wish: Wish) -> bool {
    &&& c.accounts == 2
    &&& c.friend_requests == 2
    &&& demo_game(c.game)
    &&& c.recents.len() == 3
    &&& forall|i: int| 0 <= i < 3 ==> (#[trigger] c.recents@[i])@ == RECENTS@[i]@
    &&& c.requests.len() == 3
    &&& forall|i: int| 0 <= i < 3 ==> demo_request(#[trigger] c.requests@[i], i)
    &&& c.requests_open == wish.requests
    &&& demo_profile(c.profile, wish.me)
    &&& c.member_total@ == compact_text(184_302)
    &&& c.members.len() == 6
    &&& forall|i: int| 0 <= i < 6 ==> demo_member(#[trigger] c.members@[i], i)
}

/// The list shows the friends, the pinned on top, as it looks at `now`.
pub open spec fn demo_view(v: FriendsView, last_online: Seq<String>, now: Moment) -> bool {
    exists|friends: Seq<FriendInput>, pinned: Seq<String>, notify: Seq<String>|
        {
            &&& friends.len() == 8
            &&& forall|i: int|
                0 <= i < 8 ==> demo_friend(#[trigger] friends[i], i, last_online[i]@)
            &&& texts(pinned) == marked_friends(true, 8)
            &&& texts(notify) == marked_friends(false, 8)
            &&& #[trigger] view_shows(v, friends, pinned, notify, ""@, false, now)
        }
}

/// The friends as a list: the pinned on top, nothing searched for and nothing
/// folded away.
pub fn friends_view(last_online: &Vec<String>, now: Moment) -> (v: FriendsView)
    requires
        last_online.len() == 8,
    ensures
        demo_view(v, last_online@, now),
        v.in_game == 2,
        v.online == 3,
{
    let friends = friends(last_online);
    let pinned = marked(true);
    let notify = marked(false);
    let v = friend_rows_at(&friends, &pinned, &notify, "", false, now);
    proof {
        lemma_counts(friends@, last_online@);
    }
    v
}

proof fn lemma_count(friends: Seq<FriendInput>, p: spec_fn(FriendInput) -> bool, k: int)
    requires
        0 <= k < friends.len(),
    ensures
        friends.take(k + 1).filter(p).len() == friends.take(k).filter(p).len() + (if p(
            friends[k],
        ) {
            1int
        } else {
            0
        }),
{
    reveal(Seq::filter);
    assert(friends.take(k + 1).drop_last() =~= friends.take(k));
    assert(friends.take(k + 1).last() == friends[k]);
}

proof fn lemma_counts(friends: Seq<FriendInput>, last_online: Seq<String>)
    requires
        friends.len() == 8,
        forall|i: int| 0 <= i < 8 ==> demo_friend(#[trigger] friends[i], i, last_online[i]@),
    ensures
        friends.filter(|f: FriendInput| is_in_game(f)).len() == 2,
        friends.filter(|f: FriendInput| is_online(f)).len() == 3,
{
    let playing = |f: FriendInput| is_in_game(f);
    let online = |f: FriendInput| is_online(f);
    reveal(Seq::filter);
    assert(friends.take(0) =~= Seq::<FriendInput>::empty());
    assert(friends.take(8) =~= friends);
    assert forall|k: int| 0 <= k < 8 implies (#[trigger] friends[k]).presence == FRIENDS@[k].2 by {
        assert(demo_friend(friends[k], k, last_online[k]@));
    }
    lemma_count(friends, playing, 0);
    lemma_count(friends, playing, 1);
    lemma_count(friends, playing, 2);
    lemma_count(friends, playing, 3);
    lemma_count(friends, playing, 4);
    lemma_count(friends, playing, 5);
    lemma_count(friends, playing, 6);
    lemma_count(friends, playing, 7);
    lemma_count(friends, online, 0);
    lemma_count(friends, online, 1);
    lemma_count(friends, online, 2);
    lemma_count(friends, online, 3);
    lemma_count(friends, online, 4);
    lemma_count(friends, online, 5);
    lemma_count(friends, online, 6);
    lemma_count(friends, online, 7);
}

/// Fill the screens of a session, and give what is shown beside it. `last_online`
/// says when each friend was online last.
pub fn seed(
    s: &mut Session,
    last_online: &Vec<String>,
    now: Moment,
    wish: &Wish,
) -> (shown: Showcase)
    requires
        last_online.len() == 8,
    ensures
        demo_showcase(shown, *wish),
        final(s).account_name@ == "adam"@,
        final(s).friends_in_game == 2,
        final(s).friends_online == 3,
        demo_view(
            (FriendsView {
                rows: final(s).friend_rows,
                in_game: final(s).friends_in_game,
                online: final(s).friends_online,
            }),
            last_online@,
            now,
        ),
        final(s).hero matches Some(t) && demo_tile(t, 0),
        demo_tiles(final(s).grids.recent@, 0, 6),
        demo_tiles(final(s).grids.favorites@, 0, 4),
        demo_tiles(final(s).grids.related@, 2, 4),
        demo_tiles(final(s).grids.play_games@, 0, 6),
        final(s).grids == (Grids {
            recent: final(s).grids.recent,
            favorites: final(s).grids.favorites,
            related: final(s).grids.related,
            play_games: final(s).grids.play_games,
            ..old(s).grids
        }),
        final(s).sub_places.len() == 3,
        forall|i: int| 0 <= i < 3 ==> demo_sub_place(#[trigger] final(s).sub_places@[i], i),
        final(s).servers.len() == 4,
        forall|i: int| 0 <= i < 4 ==> demo_server(#[trigger] final(s).servers@[i], i),
        final(s).passes.len() == 4,
        forall|i: int|
            0 <= i < 4 ==> item_is(
                #[trigger] final(s).passes@[i],
                "p"@ + decimal(i as nat),
                "VIP Pass "@ + decimal((i + 1) as nat),
                Seq::empty(),
                2,
            ),
        final(s).finder.last_query@ == "jailbreak"@,
        final(s).finder == (Finder {
            last_query: final(s).finder.last_query,
            ..old(s).finder
        }),
        final(s).screen == (Screen {
            section: (match wish.section {
                Some(n) => n,
                None => old(s).screen.section,
            }),
            kind: (match wish.page {
                Some(n) => n,
                None => old(s).screen.kind,
            }),
            can_back: (match wish.page {
                Some(n) => n != NO_PAGE,
                None => old(s).screen.can_back,
            }),
            return_section: old(s).screen.return_section,
        }),
        *final(s) == (Session {
            signed_in: true,
            account_name: final(s).account_name,
            friends_in_game: final(s).friends_in_game,
            friends_online: final(s).friends_online,
            friend_rows: final(s).friend_rows,
            grids: final(s).grids,
            hero: final(s).hero,
            sub_places: final(s).sub_places,
            servers: final(s).servers,
            passes: final(s).passes,
            finder: final(s).finder,
            screen: final(s).screen,
            ..*old(s)
        }),
{
    s.signed_in = true;
    s.account_name = "adam".to_owned();
    s.grids.recent = tiles(0, 6);
    s.grids.favorites = tiles(0, 4);
    s.grids.related = tiles(2, 6);
    s.grids.play_games = tiles(0, 6);
    s.sub_places = sub_places();
    s.servers = servers();
    s.passes = passes();
    s.hero = Some(tile(0));
    s.finder.last_query = "jailbreak".to_owned();
    let view = friends_view(last_online, now);
    s.friends_in_game = view.in_game;
    s.friends_online = view.online;
    s.friend_rows = view.rows;
    match wish.section {
        Some(n) => {
            s.screen.section = n;
        },
        None => {},
    }
    match wish.page {
        Some(n) => {
            s.screen.kind = n;
            s.screen.can_back = n != NO_PAGE;
        },
        None => {},
    }
    Showcase {
        accounts: 2,
        friend_requests: 2,
        game: game(),
        recents: recents(),
        requests: requests(),
        requests_open: wish.requests,
        profile: profile(wish.me),
        member_total: compact(184_302),
        members: members(),
    }
}

} // verus!
