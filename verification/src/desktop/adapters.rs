//! From the service's models to the rows and tiles that are shown, and the
//! formatters these need.
//!
//! Ids become text here: what shows them counts in 32 bits, and place and user
//! ids already exceed that range.

use crate::clock::{
    date_of, elapsed_seconds, in_calendar, present, seconds_after, written_date, Moment,
};
use crate::number::{decimal, decimal_int, int_text, nat_text};
use crate::ratio::{
    fixed_1, one_decimal, percent_spec, quotient, short_decimal, short_quotient,
};
use crate::roblox::models::{vote_percent, Badge, GameDetail, GamePass, Place, Server, Votes};
use crate::roblox::search::OmniGame;
use crate::text::{
    ascii_lowercase, cat2, cat3, chars_of, first_line, line_one, or_empty, range_text,
    same_ignoring_case, text_or_empty,
};
use vstd::prelude::*;
use vstd::string::*;

verus! {

/// A count in short form: below a thousand as it is, then in thousands, millions
/// and billions, with one decimal while the number is short.
pub open spec fn compact_text(n: int) -> Seq<char> {
    if n < 0 {
        "0"@
    } else if n < 1_000 {
        decimal(n as nat)
    } else if n < 1_000_000 {
        short_quotient(n as nat, 1_000) + "K"@
    } else if n < 1_000_000_000 {
        short_quotient(n as nat, 1_000_000) + "M"@
    } else {
        fixed_1(quotient(n as nat, 1_000_000_000)) + "B"@
    }
}

/// Compact player and visit counts: 1234 is "1.2K", 4500000 is "4.5M".
pub fn compact(n: i64) -> (s: String)
    ensures
        s@ == compact_text(n as int),
{
    if n < 0 {
        "0".to_owned()
    } else if n < 1_000 {
        nat_text(n as u64)
    } else if n < 1_000_000 {
        cat2(short_decimal(n as u64, 1_000).as_str(), "K")
    } else if n < 1_000_000_000 {
        cat2(short_decimal(n as u64, 1_000_000).as_str(), "M")
    } else {
        cat2(one_decimal(n as u64, 1_000_000_000).as_str(), "B")
    }
}

/// An RFC 3339 time as "2 Jan 2020"; empty for anything else, because a raw
/// timestamp is worse than none.
pub fn fmt_date(iso: &str) -> (s: String)
    ensures
        s@ == (match date_of(iso@) {
            Some(t) => t,
            None => Seq::empty(),
        }),
{
    match written_date(iso) {
        Some(t) => t,
        None => String::new(),
    }
}

pub open spec fn greeting_text(hour: u32) -> Seq<char> {
    if 5 <= hour <= 11 {
        "Good morning"@
    } else if 12 <= hour <= 17 {
        "Good afternoon"@
    } else {
        "Good evening"@
    }
}

pub fn greeting(hour: u32) -> (s: &'static str)
    ensures
        s@ == greeting_text(hour),
{
    if 5 <= hour && hour <= 11 {
        "Good morning"
    } else if 12 <= hour && hour <= 17 {
        "Good afternoon"
    } else {
        "Good evening"
    }
}

/// Seconds as "30s", "45m", "4h" or "4h 20m".
pub open spec fn duration_text(secs: nat) -> Seq<char> {
    if secs == 0 {
        "0m"@
    } else if secs < 60 {
        decimal(secs) + "s"@
    } else if secs < 3_600 {
        decimal(secs / 60) + "m"@
    } else if (secs % 3_600) / 60 == 0 {
        decimal(secs / 3_600) + "h"@
    } else {
        decimal(secs / 3_600) + "h "@ + decimal((secs % 3_600) / 60) + "m"@
    }
}

/// Seconds as "4h 20m", "45m" or "30s". Never "0h 0m".
pub fn fmt_duration(secs: u64) -> (s: String)
    ensures
        s@ == duration_text(secs as nat),
{
    if secs == 0 {
        "0m".to_owned()
    } else if secs < 60 {
        cat2(nat_text(secs).as_str(), "s")
    } else if secs < 3_600 {
        cat2(nat_text(secs / 60).as_str(), "m")
    } else {
        let hours: u64 = secs / 3_600;
        let mins: u64 = (secs % 3_600) / 60;
        let mut s = nat_text(hours);
        if mins == 0 {
            s.append("h");
        } else {
            s.append("h ");
            s.append(nat_text(mins).as_str());
            s.append("m");
        }
        s
    }
}

/// How long ago, by two unix timestamps, in minutes, hours, days or weeks.
pub open spec fn since_text(secs: int) -> Seq<char> {
    if secs < 90 {
        "just now"@
    } else if secs < 3_600 {
        decimal((secs / 60) as nat) + "m ago"@
    } else if secs < 86_400 {
        decimal((secs / 3_600) as nat) + "h ago"@
    } else if secs < 604_800 {
        decimal((secs / 86_400) as nat) + "d ago"@
    } else {
        decimal((secs / 604_800) as nat) + "w ago"@
    }
}

/// "3h ago" from two unix timestamps. A clock that went backwards reads as no
/// time at all.
pub fn time_ago_unix(then: i64, now: i64) -> (s: String)
    requires
        i64::MIN <= now - then <= i64::MAX,
    ensures
        s@ == since_text(now - then),
{
    let secs: i64 = now - then;
    if secs < 90 {
        return "just now".to_owned();
    }
    let secs: u64 = secs as u64;
    if secs < 3_600 {
        cat2(nat_text(secs / 60).as_str(), "m ago")
    } else if secs < 86_400 {
        cat2(nat_text(secs / 3_600).as_str(), "h ago")
    } else if secs < 604_800 {
        cat2(nat_text(secs / 86_400).as_str(), "d ago")
    } else {
        cat2(nat_text(secs / 604_800).as_str(), "w ago")
    }
}

/// How long ago, in minutes, hours, days or months.
pub open spec fn ago_text(secs: int) -> Seq<char> {
    if secs < 60 {
        "just now"@
    } else if secs < 3_600 {
        decimal((secs / 60) as nat) + "m ago"@
    } else if secs < 86_400 {
        decimal((secs / 3_600) as nat) + "h ago"@
    } else if secs < 2_592_000 {
        decimal((secs / 86_400) as nat) + "d ago"@
    } else {
        decimal((secs / 2_592_000) as nat) + "mo ago"@
    }
}

/// Words for a number of seconds that have passed.
pub fn ago_label(secs: i64) -> (s: String)
    ensures
        s@ == ago_text(secs as int),
{
    if secs < 60 {
        return "just now".to_owned();
    }
    let secs: u64 = secs as u64;
    if secs < 3_600 {
        cat2(nat_text(secs / 60).as_str(), "m ago")
    } else if secs < 86_400 {
        cat2(nat_text(secs / 3_600).as_str(), "h ago")
    } else if secs < 2_592_000 {
        cat2(nat_text(secs / 86_400).as_str(), "d ago")
    } else {
        cat2(nat_text(secs / 2_592_000).as_str(), "mo ago")
    }
}

/// How long before `now` an RFC 3339 time was; nothing where the text is no such
/// time.
pub open spec fn ago_at(iso: Seq<char>, now: Moment) -> Seq<char> {
    match seconds_after(iso, now) {
        Some(secs) => ago_text(secs as int),
        None => Seq::empty(),
    }
}

/// "3m ago", "2h ago", "5d ago", seen from `now`.
pub fn time_ago_at(iso: &str, now: Moment) -> (s: String)
    ensures
        s@ == ago_at(iso@, now),
        s@.len() > 0 <==> date_of(iso@) is Some && in_calendar(now),
{
    proof {
        law_a_readable_time_is_shown(iso@, now);
    }
    match elapsed_seconds(iso, now) {
        Some(secs) => ago_label(secs),
        None => String::new(),
    }
}

/// "3m ago", "2h ago", "5d ago". Empty for anything unreadable, because a raw
/// timestamp under someone's name is worse than no subtitle at all.
pub fn time_ago(iso: &str) -> (s: String)
    ensures
        exists|now: Moment|
            in_calendar(now) && now.secs >= 0 && s@ == #[trigger] ago_at(iso@, now),
        s@.len() > 0 <==> date_of(iso@) is Some,
{
    let now = present();
    time_ago_at(iso, now)
}

/// A time that can be read is always shown as something, at any moment of the
/// calendar, and one that cannot as nothing.
pub proof fn law_a_readable_time_is_shown(iso: Seq<char>, now: Moment)
    ensures
        ago_at(iso, now).len() > 0 <==> date_of(iso) is Some && in_calendar(now),
{
    reveal_strlit("just now");
    reveal_strlit("m ago");
    reveal_strlit("h ago");
    reveal_strlit("d ago");
    reveal_strlit("mo ago");
}

/// Time that has passed is never shown as negative: a moment in the future reads
/// as now, on either scale.
pub proof fn law_the_future_is_now(secs: int)
    requires
        secs < 0,
    ensures
        ago_text(secs) == "just now"@,
        since_text(secs) == "just now"@,
{
}


/// A game as a tile in a grid.
#[derive(Debug, Clone, Default)]
pub struct GameTile {
    /// The place that is launched by default.
    pub id: String,
    pub universe_id: String,
    pub name: String,
    pub creator: String,
    pub playing: String,
    /// The share of positive votes in percent, or -1 when nobody has voted.
    pub rating: i32,
    pub favorited: bool,
}

/// The rating that is shown for an approval percentage.
pub open spec fn shown_rating(p: Option<i32>) -> i32 {
    match p {
        Some(r) => r,
        None => -1i32,
    }
}

/// The votes can be added up.
pub open spec fn votes_add_up(v: Votes) -> bool {
    i64::MIN <= v.up_votes + v.down_votes <= i64::MAX
}

pub open spec fn rating_of(votes: Option<&Votes>) -> i32 {
    match votes {
        Some(v) => shown_rating(vote_percent(v.up_votes as int, v.down_votes as int)),
        None => -1i32,
    }
}

fn rating(votes: Option<&Votes>) -> (r: i32)
    requires
        votes matches Some(v) ==> votes_add_up(*v),
    ensures
        r == rating_of(votes),
{
    match votes {
        Some(v) => match v.percent() {
            Some(p) => p,
            None => -1,
        },
        None => -1,
    }
}

/// The tile shows this game.
pub open spec fn tile_shows(t: GameTile, d: GameDetail, rating: i32, favorited: bool) -> bool {
    &&& t.id@ == decimal_int(d.root_place_id as int)
    &&& t.universe_id@ == decimal_int(d.id as int)
    &&& t.name@ == d.name@
    &&& t.creator@ == d.creator.name@
    &&& t.playing@ == compact_text(d.playing as int)
    &&& t.rating == rating
    &&& t.favorited == favorited
}

pub fn tile_from_detail(d: &GameDetail, votes: Option<&Votes>, favorited: bool) -> (t: GameTile)
    requires
        votes matches Some(v) ==> votes_add_up(*v),
    ensures
        tile_shows(t, *d, rating_of(votes), favorited),
{
    GameTile {
        id: int_text(d.root_place_id),
        universe_id: int_text(d.id),
        name: d.name.clone(),
        creator: d.creator.name.clone(),
        playing: compact(d.playing),
        rating: rating(votes),
        favorited,
    }
}

pub fn tile_from_omni(g: &OmniGame) -> (t: GameTile)
    requires
        i64::MIN <= g.total_up_votes + g.total_down_votes <= i64::MAX,
    ensures
        t.id@ == decimal_int(g.root_place_id as int),
        t.universe_id@ == decimal_int(g.universe_id as int),
        t.name@ == g.name@,
        t.creator@ == g.creator_name@,
        t.playing@ == compact_text(g.player_count as int),
        t.rating == shown_rating(
            vote_percent(g.total_up_votes as int, g.total_down_votes as int),
        ),
        !t.favorited,
{
    GameTile {
        id: int_text(g.root_place_id),
        universe_id: int_text(g.universe_id),
        name: g.name.clone(),
        creator: g.creator_name.clone(),
        playing: compact(g.player_count),
        rating: match g.percent() {
            Some(p) => p,
            None => -1,
        },
        favorited: false,
    }
}

/// Everything the page of one game shows.
#[derive(Debug, Clone, Default)]
pub struct GameDetailData {
    pub universe_id: String,
    pub root_place_id: String,
    pub name: String,
    pub creator: String,
    pub creator_id: String,
    pub creator_is_group: bool,
    pub description: String,
    pub playing: String,
    pub visits: String,
    pub favorites: String,
    pub max_players: String,
    pub created: String,
    pub updated: String,
    pub genre: String,
    pub rating: i32,
    pub favorited: bool,
    pub notify: bool,
}

/// A date as it is shown.
pub open spec fn shown_date(iso: Seq<char>) -> Seq<char> {
    match date_of(iso) {
        Some(t) => t,
        None => Seq::empty(),
    }
}

/// The page shows this game.
pub open spec fn detail_shows(
    r: GameDetailData,
    d: GameDetail,
    votes: Option<&Votes>,
    notify: bool,
) -> bool {
    &&& r.universe_id@ == decimal_int(d.id as int)
    &&& r.root_place_id@ == decimal_int(d.root_place_id as int)
    &&& r.name@ == d.name@
    &&& r.creator@ == d.creator.name@
    &&& r.creator_id@ == decimal_int(d.creator.id as int)
    &&& r.creator_is_group == (ascii_lowercase(d.creator.kind@) == ascii_lowercase("Group"@))
    &&& r.description@ == or_empty(d.description)
    &&& r.playing@ == compact_text(d.playing as int)
    &&& r.visits@ == compact_text(d.visits as int)
    &&& r.favorites@ == compact_text(d.favorited_count as int)
    &&& r.max_players@ == decimal_int(d.max_players as int)
    &&& r.created@ == shown_date(d.created@)
    &&& r.updated@ == shown_date(d.updated@)
    &&& r.genre@ == (if or_empty(d.genre).len() == 0 {
        "—"@
    } else {
        or_empty(d.genre)
    })
    &&& r.rating == rating_of(votes)
    &&& r.favorited == d.is_favorited_by_user
    &&& r.notify == notify
}

pub fn detail_data(d: &GameDetail, votes: Option<&Votes>, notify: bool) -> (r: GameDetailData)
    requires
        votes matches Some(v) ==> votes_add_up(*v),
    ensures
        detail_shows(r, *d, votes, notify),
{
    let genre = text_or_empty(&d.genre);
    GameDetailData {
        universe_id: int_text(d.id),
        root_place_id: int_text(d.root_place_id),
        name: d.name.clone(),
        creator: d.creator.name.clone(),
        creator_id: int_text(d.creator.id),
        creator_is_group: same_ignoring_case(d.creator.kind.as_str(), "Group"),
        description: text_or_empty(&d.description),
        playing: compact(d.playing),
        visits: compact(d.visits),
        favorites: compact(d.favorited_count),
        max_players: int_text(d.max_players as i64),
        created: fmt_date(d.created.as_str()),
        updated: fmt_date(d.updated.as_str()),
        genre: if genre.as_str().is_empty() {
            "—".to_owned()
        } else {
            genre
        },
        rating: rating(votes),
        favorited: d.is_favorited_by_user,
        notify,
    }
}

/// A place inside a game, as it is listed.
#[derive(Debug, Clone, Default)]
pub struct SubPlace {
    pub id: String,
    pub name: String,
    pub description: String,
}

/// The first line of a text, and no more of it than `n` characters.
pub open spec fn one_short_line(s: Seq<char>, n: nat) -> Seq<char> {
    let line = first_line(s);
    if line.len() > n {
        line.take(n as int)
    } else {
        line
    }
}

pub open spec fn sub_place_shows(r: SubPlace, p: Place) -> bool {
    &&& r.id@ == decimal_int(p.id as int)
    &&& r.name@ == p.name@
    &&& r.description@ == one_short_line(or_empty(p.description), 90)
}

fn short_line(s: &str, n: usize) -> (r: String)
    ensures
        r@ == one_short_line(s@, n as nat),
{
    let line = chars_of(line_one(s).as_str());
    let end: usize = if line.len() > n {
        n
    } else {
        line.len()
    };
    let r = range_text(&line, 0, end);
    assert(r@ =~= one_short_line(s@, n as nat));
    r
}

/// The sub-places as they are listed, each description cut to one short line.
pub fn sub_places(places: &Vec<Place>) -> (rows: Vec<SubPlace>)
    ensures
        rows.len() == places.len(),
        forall|i: int| 0 <= i < rows.len() ==> sub_place_shows(#[trigger] rows@[i], places@[i]),
{
    let mut rows: Vec<SubPlace> = Vec::new();
    let mut i: usize = 0;
    while i < places.len()
        invariant
            i <= places.len(),
            rows.len() == i,
            forall|k: int| 0 <= k < i ==> sub_place_shows(#[trigger] rows@[k], places@[k]),
        decreases places.len() - i,
    {
        let p = &places[i];
        let description = text_or_empty(&p.description);
        rows.push(
            SubPlace {
                id: int_text(p.id),
                name: p.name.clone(),
                description: short_line(description.as_str(), 90),
            },
        );
        i = i + 1;
    }
    rows
}

/// A running server, as it is listed. How full it is, is `fill_part` out of
/// `fill_whole`.
#[derive(Debug, Clone, Default)]
pub struct ServerRow {
    pub id: String,
    pub playing: i32,
    pub max: i32,
    pub label: String,
    pub fill_part: i32,
    pub fill_whole: i32,
    /// Players beyond the ones whose pictures are shown.
    pub more: i32,
}

/// How many player pictures one server shows.
pub const FACES: usize = 4;

pub open spec fn faces_shown(s: Server) -> int {
    match s.player_tokens {
        Some(t) => if t.len() < FACES {
            t.len() as int
        } else {
            FACES as int
        },
        None => 0,
    }
}

pub open spec fn server_shows(r: ServerRow, s: Server) -> bool {
    &&& r.id@ == s.id@
    &&& r.playing == s.playing
    &&& r.max == s.max_players
    &&& r.label@ == decimal_int(s.playing as int) + " / "@ + decimal_int(s.max_players as int)
    &&& s.max_players <= 0 ==> r.fill_part == 0 && r.fill_whole == 1
    &&& s.max_players > 0 ==> r.fill_whole == s.max_players && r.fill_part == (if s.playing < 0 {
        0
    } else if s.playing > s.max_players {
        s.max_players
    } else {
        s.playing
    })
    &&& r.more == (if s.playing > faces_shown(s) {
        s.playing - faces_shown(s)
    } else {
        0
    })
}

/// A server's fill is a share: it lies between nothing and everything, whatever
/// the service reports.
pub proof fn law_server_fill_is_a_share(r: ServerRow, s: Server)
    requires
        server_shows(r, s),
    ensures
        0 <= r.fill_part <= r.fill_whole,
        r.fill_whole > 0,
        r.more >= 0,
{
}

pub fn server_row(s: &Server) -> (r: ServerRow)
    ensures
        server_shows(r, *s),
{
    let shown: usize = match &s.player_tokens {
        Some(t) => if t.len() < FACES {
            t.len()
        } else {
            FACES
        },
        None => 0,
    };
    let shown: i32 = shown as i32;
    let (fill_part, fill_whole): (i32, i32) = if s.max_players > 0 {
        (
            if s.playing < 0 {
                0
            } else if s.playing > s.max_players {
                s.max_players
            } else {
                s.playing
            },
            s.max_players,
        )
    } else {
        (0, 1)
    };
    ServerRow {
        id: s.id.clone(),
        playing: s.playing,
        max: s.max_players,
        label: cat3(
            int_text(s.playing as i64).as_str(),
            " / ",
            int_text(s.max_players as i64).as_str(),
        ),
        fill_part,
        fill_whole,
        more: if s.playing > shown {
            s.playing - shown
        } else {
            0
        },
    }
}

/// The servers as they are listed.
pub fn servers(list: &Vec<Server>) -> (rows: Vec<ServerRow>)
    ensures
        rows.len() == list.len(),
        forall|i: int| 0 <= i < rows.len() ==> server_shows(#[trigger] rows@[i], list@[i]),
{
    let mut rows: Vec<ServerRow> = Vec::new();
    let mut i: usize = 0;
    while i < list.len()
        invariant
            i <= list.len(),
            rows.len() == i,
            forall|k: int| 0 <= k < i ==> server_shows(#[trigger] rows@[k], list@[k]),
        decreases list.len() - i,
    {
        rows.push(server_row(&list[i]));
        i = i + 1;
    }
    rows
}

/// A thing in a grid of details: a pass, a badge, a setting that was found.
#[derive(Debug, Clone, Default)]
pub struct DetailItem {
    pub id: String,
    pub name: String,
    pub subtitle: String,
    pub kind: i32,
}

pub open spec fn item_is(
    r: DetailItem,
    id: Seq<char>,
    name: Seq<char>,
    subtitle: Seq<char>,
    kind: i32,
) -> bool {
    r.id@ == id && r.name@ == name && r.subtitle@ == subtitle && r.kind == kind
}

pub fn passes(list: &Vec<GamePass>) -> (rows: Vec<DetailItem>)
    ensures
        rows.len() == list.len(),
        forall|i: int|
            0 <= i < rows.len() ==> item_is(
                #[trigger] rows@[i],
                decimal_int(list@[i].id as int),
                list@[i].name@,
                Seq::empty(),
                2,
            ),
{
    let mut rows: Vec<DetailItem> = Vec::new();
    let mut i: usize = 0;
    while i < list.len()
        invariant
            i <= list.len(),
            rows.len() == i,
            forall|k: int|
                0 <= k < i ==> item_is(
                    #[trigger] rows@[k],
                    decimal_int(list@[k].id as int),
                    list@[k].name@,
                    Seq::empty(),
                    2,
                ),
        decreases list.len() - i,
    {
        rows.push(
            DetailItem {
                id: int_text(list[i].id),
                name: list[i].name.clone(),
                subtitle: String::new(),
                kind: 2,
            },
        );
        i = i + 1;
    }
    rows
}

pub fn badges(list: &Vec<Badge>) -> (rows: Vec<DetailItem>)
    ensures
        rows.len() == list.len(),
        forall|i: int|
            0 <= i < rows.len() ==> item_is(
                #[trigger] rows@[i],
                decimal_int(list@[i].id as int),
                list@[i].name@,
                or_empty(list@[i].description),
                3,
            ),
{
    let mut rows: Vec<DetailItem> = Vec::new();
    let mut i: usize = 0;
    while i < list.len()
        invariant
            i <= list.len(),
            rows.len() == i,
            forall|k: int|
                0 <= k < i ==> item_is(
                    #[trigger] rows@[k],
                    decimal_int(list@[k].id as int),
                    list@[k].name@,
                    or_empty(list@[k].description),
                    3,
                ),
        decreases list.len() - i,
    {
        rows.push(
            DetailItem {
                id: int_text(list[i].id),
                name: list[i].name.clone(),
                subtitle: text_or_empty(&list[i].description),
                kind: 3,
            },
        );
        i = i + 1;
    }
    rows
}

/// The time of day: morning from five, afternoon from twelve, and evening from
/// eighteen until five.
pub proof fn law_greetings(hour: u32)
    requires
        hour < 24,
    ensures
        5 <= hour < 12 ==> greeting_text(hour) == "Good morning"@,
        12 <= hour < 18 ==> greeting_text(hour) == "Good afternoon"@,
        hour < 5 || hour >= 18 ==> greeting_text(hour) == "Good evening"@,
{
}

/// A duration in its two largest units: hours and minutes, or minutes alone, or
/// seconds alone below a minute. Whole hours go without minutes.
pub proof fn law_durations(h: nat, m: nat, s: nat)
    requires
        m < 60,
        s < 60,
    ensures
        h > 0 && m > 0 ==> duration_text(3600 * h + 60 * m + s) == decimal(h) + "h "@ + decimal(m)
            + "m"@,
        h > 0 && m == 0 ==> duration_text(3600 * h + 60 * m + s) == decimal(h) + "h"@,
        m > 0 ==> duration_text(60 * m + s) == decimal(m) + "m"@,
        s > 0 ==> duration_text(s) == decimal(s) + "s"@,
        duration_text(0) == "0m"@,
{
    let t = 3600 * h + 60 * m + s;
    assert(t / 3600 == h && t % 3600 == 60 * m + s);
    assert((60 * m + s) / 60 == m);
}

/// How long ago something was, in the largest unit that fits: minutes, hours, days,
/// and then weeks on one scale and months of thirty days on the other.
pub proof fn law_how_long_ago(n: int, rest: int)
    requires
        n >= 1,
        rest >= 0,
    ensures
        n < 60 && rest < 60 ==> ago_text(60 * n + rest) == decimal(n as nat) + "m ago"@,
        n < 24 && rest < 3600 ==> ago_text(3600 * n + rest) == decimal(n as nat) + "h ago"@,
        n < 30 && rest < 86_400 ==> ago_text(86_400 * n + rest) == decimal(n as nat) + "d ago"@,
        rest < 2_592_000 ==> ago_text(2_592_000 * n + rest) == decimal(n as nat) + "mo ago"@,
        rest < 60 ==> ago_text(rest) == "just now"@,
        n < 60 && rest < 60 && 60 * n + rest >= 90 ==> since_text(60 * n + rest) == decimal(
            n as nat,
        ) + "m ago"@,
        n < 24 && rest < 3600 ==> since_text(3600 * n + rest) == decimal(n as nat) + "h ago"@,
        n < 7 && rest < 86_400 ==> since_text(86_400 * n + rest) == decimal(n as nat) + "d ago"@,
        rest < 604_800 ==> since_text(604_800 * n + rest) == decimal(n as nat) + "w ago"@,
        rest < 90 ==> since_text(rest) == "just now"@,
{
}

/// A count is written out below a thousand, and then in thousands, millions and
/// billions by their letters. Nothing is shown of a count below zero.
pub proof fn law_short_counts(n: int)
    ensures
        0 <= n < 1000 ==> compact_text(n) == decimal(n as nat),
        1000 <= n < 1_000_000 ==> compact_text(n) == short_quotient(n as nat, 1000) + seq!['K'],
        1_000_000 <= n < 1_000_000_000 ==> compact_text(n) == short_quotient(n as nat, 1_000_000)
            + seq!['M'],
        1_000_000_000 <= n ==> compact_text(n) == fixed_1(quotient(n as nat, 1_000_000_000))
            + seq!['B'],
        n < 0 ==> compact_text(n) == seq!['0'],
{
    reveal_strlit("K");
    reveal_strlit("M");
    reveal_strlit("B");
    reveal_strlit("0");
    assert("K"@ =~= seq!['K']);
    assert("M"@ =~= seq!['M']);
    assert("B"@ =~= seq!['B']);
    assert("0"@ =~= seq!['0']);
}

/// A tile launches the root place of its game, and shows its name, who made it, how
/// many play it, its rating and its star.
pub proof fn law_what_a_tile_shows(t: GameTile, d: GameDetail, rating: i32, favorited: bool)
    requires
        tile_shows(t, d, rating, favorited),
    ensures
        t.id@ == decimal_int(d.root_place_id as int),
        t.universe_id@ == decimal_int(d.id as int),
        t.name@ == d.name@,
        t.creator@ == d.creator.name@,
        t.playing@ == compact_text(d.playing as int),
        t.rating == rating,
        t.favorited == favorited,
{
}

/// The rating that is shown is the share of positive votes, and minus one where nobody
/// has voted.
pub proof fn law_ratings_shown(v: Votes)
    ensures
        v.up_votes + v.down_votes > 0 ==> rating_of(Some(&v)) == percent_spec(
            v.up_votes as int,
            v.up_votes + v.down_votes,
        ),
        v.up_votes + v.down_votes <= 0 ==> rating_of(Some(&v)) == -1,
        rating_of(None) == -1,
{
}

/// What the page of a game shows, each thing under its own name.
pub proof fn law_what_the_page_of_a_game_shows(
    r: GameDetailData,
    d: GameDetail,
    votes: Option<&Votes>,
    notify: bool,
)
    requires
        detail_shows(r, d, votes, notify),
    ensures
        r.universe_id@ == decimal_int(d.id as int),
        r.root_place_id@ == decimal_int(d.root_place_id as int),
        r.name@ == d.name@,
        r.creator@ == d.creator.name@,
        r.creator_id@ == decimal_int(d.creator.id as int),
        r.creator_is_group <==> ascii_lowercase(d.creator.kind@) == ascii_lowercase("Group"@),
        d.description matches Some(t) ==> r.description@ == t@,
        d.description is None ==> r.description@.len() == 0,
        r.playing@ == compact_text(d.playing as int),
        r.visits@ == compact_text(d.visits as int),
        r.favorites@ == compact_text(d.favorited_count as int),
        r.max_players@ == decimal_int(d.max_players as int),
        date_of(d.created@) matches Some(t) ==> r.created@ == t,
        date_of(d.updated@) matches Some(t) ==> r.updated@ == t,
        date_of(d.created@) is None ==> r.created@.len() == 0,
        date_of(d.updated@) is None ==> r.updated@.len() == 0,
        d.genre matches Some(g) ==> r.genre@ == (if g@.len() == 0 {
            "—"@
        } else {
            g@
        }),
        d.genre is None ==> r.genre@ == "—"@,
        r.rating == rating_of(votes),
        r.favorited == d.is_favorited_by_user,
        r.notify == notify,
{
}

/// A sub-place shows its name, and the first line of its description, ninety
/// characters of it at most.
pub proof fn law_what_a_sub_place_shows(r: SubPlace, p: Place)
    requires
        sub_place_shows(r, p),
    ensures
        r.id@ == decimal_int(p.id as int),
        r.name@ == p.name@,
        r.description@.len() <= 90,
        p.description is None ==> r.description@.len() == 0,
        p.description matches Some(t) ==> {
            let line = first_line(t@);
            &&& line.len() <= 90 ==> r.description@ == line
            &&& line.len() > 90 ==> r.description@ == line.take(90)
        },
{
    assert(first_line(Seq::<char>::empty()).len() == 0);
}

/// A server shows how many are on it out of how many fit, and how many there are
/// besides the four at most whose faces it shows.
pub proof fn law_what_a_server_shows(r: ServerRow, s: Server)
    requires
        server_shows(r, s),
    ensures
        r.id@ == s.id@,
        r.playing == s.playing,
        r.max == s.max_players,
        r.label@ == decimal_int(s.playing as int) + " / "@ + decimal_int(s.max_players as int),
        0 <= s.playing <= s.max_players && s.max_players > 0 ==> r.fill_part == s.playing
            && r.fill_whole == s.max_players,
        s.playing > s.max_players > 0 ==> r.fill_part == r.fill_whole,
        s.player_tokens is None && s.playing >= 0 ==> r.more == s.playing,
        s.player_tokens matches Some(t) ==> (t.len() <= 4 && s.playing >= t.len() ==> r.more
            == s.playing - t.len()),
        s.player_tokens matches Some(t) ==> (t.len() >= 4 && s.playing >= 4 ==> r.more == s.playing
            - 4),
{
}

/// A thing in a grid is what was put there.
pub proof fn law_what_a_thing_shows(
    r: DetailItem,
    id: Seq<char>,
    name: Seq<char>,
    subtitle: Seq<char>,
    kind: i32,
)
    ensures
        item_is(r, id, name, subtitle, kind) <==> r.id@ == id && r.name@ == name && r.subtitle@
            == subtitle && r.kind == kind,
{
}

} // verus!
