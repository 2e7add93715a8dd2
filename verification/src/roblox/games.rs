//! Game detail, servers, and sub-places.
//!
//! The distinction between universe and place is the thing to keep straight:
//! `games?universeIds=` takes universe ids, `games/{id}/servers/Public` takes a
//! place id. A universe contains many places; the one launched by default is the
//! root place, the others are the sub-places.

use crate::number::{decimal, decimal_int, int_text, nat_text};
use crate::order::{lemma_permutation_hits, rearranged, sorted_order, SortKey};
use crate::roblox::error::Error;
use crate::roblox::{allowed_limit, is_page_limit, page_limit};
use crate::roblox::models::{GameDetail, Page, Place, Server};
use crate::text::{cat2, cat3, cat4, cat5, opt_text};
use vstd::prelude::*;
use vstd::string::*;

verus! {

pub const GAMES: &'static str = "https://games.roblox.com/v1";

pub const GAMES_V2: &'static str = "https://games.roblox.com/v2";

pub const DEVELOP: &'static str = "https://develop.roblox.com/v1";

pub const BADGES: &'static str = "https://badges.roblox.com/v1";

/// The most ids one detail or vote request may carry.
pub const DETAIL_BATCH: usize = 100;

/// No walk collects more places than this needs pages for.
pub const PLACES_CAP: usize = 500;

/// The only page sizes the servers endpoint accepts.
pub const SERVER_LIMITS: [u32; 4] = [10, 25, 50, 100];

#[derive(Debug, Clone, Copy, PartialEq, Eq, Structural)]
pub enum ServerSort {
    /// The service's own order.
    Default,
    /// Nearly full first: best odds of landing with people.
    Fullest,
    /// Emptiest first: for when you want a quiet server.
    Emptiest,
}

/// `|a - b|`.
pub open spec fn distance(a: u32, b: u32) -> int {
    if a < b {
        b - a
    } else {
        a - b
    }
}

/// `limit` is the allowed page size closest to `requested`, the smaller of two
/// that are equally close.
pub open spec fn is_nearest_limit(requested: u32, limit: u32) -> bool {
    &&& allowed_limit(limit)
    &&& forall|other: u32| #[trigger]
        allowed_limit(other) ==> distance(limit, requested) <= distance(
            other,
            requested,
        ) && (distance(limit, requested) == distance(other, requested) ==> limit <= other)
}

/// Snap to the nearest allowed page size: asking for 20 servers means "about
/// 20".
pub fn nearest_allowed_limit(requested: u32) -> (limit: u32)
    ensures
        is_nearest_limit(requested, limit),
{
    if requested <= 17 {
        10
    } else if requested <= 37 {
        25
    } else if requested <= 75 {
        50
    } else {
        100
    }
}

/// How many more players fit.
pub open spec fn free_places(s: Server) -> int {
    if s.max_players > s.playing {
        s.max_players - s.playing
    } else {
        0
    }
}

pub fn free_slots(s: &Server) -> (n: i64)
    ensures
        n == free_places(*s),
{
    if s.max_players > s.playing {
        s.max_players as i64 - s.playing as i64
    } else {
        0
    }
}

/// `a` is listed before `b`, or might be.
pub open spec fn server_le(sort: ServerSort, a: Server, b: Server) -> bool {
    match sort {
        ServerSort::Default => true,
        ServerSort::Fullest => free_places(a) < free_places(b) || (free_places(a) == free_places(b)
            && a.playing >= b.playing),
        ServerSort::Emptiest => a.playing <= b.playing,
    }
}

/// `out` is `list` sorted stably: `order` says where each server came from, and
/// servers that sort alike keep their order.
pub open spec fn servers_sorted(
    list: Seq<Server>,
    out: Seq<Server>,
    sort: ServerSort,
    order: Seq<usize>,
) -> bool {
    &&& crate::order::is_permutation(order, list.len())
    &&& out.len() == list.len()
    &&& forall|i: int| 0 <= i < out.len() ==> #[trigger] out[i] == list[order[i] as int]
    &&& forall|i: int, j: int|
        0 <= i < j < out.len() ==> server_le(sort, #[trigger] out[i], #[trigger] out[j]) && (
        server_le(sort, out[j], out[i]) ==> order[i] < order[j])
}

/// Sort the servers that were fetched.
pub fn sort_servers(list: Vec<Server>, sort: ServerSort) -> (out: Vec<Server>)
    ensures
        exists|order: Seq<usize>| #[trigger] servers_sorted(list@, out@, sort, order),
{
    let mut keys: Vec<SortKey> = Vec::new();
    let mut i: usize = 0;
    while i < list.len()
        invariant
            i <= list.len(),
            keys.len() == i,
            forall|k: int|
                0 <= k < i ==> (#[trigger] keys@[k]).name@.len() == 0 && keys@[k].first == (
                match sort {
                    ServerSort::Default => 0,
                    ServerSort::Fullest => free_places(list@[k]),
                    ServerSort::Emptiest => list@[k].playing as int,
                }) && keys@[k].second == (match sort {
                    ServerSort::Fullest => -(list@[k].playing as int),
                    _ => 0,
                }),
        decreases list.len() - i,
    {
        let s = &list[i];
        let (first, second): (i64, i64) = match sort {
            ServerSort::Default => (0, 0),
            ServerSort::Fullest => (free_slots(s), -(s.playing as i64)),
            ServerSort::Emptiest => (s.playing as i64, 0),
        };
        keys.push(SortKey { first, second, name: String::new() });
        i = i + 1;
    }
    let order = sorted_order(&keys);
    let ghost input = list@;
    let out = rearranged(list, &order);
    proof {
        assert forall|i: int, j: int| 0 <= i < j < out.len() implies server_le(
            sort,
            #[trigger] out@[i],
            #[trigger] out@[j],
        ) && (server_le(sort, out@[j], out@[i]) ==> order@[i] < order@[j]) by {
            let x = order@[i];
            let y = order@[j];
            assert(crate::order::precedes(keys@, x, y));
            assert(out@[i] == input[x as int]);
            assert(out@[j] == input[y as int]);
            assert(keys@[x as int].name@.len() == 0);
            assert(keys@[y as int].name@.len() == 0);
        }
        assert(servers_sorted(input, out@, sort, order@));
    }
    out
}

/// The walk over the places of a universe.
#[derive(Debug, Default)]
pub struct PlaceWalk {
    pub places: Vec<Place>,
    pub cursor: Option<String>,
    pub over: bool,
}

impl PlaceWalk {
    pub fn new() -> (w: PlaceWalk)
        ensures
            w.places@ == Seq::<Place>::empty(),
            w.cursor is None,
            !w.over,
    {
        PlaceWalk { places: Vec::new(), cursor: None, over: false }
    }

    pub open spec fn url_text(&self, universe_id: i64) -> Seq<char> {
        let base = DEVELOP@ + "/universes/"@ + decimal_int(universe_id as int)
            + "/places?limit=100&sortOrder=Asc"@;
        match self.cursor {
            Some(c) => base + "&cursor="@ + c@,
            None => base,
        }
    }

    /// The request for the next page.
    pub fn url(&self, universe_id: i64) -> (url: String)
        ensures
            url@ == self.url_text(universe_id),
    {
        let base = cat4(
            DEVELOP,
            "/universes/",
            int_text(universe_id).as_str(),
            "/places?limit=100&sortOrder=Asc",
        );
        match &self.cursor {
            Some(c) => cat3(base.as_str(), "&cursor=", c.as_str()),
            None => base,
        }
    }

    /// Take in a page.
    pub fn absorb(&mut self, page: Page<Place>)
        requires
            !old(self).over,
        ensures
            final(self).places@ == old(self).places@ + page.data@,
            final(self).over == (!crate::roblox::friends::names_page(page.next_page_cursor)
                || final(self).places.len() >= PLACES_CAP),
            !final(self).over ==> opt_text(final(self).cursor) == opt_text(page.next_page_cursor),
    {
        let mut data = page.data;
        self.places.append(&mut data);
        let more = match &page.next_page_cursor {
            Some(c) => !c.as_str().is_empty(),
            None => false,
        };
        if more {
            self.cursor = page.next_page_cursor;
            self.over = self.places.len() >= PLACES_CAP;
        } else {
            self.over = true;
        }
    }
}

/// The places without the root place, in their order.
pub open spec fn without_root(places: Seq<Place>, root: i64) -> Seq<Place>
    decreases places.len(),
{
    if places.len() == 0 {
        Seq::empty()
    } else {
        let rest = without_root(places.drop_first(), root);
        if places[0].id == root {
            rest
        } else {
            seq![places[0]] + rest
        }
    }
}

/// Sub-places only: every place except the root one.
pub fn sub_places(places: Vec<Place>, root_place_id: i64) -> (out: Vec<Place>)
    ensures
        out@ == without_root(places@, root_place_id),
{
    let ghost all = places@;
    let mut places = places;
    let mut flipped_out: Vec<Place> = Vec::new();
    assert(all.skip(all.len() as int) =~= Seq::<Place>::empty());
    assert(flipped_out@.reverse() =~= Seq::<Place>::empty());
    while places.len() > 0
        invariant
            places@ == all.take(places.len() as int),
            places.len() <= all.len(),
            flipped_out@.reverse() == without_root(all.skip(places.len() as int), root_place_id),
        decreases places.len(),
    {
        let ghost n = places.len() as int;
        assert(all.skip(n - 1).drop_first() =~= all.skip(n));
        assert(all.skip(n - 1)[0] == all[n - 1]);
        match places.pop() {
            Some(p) => {
                if p.id != root_place_id {
                    let ghost before = flipped_out@;
                    flipped_out.push(p);
                    assert(flipped_out@.reverse() =~= seq![p] + before.reverse());
                }
            },
            None => {},
        }
        assert(places@ =~= all.take(places.len() as int));
    }
    assert(all.skip(0) =~= all);
    crate::order::flipped(flipped_out)
}

/// Dropping the root drops nothing else.
pub proof fn law_sub_places_drop_only_the_root(places: Seq<Place>, root: i64)
    ensures
        forall|i: int|
            0 <= i < without_root(places, root).len() ==> (#[trigger] without_root(
                places,
                root,
            )[i]).id != root,
        forall|i: int|
            0 <= i < places.len() && (#[trigger] places[i]).id != root ==> without_root(
                places,
                root,
            ).contains(places[i]),
    decreases places.len(),
{
    if places.len() > 0 {
        let rest = without_root(places.drop_first(), root);
        law_sub_places_drop_only_the_root(places.drop_first(), root);
        let out = without_root(places, root);
        assert forall|i: int| 0 <= i < out.len() implies (#[trigger] out[i]).id != root by {
            if places[0].id != root && i > 0 {
                assert(out[i] == rest[i - 1]);
            }
        }
        assert forall|i: int| 0 <= i < places.len() && (#[trigger] places[i]).id
            != root implies out.contains(places[i]) by {
            if i == 0 {
                assert(out[0] == places[0]);
            } else {
                assert(places.drop_first()[i - 1] == places[i]);
                let j = choose|j: int| 0 <= j < rest.len() && rest[j] == places[i];
                if places[0].id == root {
                    assert(out[j] == places[i]);
                } else {
                    assert(out[j + 1] == places[i]);
                }
            }
        }
    }
}

/// The ids with commas between them.
pub open spec fn joined(ids: Seq<i64>) -> Seq<char>
    decreases ids.len(),
{
    if ids.len() == 0 {
        Seq::empty()
    } else if ids.len() == 1 {
        decimal_int(ids[0] as int)
    } else {
        joined(ids.drop_last()) + ","@ + decimal_int(ids.last() as int)
    }
}

pub fn join_ids(ids: &Vec<i64>) -> (r: String)
    ensures
        r@ == joined(ids@),
{
    let mut r = String::new();
    let mut i: usize = 0;
    assert(ids@.take(0) =~= Seq::<i64>::empty());
    while i < ids.len()
        invariant
            i <= ids.len(),
            r@ == joined(ids@.take(i as int)),
        decreases ids.len() - i,
    {
        let ghost before = r@;
        assert(ids@.take(i as int + 1).drop_last() =~= ids@.take(i as int));
        if i > 0 {
            r.append(",");
        }
        r.append(int_text(ids[i]).as_str());
        proof {
            if i == 0 {
                assert(before =~= Seq::<char>::empty());
                assert(r@ =~= decimal_int(ids@[0] as int));
            }
        }
        i = i + 1;
    }
    assert(ids@.take(ids@.len() as int) =~= ids@);
    r
}

/// The request that resolves a place to the universe that owns it.
pub fn universe_url(place_id: i64) -> (url: String)
    ensures
        url@ == "https://apis.roblox.com/universes/v1/places/"@ + decimal_int(place_id as int)
            + "/universe"@,
{
    cat3(
        "https://apis.roblox.com/universes/v1/places/",
        int_text(place_id).as_str(),
        "/universe",
    )
}

/// The universe that was answered, or why there is none.
pub fn universe_of(place_id: i64, answer: Option<i64>) -> (r: std::result::Result<i64, Error>)
    ensures
        match (answer, r) {
            (Some(u), Ok(v)) => u == v,
            (None, Err(Error::Api(e))) => e@ == "place "@ + decimal_int(place_id as int)
                + " belongs to no universe"@,
            _ => false,
        },
{
    match answer {
        Some(u) => Ok(u),
        None => Err(
            Error::Api(cat3("place ", int_text(place_id).as_str(), " belongs to no universe")),
        ),
    }
}

/// The first of the games that were answered, or why there is none.
pub fn detail(universe_id: i64, list: Vec<GameDetail>) -> (r: std::result::Result<
    GameDetail,
    Error,
>)
    ensures
        match r {
            Ok(d) => list.len() > 0 && d == list@[0],
            Err(Error::Api(e)) => list.len() == 0 && e@ == "no game for universe "@ + decimal_int(
                universe_id as int,
            ),
            Err(_) => false,
        },
{
    let mut list = list;
    if list.len() > 0 {
        Ok(list.swap_remove(0))
    } else {
        Err(Error::Api(cat2("no game for universe ", int_text(universe_id).as_str())))
    }
}

/// The request for the detail of a batch of universes.
pub fn details_url(batch: &Vec<i64>) -> (url: String)
    ensures
        url@ == GAMES@ + "/games?universeIds="@ + joined(batch@),
{
    cat3(GAMES, "/games?universeIds=", join_ids(batch).as_str())
}

/// The request for the votes of a batch of universes.
pub fn votes_url(batch: &Vec<i64>) -> (url: String)
    ensures
        url@ == GAMES@ + "/games/votes?universeIds="@ + joined(batch@),
{
    cat3(GAMES, "/games/votes?universeIds=", join_ids(batch).as_str())
}

/// The request for the public servers of a place, not of a universe.
pub fn servers_url(place_id: i64, limit: u32) -> (url: String)
    ensures
        exists|n: u32|
            #![trigger allowed_limit(n)]
            is_nearest_limit(limit, n) && url@ == GAMES@ + "/games/"@ + decimal_int(place_id as int)
                + "/servers/Public?limit="@ + decimal(n as nat),
{
    let n: u32 = nearest_allowed_limit(limit);
    assert(allowed_limit(n));
    cat5(
        GAMES,
        "/games/",
        int_text(place_id).as_str(),
        "/servers/Public?limit=",
        nat_text(n as u64).as_str(),
    )
}

pub fn media_url(universe_id: i64) -> (url: String)
    ensures
        url@ == GAMES_V2@ + "/games/"@ + decimal_int(universe_id as int) + "/media"@,
{
    cat4(GAMES_V2, "/games/", int_text(universe_id).as_str(), "/media")
}

pub fn badges_url(universe_id: i64) -> (url: String)
    ensures
        url@ == BADGES@ + "/universes/"@ + decimal_int(universe_id as int)
            + "/badges?limit=100&sortOrder=Asc"@,
{
    cat4(
        BADGES,
        "/universes/",
        int_text(universe_id).as_str(),
        "/badges?limit=100&sortOrder=Asc",
    )
}

pub fn game_passes_url(universe_id: i64) -> (url: String)
    ensures
        url@ == GAMES@ + "/games/"@ + decimal_int(universe_id as int)
            + "/game-passes?limit=100&sortOrder=Asc"@,
{
    cat4(
        GAMES,
        "/games/",
        int_text(universe_id).as_str(),
        "/game-passes?limit=100&sortOrder=Asc",
    )
}

/// The request for the games a user has favourited. It works for other people's
/// profiles as well as your own.
pub fn user_favorites_url(user_id: i64, limit: u32) -> (url: String)
    ensures
        exists|n: u32|
            #![trigger allowed_limit(n)]
            is_page_limit(limit, n) && url@ == GAMES_V2@ + "/users/"@ + decimal_int(user_id as int)
                + "/favorite/games?limit="@ + (decimal(n as nat) + "&sortOrder=Asc"@),
{
    let n: u32 = page_limit(limit);
    assert(allowed_limit(n));
    cat5(
        GAMES_V2,
        "/users/",
        int_text(user_id).as_str(),
        "/favorite/games?limit=",
        cat2(nat_text(n as u64).as_str(), "&sortOrder=Asc").as_str(),
    )
}

/// The request for the games a group has published.
pub fn group_games_url(group_id: i64, limit: u32) -> (url: String)
    ensures
        exists|n: u32|
            #![trigger allowed_limit(n)]
            is_page_limit(limit, n) && url@ == GAMES_V2@ + "/groups/"@ + decimal_int(
                group_id as int,
            ) + "/games?limit="@ + (decimal(n as nat) + "&sortOrder=Asc"@),
{
    let n: u32 = page_limit(limit);
    assert(allowed_limit(n));
    cat5(
        GAMES_V2,
        "/groups/",
        int_text(group_id).as_str(),
        "/games?limit=",
        cat2(nat_text(n as u64).as_str(), "&sortOrder=Asc").as_str(),
    )
}

/// Where a game's favourite mark is read and written.
pub fn favorites_url(universe_id: i64) -> (url: String)
    ensures
        url@ == GAMES@ + "/games/"@ + decimal_int(universe_id as int) + "/favorites"@,
{
    cat4(GAMES, "/games/", int_text(universe_id).as_str(), "/favorites")
}

/// The body that stars a game, or takes the star away.
pub fn favorite_body(favorited: bool) -> (body: String)
    ensures
        body@ == (if favorited {
            "{\"isFavorited\":true}"@
        } else {
            "{\"isFavorited\":false}"@
        }),
{
    if favorited {
        "{\"isFavorited\":true}".to_owned()
    } else {
        "{\"isFavorited\":false}".to_owned()
    }
}

/// The page of servers nearest to what was asked for, with the smaller one at a tie:
/// 75 is as far from 50 as from 100.
pub proof fn law_nearest_limits(requested: u32, limit: u32)
    requires
        is_nearest_limit(requested, limit),
    ensures
        requested <= 17 ==> limit == 10,
        18 <= requested <= 37 ==> limit == 25,
        38 <= requested <= 75 ==> limit == 50,
        76 <= requested ==> limit == 100,
{
    assert(allowed_limit(10) && allowed_limit(25) && allowed_limit(50) && allowed_limit(100));
}

/// The players that are there and the places that are free make up the server, and
/// an overfull server has none free.
pub proof fn law_free_places(s: Server)
    ensures
        s.playing <= s.max_players ==> s.playing + free_places(s) == s.max_players,
        s.playing >= s.max_players ==> free_places(s) == 0,
{
}

/// Sorting servers loses none and adds none. The service's own order is kept as it
/// is. Fullest first lists those with the least room first, and of two with the same
/// room the one with more players; emptiest first lists those with the fewest
/// players first.
pub proof fn law_sorted_servers(
    list: Seq<Server>,
    out: Seq<Server>,
    sort: ServerSort,
    order: Seq<usize>,
)
    requires
        servers_sorted(list, out, sort, order),
        list.len() <= usize::MAX,
    ensures
        out.len() == list.len(),
        forall|i: int| 0 <= i < list.len() ==> out.contains(#[trigger] list[i]),
        sort == ServerSort::Default ==> out == list,
        sort == ServerSort::Emptiest ==> forall|i: int, j: int|
            0 <= i < j < out.len() ==> (#[trigger] out[i]).playing <= (#[trigger] out[j]).playing,
        sort == ServerSort::Fullest ==> forall|i: int, j: int|
            0 <= i < j < out.len() && (#[trigger] out[i]).playing <= out[i].max_players && (
            #[trigger] out[j]).playing <= out[j].max_players ==> {
                let left = out[i].max_players - out[i].playing;
                let right = out[j].max_players - out[j].playing;
                left <= right && (left == right ==> out[i].playing >= out[j].playing)
            },
        sort == ServerSort::Fullest ==> forall|i: int, j: int|
            0 <= i < j < out.len() && (#[trigger] out[j]).playing >= out[j].max_players ==> (
            #[trigger] out[i]).playing >= out[i].max_players,
{
    assert forall|i: int| 0 <= i < list.len() implies out.contains(#[trigger] list[i]) by {
        lemma_permutation_hits(order, list.len(), i as usize);
        let p = choose|p: int| 0 <= p < order.len() && order[p] == i as usize;
        assert(out[p] == list[i]);
    }
    if sort == ServerSort::Default {
        assert forall|a: int, b: int| 0 <= a < b < out.len() implies #[trigger] order[a]
            < #[trigger] order[b] by {
            assert(server_le(sort, out[b], out[a]));
        }
        assert forall|i: int| 0 <= i < out.len() implies out[i] == list[i] by {
            lemma_increasing_is_identity(order, list.len(), i);
        }
        assert(out =~= list);
    }
    assert forall|i: int, j: int| 0 <= i < j < out.len() implies server_le(
        sort,
        #[trigger] out[i],
        #[trigger] out[j],
    ) by {}
}

proof fn lemma_increasing_is_identity(order: Seq<usize>, n: nat, i: int)
    requires
        order.len() == n,
        forall|k: int| 0 <= k < n ==> #[trigger] order[k] < n,
        forall|a: int, b: int| 0 <= a < b < n ==> #[trigger] order[a] < #[trigger] order[b],
        0 <= i < n,
    ensures
        order[i] == i,
{
    lemma_at_least(order, n, i);
    lemma_at_most(order, n, i);
}

proof fn lemma_at_least(order: Seq<usize>, n: nat, i: int)
    requires
        order.len() == n,
        forall|a: int, b: int| 0 <= a < b < n ==> #[trigger] order[a] < #[trigger] order[b],
        0 <= i < n,
    ensures
        order[i] >= i,
    decreases i,
{
    if i > 0 {
        lemma_at_least(order, n, i - 1);
        assert(order[i - 1] < order[i]);
    }
}

proof fn lemma_at_most(order: Seq<usize>, n: nat, i: int)
    requires
        order.len() == n,
        forall|k: int| 0 <= k < n ==> #[trigger] order[k] < n,
        forall|a: int, b: int| 0 <= a < b < n ==> #[trigger] order[a] < #[trigger] order[b],
        0 <= i < n,
    ensures
        order[i] <= i,
    decreases n - i,
{
    if i + 1 < n {
        lemma_at_most(order, n, i + 1);
        assert(order[i] < order[i + 1]);
    }
}

/// The sub-places of a game are its places but the root one, in their order.
pub proof fn law_sub_places_keep_their_order(places: Seq<Place>, root: i64)
    ensures
        without_root(places, root) == places.filter(|p: Place| p.id != root),
    decreases places.len(),
{
    let keep = |p: Place| p.id != root;
    if places.len() > 0 {
        law_sub_places_keep_their_order(places.drop_first(), root);
        let head = seq![places[0]];
        assert(places =~= head + places.drop_first());
        Seq::filter_distributes_over_add(head, places.drop_first(), keep);
        assert(head.filter(keep) =~= if keep(places[0]) {
            head
        } else {
            Seq::empty()
        }) by {
            reveal(Seq::filter);
            assert(head.drop_last() =~= Seq::<Place>::empty());
            assert(head.drop_last().filter(keep) =~= Seq::<Place>::empty());
        }
        assert(without_root(places, root) =~= places.filter(keep));
    } else {
        reveal(Seq::filter);
        assert(without_root(places, root) =~= places.filter(keep));
    }
}

/// One id is written in decimal, and lists are put end to end with a comma.
pub proof fn law_joined_ids(a: Seq<i64>, id: i64, b: Seq<i64>)
    ensures
        joined(seq![id]) == decimal_int(id as int),
        joined(a.push(id)) == (if a.len() == 0 {
            Seq::empty()
        } else {
            joined(a) + seq![',']
        }) + decimal_int(id as int),
        a.len() > 0 && b.len() > 0 ==> joined(a + b) == joined(a) + seq![','] + joined(b),
    decreases b.len(),
{
    reveal_strlit(",");
    assert(","@ =~= seq![',']);
    assert(a.push(id).drop_last() =~= a);
    assert(a.push(id).last() == id);
    if a.len() == 0 {
        assert(joined(a.push(id)) =~= Seq::empty() + decimal_int(id as int));
    }
    if a.len() > 0 && b.len() > 0 {
        assert((a + b).drop_last() =~= a + b.drop_last());
        assert((a + b).last() == b.last());
        if b.len() == 1 {
            assert(a + b.drop_last() =~= a);
        } else {
            law_joined_ids(a, id, b.drop_last());
            assert(joined(a + b) =~= joined(a) + seq![','] + joined(b));
        }
    }
}

/// The services that games are asked about: the games themselves, their places,
/// which are listed to anybody, and their badges.
pub proof fn law_game_services(walk: PlaceWalk, universe_id: i64)
    ensures
        GAMES@ == "https://games.roblox.com/v1"@,
        GAMES_V2@ == "https://games.roblox.com/v2"@,
        BADGES@ == "https://badges.roblox.com/v1"@,
        DETAIL_BATCH == 100 && PLACES_CAP == 500,
        walk.url_text(universe_id) == "https://develop.roblox.com/v1/universes/"@ + decimal_int(
            universe_id as int,
        ) + "/places?limit=100&sortOrder=Asc"@ + (match walk.cursor {
            Some(c) => "&cursor="@ + c@,
            None => Seq::empty(),
        }),
{
    reveal_strlit("https://develop.roblox.com/v1");
    reveal_strlit("/universes/");
    reveal_strlit("https://develop.roblox.com/v1/universes/");
    assert(DEVELOP@ + "/universes/"@ =~= "https://develop.roblox.com/v1/universes/"@);
    assert(walk.url_text(universe_id) =~= "https://develop.roblox.com/v1/universes/"@ + decimal_int(
        universe_id as int,
    ) + "/places?limit=100&sortOrder=Asc"@ + (match walk.cursor {
        Some(c) => "&cursor="@ + c@,
        None => Seq::empty(),
    }));
}

} // verus!
