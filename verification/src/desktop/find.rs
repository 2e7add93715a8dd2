//! Searching for games, people and groups, and the servers of a game.

use crate::desktop::adapters::{
    compact, compact_text, item_is, shown_rating, tile_from_omni, DetailItem, GameTile, FACES,
};
use crate::desktop::home::Grids;
use crate::desktop::nav::Generation;
use crate::number::{decimal_int, int_text};
use crate::roblox::games::ServerSort;
use crate::roblox::models::{
    vote_percent, GroupSearchResult, Server, UserSearchResult,
};
use crate::roblox::search::OmniGame;
use crate::text::{cat2, trim, trimmed};
use vstd::prelude::*;

verus! {

/// The search, and the people and groups that it found. The games are among the
/// grids.
pub struct Finder {
    pub generation: Generation,
    pub searching: bool,
    pub last_query: String,
    pub players: Vec<DetailItem>,
    pub groups: Vec<DetailItem>,
}

/// A search that was begun: what for, and which one it is.
#[derive(Debug)]
pub struct Begun {
    pub query: String,
    pub generation: i64,
}

/// Every grid but that of the search is as it was.
pub open spec fn other_grids_kept(before: Grids, after: Grids) -> bool {
    after == (Grids { play_games: after.play_games, ..before })
}

/// The tile shows this result.
pub open spec fn result_shows(t: GameTile, g: OmniGame) -> bool {
    &&& t.id@ == decimal_int(g.root_place_id as int)
    &&& t.universe_id@ == decimal_int(g.universe_id as int)
    &&& t.name@ == g.name@
    &&& t.creator@ == g.creator_name@
    &&& t.playing@ == compact_text(g.player_count as int)
    &&& t.rating == shown_rating(vote_percent(g.total_up_votes as int, g.total_down_votes as int))
    &&& !t.favorited
}

/// The votes of the results can be added up.
pub open spec fn counted(list: Seq<OmniGame>) -> bool {
    forall|i: int|
        0 <= i < list.len() ==> i64::MIN <= (#[trigger] list[i]).total_up_votes
            + list[i].total_down_votes <= i64::MAX
}

fn result_tiles(list: &Vec<OmniGame>) -> (tiles: Vec<GameTile>)
    requires
        counted(list@),
    ensures
        tiles.len() == list.len(),
        forall|i: int| 0 <= i < tiles.len() ==> result_shows(#[trigger] tiles@[i], list@[i]),
{
    let mut tiles: Vec<GameTile> = Vec::new();
    let mut i: usize = 0;
    while i < list.len()
        invariant
            i <= list.len(),
            counted(list@),
            tiles.len() == i,
            forall|k: int| 0 <= k < i ==> result_shows(#[trigger] tiles@[k], list@[k]),
        decreases list.len() - i,
    {
        tiles.push(tile_from_omni(&list[i]));
        i = i + 1;
    }
    tiles
}

/// The people that were found, as lines.
pub fn player_rows(list: &Vec<UserSearchResult>) -> (rows: Vec<DetailItem>)
    ensures
        rows.len() == list.len(),
        forall|i: int|
            0 <= i < rows.len() ==> item_is(
                #[trigger] rows@[i],
                decimal_int(list@[i].id as int),
                list@[i].display_name@,
                "@"@ + list@[i].name@,
                0,
            ),
{
    let mut rows: Vec<DetailItem> = Vec::new();
    let mut i: usize = 0;
    while i < list.len()
        invariant
            i <= list.len(),
            rows.len() == i,
            forall|k: int|
                0 <= k < i ==> item_is(
                    #[trigger] rows@[k],
                    decimal_int(list@[k].id as int),
                    list@[k].display_name@,
                    "@"@ + list@[k].name@,
                    0,
                ),
        decreases list.len() - i,
    {
        rows.push(
            DetailItem {
                id: int_text(list[i].id),
                name: list[i].display_name.clone(),
                subtitle: cat2("@", list[i].name.as_str()),
                kind: 0,
            },
        );
        i = i + 1;
    }
    rows
}

/// The groups that were found, as lines.
pub fn group_rows(list: &Vec<GroupSearchResult>) -> (rows: Vec<DetailItem>)
    ensures
        rows.len() == list.len(),
        forall|i: int|
            0 <= i < rows.len() ==> item_is(
                #[trigger] rows@[i],
                decimal_int(list@[i].id as int),
                list@[i].name@,
                compact_text(list@[i].member_count as int) + " members"@,
                0,
            ),
{
    let mut rows: Vec<DetailItem> = Vec::new();
    let mut i: usize = 0;
    while i < list.len()
        invariant
            i <= list.len(),
            rows.len() == i,
            forall|k: int|
                0 <= k < i ==> item_is(
                    #[trigger] rows@[k],
                    decimal_int(list@[k].id as int),
                    list@[k].name@,
                    compact_text(list@[k].member_count as int) + " members"@,
                    0,
                ),
        decreases list.len() - i,
    {
        rows.push(
            DetailItem {
                id: int_text(list[i].id),
                name: list[i].name.clone(),
                subtitle: cat2(compact(list[i].member_count).as_str(), " members"),
                kind: 0,
            },
        );
        i = i + 1;
    }
    rows
}

impl Finder {
    pub fn new() -> (f: Finder)
        ensures
            f.generation.now == 0,
            !f.searching,
            f.last_query@.len() == 0,
            f.players@.len() == 0,
            f.groups@.len() == 0,
    {
        Finder {
            generation: Generation { now: 0 },
            searching: false,
            last_query: String::new(),
            players: Vec::new(),
            groups: Vec::new(),
        }
    }

    /// Search for something. Nothing but spaces clears what was found. Either way
    /// the answers to earlier searches are not wanted any more.
    pub fn run_search(&mut self, grids: &mut Grids, query: &str) -> (r: Option<Begun>)
        ensures
            other_grids_kept(*old(grids), *final(grids)),
            final(self).generation.now == old(self).generation.now.wrapping_add(1),
            final(self).generation.now != old(self).generation.now,
            match r {
                Some(b) => {
                    &&& trimmed(query@).len() > 0
                    &&& b.query@ == trimmed(query@)
                    &&& b.generation == final(self).generation.now
                    &&& final(self).searching
                    &&& final(self).last_query == old(self).last_query
                    &&& final(grids).play_games == old(grids).play_games
                    &&& final(self).players == old(self).players
                    &&& final(self).groups == old(self).groups
                },
                None => {
                    &&& trimmed(query@).len() == 0
                    &&& !final(self).searching
                    &&& final(self).last_query@.len() == 0
                    &&& final(grids).play_games@.len() == 0
                    &&& final(self).players@.len() == 0
                    &&& final(self).groups@.len() == 0
                },
            },
    {
        let query = trim(query);
        let generation = self.generation.next();
        if query.as_str().is_empty() {
            self.searching = false;
            self.last_query = String::new();
            grids.play_games = Vec::new();
            self.players = Vec::new();
            self.groups = Vec::new();
            return None;
        }
        self.searching = true;
        Some(Begun { query, generation })
    }

    /// The text of the search has changed. An empty one ends the search.
    pub fn live_search(&mut self, text: &str)
        ensures
            text@.len() > 0 ==> *final(self) == *old(self),
            text@.len() == 0 ==> {
                &&& !final(self).searching
                &&& final(self).generation.now == old(self).generation.now.wrapping_add(1)
                &&& final(self).generation.now != old(self).generation.now
                &&& final(self).last_query == old(self).last_query
                &&& final(self).players == old(self).players
                &&& final(self).groups == old(self).groups
            },
    {
        if text.is_empty() {
            self.generation.next();
            self.searching = false;
        }
    }

    /// Games were found, or the search failed. The answer to an earlier search is
    /// dropped.
    pub fn games_found(
        &mut self,
        grids: &mut Grids,
        begun: &Begun,
        found: Option<&Vec<OmniGame>>,
    ) -> (shown: bool)
        requires
            found matches Some(list) ==> counted(list@),
        ensures
            shown == (begun.generation == old(self).generation.now),
            !shown ==> *final(self) == *old(self) && *final(grids) == *old(grids),
            other_grids_kept(*old(grids), *final(grids)),
            shown ==> {
                &&& !final(self).searching
                &&& final(self).last_query@ == begun.query@
                &&& final(self).generation == old(self).generation
                &&& final(self).players == old(self).players
                &&& final(self).groups == old(self).groups
                &&& match found {
                    Some(list) => final(grids).play_games.len() == list.len() && forall|i: int|
                        0 <= i < list.len() ==> result_shows(
                            #[trigger] final(grids).play_games@[i],
                            list@[i],
                        ),
                    None => final(grids).play_games@.len() == 0,
                }
            },
    {
        if !self.generation.is_current(begun.generation) {
            return false;
        }
        self.searching = false;
        self.last_query = begun.query.clone();
        grids.play_games = match found {
            Some(list) => result_tiles(list),
            None => Vec::new(),
        };
        true
    }

    /// People and groups were found. Theirs is a request of its own: a limit on
    /// it does not cost the games.
    pub fn people_found(
        &mut self,
        begun: &Begun,
        users: &Vec<UserSearchResult>,
        groups: &Vec<GroupSearchResult>,
    ) -> (shown: bool)
        ensures
            shown == (begun.generation == old(self).generation.now),
            !shown ==> *final(self) == *old(self),
            shown ==> {
                &&& final(self).searching == old(self).searching
                &&& final(self).last_query == old(self).last_query
                &&& final(self).generation == old(self).generation
                &&& final(self).players.len() == users.len()
                &&& forall|i: int|
                    0 <= i < users.len() ==> item_is(
                        #[trigger] final(self).players@[i],
                        decimal_int(users@[i].id as int),
                        users@[i].display_name@,
                        "@"@ + users@[i].name@,
                        0,
                    )
                &&& final(self).groups.len() == groups.len()
                &&& forall|i: int|
                    0 <= i < groups.len() ==> item_is(
                        #[trigger] final(self).groups@[i],
                        decimal_int(groups@[i].id as int),
                        groups@[i].name@,
                        compact_text(groups@[i].member_count as int) + " members"@,
                        0,
                    )
            },
    {
        if !self.generation.is_current(begun.generation) {
            return false;
        }
        self.players = player_rows(users);
        self.groups = group_rows(groups);
        true
    }
}

/// The order of servers by its number.
pub fn server_sort(n: i32) -> (s: ServerSort)
    ensures
        s == (if n == 1 {
            ServerSort::Fullest
        } else if n == 2 {
            ServerSort::Emptiest
        } else {
            ServerSort::Default
        }),
{
    if n == 1 {
        ServerSort::Fullest
    } else if n == 2 {
        ServerSort::Emptiest
    } else {
        ServerSort::Default
    }
}

/// The token of a player on a server, and nothing past the last.
pub open spec fn token_at(s: Server, k: int) -> Seq<char> {
    match s.player_tokens {
        Some(list) => if k < list.len() {
            list@[k]@
        } else {
            Seq::empty()
        },
        None => Seq::empty(),
    }
}

fn token(s: &Server, k: usize) -> (r: String)
    ensures
        r@ == token_at(*s, k as int),
{
    match &s.player_tokens {
        Some(list) => if k < list.len() {
            list[k].clone()
        } else {
            let r = String::new();
            assert(r@ =~= Seq::<char>::empty());
            r
        },
        None => {
            let r = String::new();
            assert(r@ =~= Seq::<char>::empty());
            r
        },
    }
}

/// The tokens of the faces that are shown: as many for every server as there are
/// faces, so that the picture of a face is found by its number.
pub fn face_tokens(list: &Vec<Server>) -> (out: Vec<String>)
    ensures
        out.len() == list.len() * FACES,
        forall|i: int, k: int|
            0 <= i < list.len() && 0 <= k < FACES ==> #[trigger] face_is(out@, list@, i, k),
{
    let mut out: Vec<String> = Vec::new();
    let mut i: usize = 0;
    while i < list.len()
        invariant
            i <= list.len(),
            out.len() == i * FACES,
            forall|j: int, k: int|
                0 <= j < i && 0 <= k < FACES ==> #[trigger] face_is(out@, list@, j, k),
        decreases list.len() - i,
    {
        let ghost before = out@;
        out.push(token(&list[i], 0));
        out.push(token(&list[i], 1));
        out.push(token(&list[i], 2));
        out.push(token(&list[i], 3));
        assert forall|j: int, k: int| 0 <= j < i + 1 && 0 <= k < FACES implies #[trigger] face_is(
            out@,
            list@,
            j,
            k,
        ) by {
            if j < i {
                assert(face_is(before, list@, j, k));
                assert(out@[j * FACES + k] == before[j * FACES + k]);
            } else {
                assert(j == i as int);
            }
        }
        i = i + 1;
    }
    out
}

/// The token of face `k` of server `i` is in its place.
pub open spec fn face_is(out: Seq<String>, list: Seq<Server>, i: int, k: int) -> bool {
    out[i * FACES + k]@ == token_at(list[i], k)
}

/// Whether there is any face to ask for.
pub fn any_token(tokens: &Vec<String>) -> (r: bool)
    ensures
        r == exists|i: int| 0 <= i < tokens.len() && (#[trigger] tokens@[i])@.len() > 0,
{
    let mut i: usize = 0;
    while i < tokens.len()
        invariant
            i <= tokens.len(),
            forall|k: int| 0 <= k < i ==> (#[trigger] tokens@[k])@.len() == 0,
        decreases tokens.len() - i,
    {
        if !tokens[i].as_str().is_empty() {
            return true;
        }
        i = i + 1;
    }
    false
}

/// The tile of a game that was found shows it, and launches its root place.
pub proof fn law_what_a_result_shows(t: GameTile, g: OmniGame)
    requires
        result_shows(t, g),
    ensures
        t.id@ == decimal_int(g.root_place_id as int),
        t.universe_id@ == decimal_int(g.universe_id as int),
        t.name@ == g.name@,
        t.creator@ == g.creator_name@,
        t.playing@ == compact_text(g.player_count as int),
        g.total_up_votes + g.total_down_votes <= 0 ==> t.rating == -1,
        !t.favorited,
{
}

/// A search changes its own grid and no other.
pub proof fn law_a_search_keeps_the_other_grids(before: Grids, after: Grids)
    requires
        other_grids_kept(before, after),
    ensures
        after.recent == before.recent,
        after.favorites == before.favorites,
        after.pinned == before.pinned,
        after.related == before.related,
        after.profile_favorites == before.profile_favorites,
        after.group_games == before.group_games,
{
}

/// Each server has four places for faces: the token of a player stands in theirs, and
/// nothing where there is no such player.
pub proof fn law_faces_have_their_places(out: Seq<String>, list: Seq<Server>, i: int, k: int)
    requires
        face_is(out, list, i, k),
        0 <= k < 4,
    ensures
        list[i].player_tokens matches Some(t) ==> (k < t.len() ==> out[4 * i + k]@ == t@[k]@),
        list[i].player_tokens matches Some(t) ==> (k >= t.len() ==> out[4 * i + k]@.len() == 0),
        list[i].player_tokens is None ==> out[4 * i + k]@.len() == 0,
{
}

} // verus!
