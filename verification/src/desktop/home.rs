//! The grids of games: Home, the favourites, and the stars on their tiles.

use crate::desktop::adapters::{
    rating_of, tile_from_detail, tile_shows, votes_add_up, GameDetailData, GameTile,
};
use crate::desktop::notify::{find_votes, lemma_votes_found, votes_for};
use crate::number::{decimal_int, int_text, parse_i64, read_i64};
use crate::order::{is_permutation, precedes, rearranged, sorted_order, SortKey};
use crate::roblox::friends::holds;
use crate::roblox::models::{GameDetail, Votes};
use crate::text::same;
use std::collections::HashMap;
use vstd::prelude::*;

verus! {

/// Every grid that can show a game. The same game turns up in several at once,
/// and its star is the same in all of them.
pub struct Grids {
    pub recent: Vec<GameTile>,
    pub favorites: Vec<GameTile>,
    pub pinned: Vec<GameTile>,
    pub play_games: Vec<GameTile>,
    pub related: Vec<GameTile>,
    pub profile_favorites: Vec<GameTile>,
    pub group_games: Vec<GameTile>,
}

/// The star of the first tile of a game.
pub open spec fn star_in(tiles: Seq<GameTile>, universe: Seq<char>) -> Option<bool>
    decreases tiles.len(),
{
    if tiles.len() == 0 {
        None
    } else if tiles[0].universe_id@ == universe {
        Some(tiles[0].favorited)
    } else {
        star_in(tiles.skip(1), universe)
    }
}

/// The first of two answers.
pub open spec fn first_of(a: Option<bool>, b: Option<bool>) -> Option<bool> {
    match a {
        Some(x) => Some(x),
        None => b,
    }
}

/// The tile with its star set, where it is of this game.
pub open spec fn starred_tile(t: GameTile, universe: Seq<char>, on: bool) -> GameTile {
    if t.universe_id@ == universe {
        GameTile { favorited: on, ..t }
    } else {
        t
    }
}

pub open spec fn starred(tiles: Seq<GameTile>, universe: Seq<char>, on: bool) -> Seq<GameTile> {
    tiles.map_values(|t: GameTile| starred_tile(t, universe, on))
}

fn find_star(tiles: &Vec<GameTile>, universe_id: &str) -> (r: Option<bool>)
    ensures
        r == star_in(tiles@, universe_id@),
{
    let mut i: usize = 0;
    assert(tiles@.skip(0) =~= tiles@);
    while i < tiles.len()
        invariant
            i <= tiles.len(),
            star_in(tiles@, universe_id@) == star_in(tiles@.skip(i as int), universe_id@),
        decreases tiles.len() - i,
    {
        assert(tiles@.skip(i as int)[0] == tiles@[i as int]);
        assert(tiles@.skip(i as int).skip(1) =~= tiles@.skip(i as int + 1));
        if same(tiles[i].universe_id.as_str(), universe_id) {
            return Some(tiles[i].favorited);
        }
        i = i + 1;
    }
    None
}

fn set_stars(tiles: &mut Vec<GameTile>, universe_id: &str, on: bool)
    ensures
        final(tiles)@ == starred(old(tiles)@, universe_id@, on),
{
    let ghost before = tiles@;
    let mut i: usize = 0;
    while i < tiles.len()
        invariant
            i <= tiles.len(),
            tiles.len() == before.len(),
            forall|k: int|
                0 <= k < i ==> #[trigger] tiles@[k] == starred_tile(before[k], universe_id@, on),
            forall|k: int| i <= k < before.len() ==> #[trigger] tiles@[k] == before[k],
        decreases tiles.len() - i,
    {
        if same(tiles[i].universe_id.as_str(), universe_id) {
            tiles[i].favorited = on;
        }
        i = i + 1;
    }
    assert(tiles@ =~= starred(before, universe_id@, on));
}

impl Grids {
    pub fn new() -> (g: Grids)
        ensures
            g.tiles().len() == 0,
    {
        let g = Grids {
            recent: Vec::new(),
            favorites: Vec::new(),
            pinned: Vec::new(),
            play_games: Vec::new(),
            related: Vec::new(),
            profile_favorites: Vec::new(),
            group_games: Vec::new(),
        };
        g
    }

    /// The tiles of all the grids, in the order in which they are looked through.
    pub open spec fn tiles(&self) -> Seq<GameTile> {
        self.recent@ + self.favorites@ + self.pinned@ + self.play_games@ + self.related@
            + self.profile_favorites@ + self.group_games@
    }

    /// Whether a game is starred, by the first tile that shows it.
    pub fn tile_favorited(&self, universe_id: &str) -> (r: Option<bool>)
        ensures
            r == star_in(self.tiles(), universe_id@),
    {
        proof {
            let a = self.recent@;
            let b = a + self.favorites@;
            let c = b + self.pinned@;
            let d = c + self.play_games@;
            let e = d + self.related@;
            let f = e + self.profile_favorites@;
            lemma_star_in_both(a, self.favorites@, universe_id@);
            lemma_star_in_both(b, self.pinned@, universe_id@);
            lemma_star_in_both(c, self.play_games@, universe_id@);
            lemma_star_in_both(d, self.related@, universe_id@);
            lemma_star_in_both(e, self.profile_favorites@, universe_id@);
            lemma_star_in_both(f, self.group_games@, universe_id@);
        }
        let mut r = find_star(&self.recent, universe_id);
        if r.is_none() {
            r = find_star(&self.favorites, universe_id);
        }
        if r.is_none() {
            r = find_star(&self.pinned, universe_id);
        }
        if r.is_none() {
            r = find_star(&self.play_games, universe_id);
        }
        if r.is_none() {
            r = find_star(&self.related, universe_id);
        }
        if r.is_none() {
            r = find_star(&self.profile_favorites, universe_id);
        }
        if r.is_none() {
            r = find_star(&self.group_games, universe_id);
        }
        r
    }

    /// Every grid with the star of a game set.
    pub open spec fn starred_grids(&self, after: Grids, universe: Seq<char>, on: bool) -> bool {
        &&& after.recent@ == starred(self.recent@, universe, on)
        &&& after.favorites@ == starred(self.favorites@, universe, on)
        &&& after.pinned@ == starred(self.pinned@, universe, on)
        &&& after.play_games@ == starred(self.play_games@, universe, on)
        &&& after.related@ == starred(self.related@, universe, on)
        &&& after.profile_favorites@ == starred(self.profile_favorites@, universe, on)
        &&& after.group_games@ == starred(self.group_games@, universe, on)
    }

    /// Set the star of a game wherever it is shown.
    pub fn set_tile_favorited(&mut self, universe_id: &str, favorited: bool)
        ensures
            old(self).starred_grids(*final(self), universe_id@, favorited),
            final(self).tiles() == starred(old(self).tiles(), universe_id@, favorited),
    {
        let ghost before = *self;
        set_stars(&mut self.recent, universe_id, favorited);
        set_stars(&mut self.favorites, universe_id, favorited);
        set_stars(&mut self.pinned, universe_id, favorited);
        set_stars(&mut self.play_games, universe_id, favorited);
        set_stars(&mut self.related, universe_id, favorited);
        set_stars(&mut self.profile_favorites, universe_id, favorited);
        set_stars(&mut self.group_games, universe_id, favorited);
        assert(self.tiles() =~= starred(before.tiles(), universe_id@, favorited));
    }
}

proof fn lemma_star_in_both(a: Seq<GameTile>, b: Seq<GameTile>, universe: Seq<char>)
    ensures
        star_in(a + b, universe) == first_of(star_in(a, universe), star_in(b, universe)),
    decreases a.len(),
{
    if a.len() == 0 {
        assert(a + b =~= b);
    } else {
        assert((a + b)[0] == a[0]);
        assert((a + b).skip(1) =~= a.skip(1) + b);
        lemma_star_in_both(a.skip(1), b, universe);
    }
}

/// What the star of a game becomes when it is pressed.
pub open spec fn next_star(tiles: Seq<GameTile>, game: GameDetailData, universe: Seq<char>) -> bool {
    if game.universe_id@ == universe {
        !game.favorited
    } else {
        !(star_in(tiles, universe) == Some(true))
    }
}

pub open spec fn starred_game(g: GameDetailData, universe: Seq<char>, on: bool) -> GameDetailData {
    if g.universe_id@ == universe {
        GameDetailData { favorited: on, ..g }
    } else {
        g
    }
}

/// A star was pressed, on the page of the game or on a tile: flip it there, and
/// everywhere else the game is shown. Gives the universe and what is to be
/// written of it.
pub fn toggle_favorite(grids: &mut Grids, game: &mut GameDetailData, universe_id: &str) -> (r:
    Option<(i64, bool)>)
    ensures
        match read_i64(universe_id@) {
            Some(uid) => {
                let target = next_star(old(grids).tiles(), *old(game), universe_id@);
                &&& r == Some((uid, target))
                &&& *final(game) == starred_game(*old(game), universe_id@, target)
                &&& old(grids).starred_grids(*final(grids), universe_id@, target)
                &&& final(grids).tiles() == starred(old(grids).tiles(), universe_id@, target)
            },
            None => r is None && *final(game) == *old(game) && *final(grids) == *old(grids),
        },
{
    match parse_i64(universe_id) {
        Some(uid) => {
            let on_page = same(game.universe_id.as_str(), universe_id);
            let target = if on_page {
                !game.favorited
            } else {
                match grids.tile_favorited(universe_id) {
                    Some(on) => !on,
                    None => true,
                }
            };
            if on_page {
                game.favorited = target;
            }
            grids.set_tile_favorited(universe_id, target);
            Some((uid, target))
        },
        None => None,
    }
}

/// The star could not be written: put it back.
pub fn favorite_failed(
    grids: &mut Grids,
    game: &mut GameDetailData,
    universe_id: &str,
    target: bool,
)
    ensures
        *final(game) == starred_game(*old(game), universe_id@, !target),
        old(grids).starred_grids(*final(grids), universe_id@, !target),
        final(grids).tiles() == starred(old(grids).tiles(), universe_id@, !target),
{
    if same(game.universe_id.as_str(), universe_id) {
        game.favorited = !target;
    }
    grids.set_tile_favorited(universe_id, !target);
}

/// The tiles of a game agree on its star.
pub open spec fn agree(tiles: Seq<GameTile>, universe: Seq<char>, on: bool) -> bool {
    forall|i: int|
        0 <= i < tiles.len() && (#[trigger] tiles[i]).universe_id@ == universe
            ==> tiles[i].favorited == on
}

/// After a star was set every tile of the game shows it and no other tile has
/// changed; and where the tiles agreed before, taking it back restores them.
pub proof fn law_stars_stay_in_step(tiles: Seq<GameTile>, universe: Seq<char>, on: bool)
    ensures
        agree(starred(tiles, universe, on), universe, on),
        forall|i: int|
            0 <= i < tiles.len() && (#[trigger] tiles[i]).universe_id@ != universe ==> starred(
                tiles,
                universe,
                on,
            )[i] == tiles[i],
        agree(tiles, universe, !on) ==> starred(starred(tiles, universe, on), universe, !on)
            == tiles,
{
    if agree(tiles, universe, !on) {
        assert(starred(starred(tiles, universe, on), universe, !on) =~= tiles);
    }
}

/// The favourites have come: they fill their grid, and every other grid that
/// shows one of them is corrected.
pub fn favorites_loaded(grids: &mut Grids, games: &Vec<GameDetail>)
    ensures
        final(grids).recent@ == all_starred(old(grids).recent@, games@, games@.len()),
        final(grids).pinned@ == all_starred(old(grids).pinned@, games@, games@.len()),
        final(grids).play_games@ == all_starred(old(grids).play_games@, games@, games@.len()),
        final(grids).related@ == all_starred(old(grids).related@, games@, games@.len()),
        final(grids).profile_favorites@ == all_starred(
            old(grids).profile_favorites@,
            games@,
            games@.len(),
        ),
        final(grids).group_games@ == all_starred(old(grids).group_games@, games@, games@.len()),
        final(grids).favorites.len() == games.len(),
        forall|i: int|
            0 <= i < games.len() ==> tile_shows(
                #[trigger] final(grids).favorites@[i],
                games@[i],
                rating_of(None),
                true,
            ),
{
    grids.favorites = plain_tiles(games, true);
    let ghost before = *grids;
    let mut i: usize = 0;
    while i < games.len()
        invariant
            i <= games.len(),
            grids.recent@ == all_starred(before.recent@, games@, i as nat),
            grids.pinned@ == all_starred(before.pinned@, games@, i as nat),
            grids.play_games@ == all_starred(before.play_games@, games@, i as nat),
            grids.related@ == all_starred(before.related@, games@, i as nat),
            grids.profile_favorites@ == all_starred(before.profile_favorites@, games@, i as nat),
            grids.group_games@ == all_starred(before.group_games@, games@, i as nat),
            grids.favorites.len() == games.len(),
            forall|k: int|
                0 <= k < games.len() ==> tile_shows(
                    #[trigger] grids.favorites@[k],
                    games@[k],
                    rating_of(None),
                    true,
                ),
        decreases games.len() - i,
    {
        let id = int_text(games[i].id);
        let ghost so_far = *grids;
        grids.set_tile_favorited(id.as_str(), true);
        assert forall|k: int| 0 <= k < games.len() implies tile_shows(
            #[trigger] grids.favorites@[k],
            games@[k],
            rating_of(None),
            true,
        ) by {
            assert(tile_shows(so_far.favorites@[k], games@[k], rating_of(None), true));
            assert(grids.favorites@[k] == starred_tile(so_far.favorites@[k], id@, true));
        }
        i = i + 1;
    }
}

/// The tiles with the stars of the first `n` games set.
pub open spec fn all_starred(tiles: Seq<GameTile>, games: Seq<GameDetail>, n: nat) -> Seq<GameTile>
    decreases n,
{
    if n == 0 {
        tiles
    } else {
        starred(
            all_starred(tiles, games, (n - 1) as nat),
            decimal_int(games[n - 1].id as int),
            true,
        )
    }
}

/// Tiles without ratings, starred or not.
pub fn plain_tiles(games: &Vec<GameDetail>, favorited: bool) -> (tiles: Vec<GameTile>)
    ensures
        tiles.len() == games.len(),
        forall|i: int|
            0 <= i < games.len() ==> tile_shows(
                #[trigger] tiles@[i],
                games@[i],
                rating_of(None),
                favorited,
            ),
{
    let mut tiles: Vec<GameTile> = Vec::new();
    let mut i: usize = 0;
    while i < games.len()
        invariant
            i <= games.len(),
            tiles.len() == i,
            forall|k: int|
                0 <= k < i ==> tile_shows(
                    #[trigger] tiles@[k],
                    games@[k],
                    rating_of(None),
                    favorited,
                ),
        decreases games.len() - i,
    {
        tiles.push(tile_from_detail(&games[i], None, favorited));
        i = i + 1;
    }
    tiles
}

/// The universes of the tiles, where they can be read.
pub open spec fn universes_of(tiles: Seq<GameTile>) -> Seq<i64>
    decreases tiles.len(),
{
    if tiles.len() == 0 {
        Seq::empty()
    } else {
        let before = universes_of(tiles.drop_last());
        match read_i64(tiles.last().universe_id@) {
            Some(id) => before.push(id),
            None => before,
        }
    }
}

/// The games that are favourites, so that a tile in another grid starts with
/// the right star.
pub fn favorited_ids(favorites: &Vec<GameTile>) -> (ids: Vec<i64>)
    ensures
        ids@ == universes_of(favorites@),
{
    let mut ids: Vec<i64> = Vec::new();
    let mut i: usize = 0;
    assert(favorites@.take(0) =~= Seq::<GameTile>::empty());
    while i < favorites.len()
        invariant
            i <= favorites.len(),
            ids@ == universes_of(favorites@.take(i as int)),
        decreases favorites.len() - i,
    {
        assert(favorites@.take(i as int + 1).drop_last() =~= favorites@.take(i as int));
        assert(favorites@.take(i as int + 1).last() == favorites@[i as int]);
        match parse_i64(favorites[i].universe_id.as_str()) {
            Some(id) => {
                ids.push(id);
            },
            None => {},
        }
        i = i + 1;
    }
    assert(favorites@.take(favorites@.len() as int) =~= favorites@);
    ids
}

/// The rating shown of a game by the first votes for it.
pub open spec fn rating_among(votes: Seq<Votes>, id: i64) -> i32 {
    match votes_for(votes, id) {
        Some(v) => rating_of(Some(&v)),
        None => rating_of(None),
    }
}

pub open spec fn all_votes_add_up(votes: Seq<Votes>) -> bool {
    forall|i: int| 0 <= i < votes.len() ==> votes_add_up(#[trigger] votes[i])
}

proof fn lemma_votes_for(votes: Seq<Votes>, id: i64)
    requires
        all_votes_add_up(votes),
    ensures
        votes_for(votes, id) matches Some(v) ==> votes_add_up(v),
    decreases votes.len(),
{
    if votes.len() > 0 && votes[0].id != id {
        assert forall|i: int| 0 <= i < votes.skip(1).len() implies votes_add_up(
            #[trigger] votes.skip(1)[i],
        ) by {
            assert(votes_add_up(votes[i + 1]));
        }
        lemma_votes_for(votes.skip(1), id);
    }
}

/// Tiles with ratings. Starred are those of `favorites`.
pub fn rated_tiles(details: &Vec<GameDetail>, votes: &Vec<Votes>, favorites: &Vec<i64>) -> (tiles:
    Vec<GameTile>)
    requires
        all_votes_add_up(votes@),
    ensures
        tiles.len() == details.len(),
        forall|i: int|
            0 <= i < tiles.len() ==> tile_shows(
                #[trigger] tiles@[i],
                details@[i],
                rating_among(votes@, details@[i].id),
                favorites@.contains(details@[i].id),
            ),
{
    let mut tiles: Vec<GameTile> = Vec::new();
    let mut i: usize = 0;
    while i < details.len()
        invariant
            i <= details.len(),
            tiles.len() == i,
            all_votes_add_up(votes@),
            forall|k: int|
                0 <= k < i ==> tile_shows(
                    #[trigger] tiles@[k],
                    details@[k],
                    rating_among(votes@, details@[k].id),
                    favorites@.contains(details@[k].id),
                ),
        decreases details.len() - i,
    {
        let d = &details[i];
        proof {
            lemma_votes_for(votes@, d.id);
        }
        let v = find_votes(votes, d.id);
        tiles.push(tile_from_detail(d, v, holds(favorites, d.id)));
        i = i + 1;
    }
    tiles
}

/// Where a universe stands in the list, or past its end.
pub open spec fn recency(universes: Seq<i64>, id: i64) -> int
    decreases universes.len(),
{
    if universes.len() == 0 {
        0
    } else if universes[0] == id {
        0
    } else {
        1 + recency(universes.skip(1), id)
    }
}

fn place_among(universes: &Vec<i64>, id: i64) -> (p: usize)
    ensures
        p == recency(universes@, id),
        p <= universes.len(),
{
    let mut i: usize = 0;
    assert(universes@.skip(0) =~= universes@);
    while i < universes.len()
        invariant
            i <= universes.len(),
            recency(universes@, id) == i + recency(universes@.skip(i as int), id),
        decreases universes.len() - i,
    {
        assert(universes@.skip(i as int)[0] == universes@[i as int]);
        assert(universes@.skip(i as int).skip(1) =~= universes@.skip(i as int + 1));
        if universes[i] == id {
            return i;
        }
        i = i + 1;
    }
    i
}

/// The games stand in the order of the universes that were asked for; games that
/// were not asked for come last, and equals keep their order.
pub open spec fn in_recency_order(
    details: Seq<GameDetail>,
    universes: Seq<i64>,
    out: Seq<GameDetail>,
    order: Seq<usize>,
) -> bool {
    &&& is_permutation(order, details.len())
    &&& out.len() == details.len()
    &&& forall|i: int| 0 <= i < out.len() ==> #[trigger] out[i] == details[order[i] as int]
    &&& forall|i: int, j: int|
        0 <= i < j < out.len() ==> {
            let a = recency(universes, (#[trigger] out[i]).id);
            let b = recency(universes, (#[trigger] out[j]).id);
            a < b || (a == b && order[i] < order[j])
        }
}

/// Put the games in the order of the universes that were asked for: they come
/// back in another, and recency is the point of the list.
pub fn order_by_recency(details: Vec<GameDetail>, universes: &Vec<i64>) -> (out: Vec<GameDetail>)
    requires
        universes.len() <= i64::MAX,
    ensures
        exists|order: Seq<usize>| #[trigger]
            in_recency_order(details@, universes@, out@, order),
{
    let mut keys: Vec<SortKey> = Vec::new();
    let mut i: usize = 0;
    while i < details.len()
        invariant
            i <= details.len(),
            universes.len() <= i64::MAX,
            keys.len() == i,
            forall|k: int|
                0 <= k < i ==> (#[trigger] keys@[k]).name@.len() == 0 && keys@[k].first == recency(
                    universes@,
                    details@[k].id,
                ) && keys@[k].second == 0,
        decreases details.len() - i,
    {
        let p = place_among(universes, details[i].id);
        keys.push(SortKey { first: p as i64, second: 0, name: String::new() });
        i = i + 1;
    }
    let order = sorted_order(&keys);
    let ghost input = details@;
    let out = rearranged(details, &order);
    proof {
        assert forall|i: int, j: int| 0 <= i < j < out.len() implies {
            let a = recency(universes@, (#[trigger] out@[i]).id);
            let b = recency(universes@, (#[trigger] out@[j]).id);
            a < b || (a == b && order@[i] < order@[j])
        } by {
            let x = order@[i];
            let y = order@[j];
            assert(precedes(keys@, x, y));
            assert(out@[i] == input[x as int]);
            assert(out@[j] == input[y as int]);
            assert(keys@[x as int].name@ =~= keys@[y as int].name@);
            crate::text::lemma_text_le_total(keys@[x as int].name@, keys@[y as int].name@);
        }
        assert(in_recency_order(input, universes@, out@, order@));
    }
    out
}

/// The places that were resolved to universes; one that could not be is left out.
pub open spec fn resolved_of(answers: Seq<Option<i64>>) -> Seq<i64>
    decreases answers.len(),
{
    if answers.len() == 0 {
        Seq::empty()
    } else {
        let before = resolved_of(answers.drop_last());
        match answers.last() {
            Some(u) => before.push(u),
            None => before,
        }
    }
}

/// The universes of pinned places. Pins are kept by place, and each has to be
/// resolved first.
pub fn resolved(answers: &Vec<Option<i64>>) -> (out: Vec<i64>)
    ensures
        out@ == resolved_of(answers@),
{
    let mut out: Vec<i64> = Vec::new();
    let mut i: usize = 0;
    assert(answers@.take(0) =~= Seq::<Option<i64>>::empty());
    while i < answers.len()
        invariant
            i <= answers.len(),
            out@ == resolved_of(answers@.take(i as int)),
        decreases answers.len() - i,
    {
        assert(answers@.take(i as int + 1).drop_last() =~= answers@.take(i as int));
        match answers[i] {
            Some(u) => {
                out.push(u);
            },
            None => {},
        }
        i = i + 1;
    }
    assert(answers@.take(answers@.len() as int) =~= answers@);
    out
}

/// Which parts of Home are shown.
#[derive(Debug, Clone, Copy, PartialEq, Eq, Structural)]
pub struct HomeSections {
    pub friends: bool,
    pub hero: bool,
    pub pinned: bool,
    pub recent: bool,
    pub favorites: bool,
}

fn has_section(on: &Vec<i32>, kind: i32) -> (r: bool)
    ensures
        r == on@.contains(kind),
{
    let mut i: usize = 0;
    while i < on.len()
        invariant
            i <= on.len(),
            forall|k: int| 0 <= k < i ==> on@[k] != kind,
        decreases on.len() - i,
    {
        if on[i] == kind {
            return true;
        }
        i = i + 1;
    }
    false
}

/// Which parts of Home are shown, by the numbers that were saved.
pub fn home_sections(on: &Vec<i32>) -> (s: HomeSections)
    ensures
        s == (HomeSections {
            friends: on@.contains(0),
            hero: on@.contains(1),
            pinned: on@.contains(2),
            recent: on@.contains(3),
            favorites: on@.contains(4),
        }),
{
    HomeSections {
        friends: has_section(on, 0),
        hero: has_section(on, 1),
        pinned: has_section(on, 2),
        recent: has_section(on, 3),
        favorites: has_section(on, 4),
    }
}

/// A picture that is to be fetched for a row: the row, the id that the row must
/// have when the picture comes, and the address.
pub struct PictureJob {
    pub index: usize,
    pub expect_id: String,
    pub url: String,
}

/// The rows that have a picture.
pub open spec fn pictured(keys: Seq<i64>, art: Map<i64, String>) -> Seq<int>
    decreases keys.len(),
{
    if keys.len() == 0 {
        Seq::empty()
    } else {
        let before = pictured(keys.drop_last(), art);
        if art.dom().contains(keys.last()) {
            before.push(keys.len() - 1)
        } else {
            before
        }
    }
}

pub open spec fn job_is(
    j: PictureJob,
    keys: Seq<i64>,
    ids: Seq<i64>,
    art: Map<i64, String>,
    i: int,
) -> bool {
    &&& j.index == i
    &&& j.expect_id@ == decimal_int(ids[i] as int)
    &&& j.url@ == art[keys[i]]@
}

/// The pictures to fetch for a list: the picture of row `i` is kept by `keys[i]`,
/// and the row shows `ids[i]`.
pub fn picture_jobs(keys: &Vec<i64>, ids: &Vec<i64>, art: &HashMap<i64, String>) -> (jobs: Vec<
    PictureJob,
>)
    requires
        ids.len() == keys.len(),
    ensures
        jobs.len() == pictured(keys@, art@).len(),
        forall|k: int|
            0 <= k < jobs.len() ==> job_is(
                #[trigger] jobs@[k],
                keys@,
                ids@,
                art@,
                pictured(keys@, art@)[k],
            ),
{
    broadcast use vstd::std_specs::hash::group_hash_axioms;

    let mut jobs: Vec<PictureJob> = Vec::new();
    let mut i: usize = 0;
    assert(keys@.take(0) =~= Seq::<i64>::empty());
    while i < keys.len()
        invariant
            i <= keys.len() == ids.len(),
            jobs.len() == pictured(keys@.take(i as int), art@).len(),
            forall|k: int|
                0 <= k < jobs.len() ==> job_is(
                    #[trigger] jobs@[k],
                    keys@,
                    ids@,
                    art@,
                    pictured(keys@.take(i as int), art@)[k],
                ),
        decreases keys.len() - i,
    {
        assert(keys@.take(i as int + 1).drop_last() =~= keys@.take(i as int));
        assert(keys@.take(i as int + 1).last() == keys@[i as int]);
        match art.get(&keys[i]) {
            Some(url) => {
                jobs.push(
                    PictureJob { index: i, expect_id: int_text(ids[i]), url: url.clone() },
                );
            },
            None => {},
        }
        i = i + 1;
    }
    assert(keys@.take(keys@.len() as int) =~= keys@);
    jobs
}

/// Whether a picture that has come belongs to the row at its place. The place was
/// taken before the download: if the list was replaced since, the row is another,
/// and the wrong picture is worse than none.
pub fn picture_fits(row_id: Option<&str>, expect_id: &str) -> (r: bool)
    ensures
        r == (match row_id {
            Some(id) => id@ == expect_id@,
            None => false,
        }),
{
    match row_id {
        Some(id) => same(id, expect_id),
        None => false,
    }
}

/// The star of a game is that of the first tile that shows it.
pub proof fn law_the_first_tile_has_the_star(tiles: Seq<GameTile>, universe: Seq<char>, k: int)
    requires
        0 <= k <= tiles.len(),
        forall|j: int| 0 <= j < k ==> (#[trigger] tiles[j]).universe_id@ != universe,
        k < tiles.len() ==> tiles[k].universe_id@ == universe,
    ensures
        star_in(tiles, universe) == (if k < tiles.len() {
            Some(tiles[k].favorited)
        } else {
            None
        }),
    decreases k,
{
    if k > 0 {
        assert(tiles[0].universe_id@ != universe);
        assert forall|j: int| 0 <= j < k - 1 implies (#[trigger] tiles.skip(1)[j]).universe_id@
            != universe by {
            assert(tiles.skip(1)[j] == tiles[j + 1]);
        }
        if k < tiles.len() {
            assert(tiles.skip(1)[k - 1] == tiles[k]);
        }
        law_the_first_tile_has_the_star(tiles.skip(1), universe, k - 1);
    }
}

/// Pressing a star turns it round: that of the page that is open, where it is this
/// game's, and otherwise that of its tile. A game that is shown nowhere gets one.
pub proof fn law_a_star_is_turned_round(
    tiles: Seq<GameTile>,
    game: GameDetailData,
    universe: Seq<char>,
    on: bool,
)
    ensures
        game.universe_id@ == universe ==> next_star(tiles, game, universe) == !game.favorited,
        game.universe_id@ != universe && star_in(tiles, universe) == Some(on) ==> next_star(
            tiles,
            game,
            universe,
        ) == !on,
        game.universe_id@ != universe && star_in(tiles, universe) is None ==> next_star(
            tiles,
            game,
            universe,
        ),
        game.universe_id@ == universe ==> starred_game(game, universe, on) == (GameDetailData {
            favorited: on,
            ..game
        }),
        game.universe_id@ != universe ==> starred_game(game, universe, on) == game,
{
}

/// Once the favourites have come, every tile of one of them has a star, and no other
/// tile has changed.
pub proof fn law_favourites_have_stars(tiles: Seq<GameTile>, games: Seq<GameDetail>, n: nat, i: int)
    requires
        n <= games.len(),
        0 <= i < tiles.len(),
    ensures
        all_starred(tiles, games, n).len() == tiles.len(),
        all_starred(tiles, games, n)[i].universe_id == tiles[i].universe_id,
        (exists|k: int|
            0 <= k < n && decimal_int((#[trigger] games[k]).id as int) == tiles[i].universe_id@)
            ==> all_starred(tiles, games, n)[i].favorited,
        (forall|k: int|
            0 <= k < n ==> decimal_int((#[trigger] games[k]).id as int) != tiles[i].universe_id@)
            ==> all_starred(tiles, games, n)[i] == tiles[i],
    decreases n,
{
    if n > 0 {
        law_favourites_have_stars(tiles, games, (n - 1) as nat, i);
        if exists|k: int|
            0 <= k < n && decimal_int((#[trigger] games[k]).id as int) == tiles[i].universe_id@ {
            let k = choose|k: int|
                0 <= k < n && decimal_int((#[trigger] games[k]).id as int) == tiles[i].universe_id@;
            assert(k < n - 1 || k == n - 1);
        }
    }
}

/// The games of a grid are those of its tiles whose numbers can be read.
pub proof fn law_universes_of_tiles(tiles: Seq<GameTile>, t: GameTile)
    ensures
        universes_of(Seq::empty()).len() == 0,
        universes_of(tiles.push(t)) == (match read_i64(t.universe_id@) {
            Some(id) => universes_of(tiles).push(id),
            None => universes_of(tiles),
        }),
{
    assert(tiles.push(t).drop_last() =~= tiles);
}

/// The place of a game in the list is that of its first mention, and the end of the
/// list for a game that is not in it.
pub proof fn law_how_recent_a_game_is(universes: Seq<i64>, id: i64, k: int)
    requires
        0 <= k <= universes.len(),
        forall|j: int| 0 <= j < k ==> universes[j] != id,
        k < universes.len() ==> universes[k] == id,
    ensures
        recency(universes, id) == k,
    decreases k,
{
    if k > 0 {
        assert(universes[0] != id);
        assert forall|j: int| 0 <= j < k - 1 implies universes.skip(1)[j] != id by {
            assert(universes.skip(1)[j] == universes[j + 1]);
        }
        law_how_recent_a_game_is(universes.skip(1), id, k - 1);
    }
}

/// The game that was played last comes first: games stand in the order in which the
/// list names them, each of them is there, and the ones it does not name come last.
pub proof fn law_the_latest_game_comes_first(
    details: Seq<GameDetail>,
    universes: Seq<i64>,
    out: Seq<GameDetail>,
    order: Seq<usize>,
    a: int,
    b: int,
)
    requires
        in_recency_order(details, universes, out, order),
        details.len() <= usize::MAX,
        universes.no_duplicates(),
    ensures
        out.len() == details.len(),
        forall|i: int| 0 <= i < details.len() ==> out.contains(#[trigger] details[i]),
        forall|i: int, j: int|
            0 <= i < out.len() && 0 <= j < out.len() && 0 <= a < b < universes.len() && (
            #[trigger] out[i]).id == universes[a] && (#[trigger] out[j]).id == universes[b] ==> i
                < j,
        forall|i: int, j: int|
            0 <= i < out.len() && 0 <= j < out.len() && universes.contains((#[trigger] out[i]).id)
                && !universes.contains((#[trigger] out[j]).id) ==> i < j,
{
    assert forall|i: int| 0 <= i < details.len() implies out.contains(#[trigger] details[i]) by {
        crate::order::lemma_permutation_hits(order, details.len(), i as usize);
        let p = choose|p: int| 0 <= p < order.len() && order[p] == i as usize;
        assert(out[p] == details[i]);
    }
    assert forall|i: int, j: int|
        0 <= i < out.len() && 0 <= j < out.len() && 0 <= a < b < universes.len() && (
        #[trigger] out[i]).id == universes[a] && (#[trigger] out[j]).id == universes[b] implies i
        < j by {
        law_how_recent_a_game_is(universes, out[i].id, a);
        law_how_recent_a_game_is(universes, out[j].id, b);
        if j < i {
            assert(recency(universes, out[j].id) <= recency(universes, out[i].id));
        }
    }
    assert forall|i: int, j: int|
        0 <= i < out.len() && 0 <= j < out.len() && universes.contains((#[trigger] out[i]).id)
            && !universes.contains((#[trigger] out[j]).id) implies i < j by {
        let k = choose|k: int| 0 <= k < universes.len() && universes[k] == out[i].id;
        law_how_recent_a_game_is(universes, out[i].id, k);
        law_how_recent_a_game_is(universes, out[j].id, universes.len() as int);
        if j < i {
            assert(recency(universes, out[j].id) <= recency(universes, out[i].id));
        }
    }
}

/// A place that could not be resolved is left out, and the others keep their order.
pub proof fn law_resolved_places(answers: Seq<Option<i64>>, a: Option<i64>)
    ensures
        resolved_of(Seq::empty()).len() == 0,
        resolved_of(answers.push(a)) == (match a {
            Some(u) => resolved_of(answers).push(u),
            None => resolved_of(answers),
        }),
{
    assert(answers.push(a).drop_last() =~= answers);
}

/// A row gets a picture where there is one under its key, and the picture is meant for
/// the row that shows its id.
pub proof fn law_pictures_are_for_their_rows(
    keys: Seq<i64>,
    key: i64,
    ids: Seq<i64>,
    art: Map<i64, String>,
    j: PictureJob,
    i: int,
)
    ensures
        pictured(keys.push(key), art) == (if art.dom().contains(key) {
            pictured(keys, art).push(keys.len() as int)
        } else {
            pictured(keys, art)
        }),
        job_is(j, keys, ids, art, i) ==> j.index == i && j.expect_id@ == decimal_int(ids[i] as int)
            && j.url@ == art[keys[i]]@,
{
    assert(keys.push(key).drop_last() =~= keys);
}

/// A star that is set is set in every grid: the same game shows the same star
/// wherever it stands, and no other tile of any grid changes.
pub proof fn law_stars_are_set_in_every_grid(
    before: Grids,
    after: Grids,
    universe: Seq<char>,
    on: bool,
)
    requires
        before.starred_grids(after, universe, on),
    ensures
        agree(after.recent@, universe, on),
        agree(after.favorites@, universe, on),
        agree(after.pinned@, universe, on),
        agree(after.play_games@, universe, on),
        agree(after.related@, universe, on),
        agree(after.profile_favorites@, universe, on),
        agree(after.group_games@, universe, on),
        after.recent@.len() == before.recent@.len(),
        after.favorites@.len() == before.favorites@.len(),
        after.pinned@.len() == before.pinned@.len(),
        after.play_games@.len() == before.play_games@.len(),
        after.related@.len() == before.related@.len(),
        after.profile_favorites@.len() == before.profile_favorites@.len(),
        after.group_games@.len() == before.group_games@.len(),
        forall|i: int|
            0 <= i < before.recent@.len() && (#[trigger] before.recent@[i]).universe_id@ != universe
                ==> after.recent@[i] == before.recent@[i],
{
    law_stars_stay_in_step(before.recent@, universe, on);
    law_stars_stay_in_step(before.favorites@, universe, on);
    law_stars_stay_in_step(before.pinned@, universe, on);
    law_stars_stay_in_step(before.play_games@, universe, on);
    law_stars_stay_in_step(before.related@, universe, on);
    law_stars_stay_in_step(before.profile_favorites@, universe, on);
    law_stars_stay_in_step(before.group_games@, universe, on);
}

/// The tile with its star set is otherwise as it was.
pub proof fn law_only_the_star_changes(t: GameTile, universe: Seq<char>, on: bool)
    ensures
        starred_tile(t, universe, on).id == t.id,
        starred_tile(t, universe, on).universe_id == t.universe_id,
        starred_tile(t, universe, on).name == t.name,
        starred_tile(t, universe, on).creator == t.creator,
        starred_tile(t, universe, on).playing == t.playing,
        starred_tile(t, universe, on).rating == t.rating,
        t.universe_id@ == universe ==> starred_tile(t, universe, on).favorited == on,
        t.universe_id@ != universe ==> starred_tile(t, universe, on) == t,
{
}

/// The rating of a game is that of the first votes that are given for it, and minus
/// one without any.
pub proof fn law_ratings_are_found(votes: Seq<Votes>, id: i64, k: int)
    requires
        0 <= k <= votes.len(),
        forall|j: int| 0 <= j < k ==> (#[trigger] votes[j]).id != id,
        k < votes.len() ==> votes[k].id == id,
    ensures
        k < votes.len() ==> rating_among(votes, id) == rating_of(Some(&votes[k])),
        k == votes.len() ==> rating_among(votes, id) == -1,
{
    lemma_votes_found(votes, id, k);
}

} // verus!
