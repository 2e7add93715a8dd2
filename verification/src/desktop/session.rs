//! Everything on screen that belongs to whoever is signed in.

use crate::desktop::adapters::{
    badges, item_is, passes, sub_place_shows, sub_places, DetailItem, GameTile, ServerRow,
    SubPlace,
};
use crate::desktop::find::Finder;
use crate::desktop::friends::{FriendInput, FriendRow};
use crate::desktop::home::Grids;
use crate::desktop::launch::Launch;
use crate::desktop::library::{empty_library, LibraryView};
use crate::desktop::nav::{
    first_section, navigated, pushed, Generation, Screen, GAME_PAGE, GROUP_PAGE, NO_PAGE,
    PROFILE_PAGE,
};
use crate::desktop::profile::GroupRow;
use crate::desktop::requests::Requests;
use crate::desktop::wardrobe::Wardrobe;
use crate::number::{decimal, decimal_int, nat_text};
use crate::roblox::models::{Badge, GamePass, Place};
use crate::text::{cat2, or_empty};
use vstd::prelude::*;

verus! {

/// How long after signing in the favourites are loaded, in milliseconds.
pub const FAVORITES_AFTER: u64 = 300;

/// How long after signing in the friends are loaded.
pub const FRIENDS_AFTER: u64 = 600;

/// How long after signing in the avatar is loaded.
pub const AVATAR_AFTER: u64 = 2_000;

/// Who is signed in, and what is shown of them.
pub struct Session {
    pub generation: Generation,
    pub signed_in: bool,
    pub session_expired: bool,
    pub me: i64,
    pub account_name: String,
    pub screen: Screen,
    pub roster: Vec<FriendInput>,
    pub friend_rows: Vec<FriendRow>,
    pub friends_online: i32,
    pub friends_in_game: i32,
    pub requests: Requests,
    pub grids: Grids,
    /// The game that was played last.
    pub hero: Option<GameTile>,
    pub finder: Finder,
    pub search_session: String,
    pub current_universe: i64,
    pub current_place: i64,
    pub servers: Vec<ServerRow>,
    pub sub_places: Vec<SubPlace>,
    pub passes: Vec<DetailItem>,
    pub badges: Vec<DetailItem>,
    pub profile_groups: Vec<GroupRow>,
    pub profile_badges: Vec<DetailItem>,
    pub wardrobe: Wardrobe,
    pub outfits: Vec<DetailItem>,
    pub library: LibraryView,
    pub launch: Launch,
}

/// Nothing is left on screen of whoever was signed in before.
pub open spec fn is_clear(s: Session) -> bool {
    &&& s.grids.tiles().len() == 0
    &&& s.friend_rows@.len() == 0
    &&& s.friends_online == 0
    &&& s.friends_in_game == 0
    &&& s.requests.rows@.len() == 0
    &&& s.requests.status@.len() == 0
    &&& s.finder.players@.len() == 0
    &&& s.finder.groups@.len() == 0
    &&& s.finder.last_query@.len() == 0
    &&& s.servers@.len() == 0
    &&& s.sub_places@.len() == 0
    &&& s.passes@.len() == 0
    &&& s.badges@.len() == 0
    &&& s.profile_groups@.len() == 0
    &&& s.profile_badges@.len() == 0
    &&& s.wardrobe.items@.len() == 0
    &&& s.wardrobe.worn_rows@.len() == 0
    &&& s.outfits@.len() == 0
    &&& s.library.most_played@.len() == 0
    &&& s.library.total_playtime@ == "0m"@
    &&& s.library.games_played == 0
    &&& s.library.total_launches == 0
    &&& s.launch.error@.len() == 0
    &&& !s.launch.account_mismatch
    &&& s.screen.kind == NO_PAGE
    &&& !s.screen.can_back
}

/// What is not shown is as it was.
pub open spec fn kept_behind(before: Session, after: Session) -> bool {
    &&& after.requests.busy == before.requests.busy
    &&& after.finder.generation == before.finder.generation
    &&& after.finder.searching == before.finder.searching
    &&& after.wardrobe.writing == before.wardrobe.writing
    &&& after.wardrobe.busy == before.wardrobe.busy
    &&& after.wardrobe.last_write == before.wardrobe.last_write
    &&& after.wardrobe.is_r15 == before.wardrobe.is_r15
    &&& after.launch.launching == before.launch.launching
}

impl Session {
    /// Nobody is signed in yet.
    pub fn new(handled: Vec<String>) -> (s: Session)
        ensures
            is_clear(s),
            !s.signed_in,
            !s.session_expired,
            s.me == 0,
            s.roster@.len() == 0,
            s.hero is None,
            s.requests.handled == handled,
            s.current_place == 0,
            s.current_universe == 0,
            s.generation.now == 0,
    {
        Session {
            generation: Generation { now: 0 },
            signed_in: false,
            session_expired: false,
            me: 0,
            account_name: String::new(),
            screen: Screen::new(),
            roster: Vec::new(),
            friend_rows: Vec::new(),
            friends_online: 0,
            friends_in_game: 0,
            requests: Requests::new(handled),
            grids: Grids::new(),
            hero: None,
            finder: Finder::new(),
            search_session: String::new(),
            current_universe: 0,
            current_place: 0,
            servers: Vec::new(),
            sub_places: Vec::new(),
            passes: Vec::new(),
            badges: Vec::new(),
            profile_groups: Vec::new(),
            profile_badges: Vec::new(),
            wardrobe: Wardrobe::new(),
            outfits: Vec::new(),
            library: empty_library(),
            launch: Launch::new(),
        }
    }

    /// Wipe everything that belongs to whoever was signed in a moment ago. What is
    /// loaded anew comes later: until then the old would look as if nothing had
    /// happened.
    pub fn clear_account_view(&mut self)
        ensures
            is_clear(*final(self)),
            kept_behind(*old(self), *final(self)),
            final(self).requests.handled == old(self).requests.handled,
            final(self).wardrobe.worn == old(self).wardrobe.worn,
            final(self).generation == old(self).generation,
            final(self).signed_in == old(self).signed_in,
            final(self).session_expired == old(self).session_expired,
            final(self).me == old(self).me,
            final(self).account_name == old(self).account_name,
            final(self).roster == old(self).roster,
            final(self).hero == old(self).hero,
            final(self).search_session == old(self).search_session,
            final(self).current_universe == old(self).current_universe,
            final(self).current_place == old(self).current_place,
            final(self).screen.section == old(self).screen.section,
            final(self).screen.return_section == old(self).screen.return_section,
    {
        self.grids = Grids::new();
        self.friend_rows = Vec::new();
        self.friends_online = 0;
        self.friends_in_game = 0;
        self.requests.rows = Vec::new();
        self.requests.status = String::new();
        self.finder.players = Vec::new();
        self.finder.groups = Vec::new();
        self.finder.last_query = String::new();
        self.servers = Vec::new();
        self.sub_places = Vec::new();
        self.passes = Vec::new();
        self.badges = Vec::new();
        self.profile_groups = Vec::new();
        self.profile_badges = Vec::new();
        self.wardrobe.items = Vec::new();
        self.wardrobe.worn_rows = Vec::new();
        self.outfits = Vec::new();
        self.library = empty_library();
        self.launch.error = String::new();
        self.launch.account_mismatch = false;
        self.screen.kind = NO_PAGE;
        self.screen.can_back = false;
    }

    /// Somebody has signed in. Answers that were asked for before are not wanted
    /// any more.
    pub fn enter_app(
        &mut self,
        display_name: &str,
        user_id: i64,
        handled: Vec<String>,
        startup_section: i32,
        now_millis: u64,
    )
        ensures
            is_clear(*final(self)),
            kept_behind(*old(self), *final(self)),
            final(self).generation.now == old(self).generation.now.wrapping_add(1),
            final(self).generation.now != old(self).generation.now,
            final(self).requests.handled == handled,
            final(self).wardrobe.worn@.len() == 0,
            final(self).roster@.len() == 0,
            final(self).hero == old(self).hero,
            final(self).current_universe == 0,
            final(self).current_place == 0,
            final(self).search_session@ == "rojoin-"@ + decimal(now_millis as nat),
            final(self).signed_in,
            !final(self).session_expired,
            final(self).account_name@ == display_name@,
            final(self).me == user_id,
            final(self).screen == navigated(old(self).screen, first_section(startup_section)),
    {
        self.generation.next();
        self.clear_account_view();
        self.roster = Vec::new();
        self.wardrobe.worn = Vec::new();
        self.current_universe = 0;
        self.current_place = 0;
        self.search_session = new_session_id(now_millis);
        self.requests.handled = handled;
        self.signed_in = true;
        self.session_expired = false;
        self.account_name = display_name.to_owned();
        self.me = user_id;
        self.screen.enter(startup_section);
    }
}

/// The tile is a copy of another.
pub open spec fn same_tile(a: GameTile, b: GameTile) -> bool {
    &&& a.id@ == b.id@
    &&& a.universe_id@ == b.universe_id@
    &&& a.name@ == b.name@
    &&& a.creator@ == b.creator@
    &&& a.playing@ == b.playing@
    &&& a.rating == b.rating
    &&& a.favorited == b.favorited
}

fn copied(t: &GameTile) -> (r: GameTile)
    ensures
        same_tile(r, *t),
{
    GameTile {
        id: t.id.clone(),
        universe_id: t.universe_id.clone(),
        name: t.name.clone(),
        creator: t.creator.clone(),
        playing: t.playing.clone(),
        rating: t.rating,
        favorited: t.favorited,
    }
}

impl Session {
    /// The games that were played last have come, the last one first; it is shown
    /// large. A new account has nothing to continue. False where they were asked
    /// for by another account.
    pub fn home_loaded(&mut self, generation: i64, tiles: Vec<GameTile>) -> (shown: bool)
        ensures
            shown == (generation == old(self).generation.now),
            !shown ==> *final(self) == *old(self),
            shown ==> {
                &&& final(self).hero is Some <==> tiles@.len() > 0
                &&& final(self).hero matches Some(t) ==> same_tile(t, tiles@[0])
                &&& *final(self) == (Session {
                    hero: final(self).hero,
                    grids: (Grids { recent: tiles, ..old(self).grids }),
                    ..*old(self)
                })
            },
    {
        if !self.generation.is_current(generation) {
            return false;
        }
        self.hero = if tiles.len() > 0 {
            Some(copied(&tiles[0]))
        } else {
            None
        };
        self.grids.recent = tiles;
        true
    }
}

/// What is fetched of a game for its page.
pub struct GameLoad {
    pub universe_id: i64,
    pub subs: Vec<Place>,
    pub passes: Vec<GamePass>,
    pub badges: Vec<Badge>,
}

impl Session {
    /// Open the page of a game. What is shown of another game is taken away first.
    pub fn open_game(&mut self, place_id: i64)
        ensures
            final(self).screen == pushed(old(self).screen, GAME_PAGE),
            final(self).sub_places@.len() == 0,
            final(self).servers@.len() == 0,
            final(self).current_place == place_id,
            *final(self) == (Session {
                screen: final(self).screen,
                sub_places: final(self).sub_places,
                servers: final(self).servers,
                current_place: place_id,
                ..*old(self)
            }),
    {
        self.screen.push_view(GAME_PAGE);
        self.sub_places = Vec::new();
        self.servers = Vec::new();
        self.current_place = place_id;
    }

    /// The game has come. False where it was asked for by another account.
    pub fn game_loaded(&mut self, generation: i64, load: &GameLoad) -> (shown: bool)
        ensures
            shown == (generation == old(self).generation.now),
            !shown ==> *final(self) == *old(self),
            shown ==> {
                &&& final(self).current_universe == load.universe_id
                &&& final(self).sub_places.len() == load.subs.len()
                &&& forall|i: int|
                    0 <= i < load.subs.len() ==> sub_place_shows(
                        #[trigger] final(self).sub_places@[i],
                        load.subs@[i],
                    )
                &&& final(self).passes.len() == load.passes.len()
                &&& forall|i: int|
                    0 <= i < load.passes.len() ==> item_is(
                        #[trigger] final(self).passes@[i],
                        decimal_int(load.passes@[i].id as int),
                        load.passes@[i].name@,
                        Seq::empty(),
                        2,
                    )
                &&& final(self).badges.len() == load.badges.len()
                &&& forall|i: int|
                    0 <= i < load.badges.len() ==> item_is(
                        #[trigger] final(self).badges@[i],
                        decimal_int(load.badges@[i].id as int),
                        load.badges@[i].name@,
                        or_empty(load.badges@[i].description),
                        3,
                    )
                &&& *final(self) == (Session {
                    current_universe: load.universe_id,
                    sub_places: final(self).sub_places,
                    passes: final(self).passes,
                    badges: final(self).badges,
                    ..*old(self)
                })
            },
    {
        if !self.generation.is_current(generation) {
            return false;
        }
        self.current_universe = load.universe_id;
        self.sub_places = sub_places(&load.subs);
        self.passes = passes(&load.passes);
        self.badges = badges(&load.badges);
        true
    }

    /// Open the page of somebody.
    pub fn open_profile(&mut self)
        ensures
            final(self).screen == pushed(old(self).screen, PROFILE_PAGE),
            final(self).profile_groups@.len() == 0,
            final(self).grids.profile_favorites@.len() == 0,
            final(self).grids == (Grids {
                profile_favorites: final(self).grids.profile_favorites,
                ..old(self).grids
            }),
            *final(self) == (Session {
                screen: final(self).screen,
                profile_groups: final(self).profile_groups,
                grids: final(self).grids,
                ..*old(self)
            }),
    {
        self.screen.push_view(PROFILE_PAGE);
        self.profile_groups = Vec::new();
        self.grids.profile_favorites = Vec::new();
    }

    /// Open the page of a group.
    pub fn open_group(&mut self)
        ensures
            final(self).screen == pushed(old(self).screen, GROUP_PAGE),
            final(self).grids.group_games@.len() == 0,
            final(self).grids == (Grids {
                group_games: final(self).grids.group_games,
                ..old(self).grids
            }),
            *final(self) == (Session {
                screen: final(self).screen,
                grids: final(self).grids,
                ..*old(self)
            }),
    {
        self.screen.push_view(GROUP_PAGE);
        self.grids.group_games = Vec::new();
    }
}

/// The id of a search session: stable within one, and different between two.
pub fn new_session_id(now_millis: u64) -> (r: String)
    ensures
        r@ == "rojoin-"@ + decimal(now_millis as nat),
{
    cat2("rojoin-", nat_text(now_millis).as_str())
}

/// A cleared screen shows nothing of anybody: no games, no friends, no requests, no
/// results, no servers, no clothes, no history, no error, and no page.
pub proof fn law_a_cleared_screen_is_empty(s: Session)
    requires
        is_clear(s),
    ensures
        s.grids.recent@.len() == 0,
        s.grids.favorites@.len() == 0,
        s.grids.pinned@.len() == 0,
        s.grids.play_games@.len() == 0,
        s.grids.related@.len() == 0,
        s.grids.profile_favorites@.len() == 0,
        s.grids.group_games@.len() == 0,
        s.friend_rows@.len() == 0,
        s.friends_online == 0,
        s.friends_in_game == 0,
        s.requests.rows@.len() == 0,
        s.requests.status@.len() == 0,
        s.finder.players@.len() == 0,
        s.finder.groups@.len() == 0,
        s.finder.last_query@.len() == 0,
        s.servers@.len() == 0,
        s.sub_places@.len() == 0,
        s.passes@.len() == 0,
        s.badges@.len() == 0,
        s.profile_groups@.len() == 0,
        s.profile_badges@.len() == 0,
        s.wardrobe.items@.len() == 0,
        s.wardrobe.worn_rows@.len() == 0,
        s.outfits@.len() == 0,
        s.library.most_played@.len() == 0,
        s.library.total_playtime@ == "0m"@,
        s.library.games_played == 0,
        s.library.total_launches == 0,
        s.launch.error@.len() == 0,
        !s.launch.account_mismatch,
        s.screen.kind == 0,
        !s.screen.can_back,
{
}

/// Clearing the screen interrupts nothing that is under way.
pub proof fn law_clearing_interrupts_nothing(before: Session, after: Session)
    requires
        kept_behind(before, after),
    ensures
        after.requests.busy == before.requests.busy,
        after.finder.generation == before.finder.generation,
        after.finder.searching == before.finder.searching,
        after.wardrobe.writing == before.wardrobe.writing,
        after.wardrobe.busy == before.wardrobe.busy,
        after.wardrobe.last_write == before.wardrobe.last_write,
        after.wardrobe.is_r15 == before.wardrobe.is_r15,
        after.launch.launching == before.launch.launching,
{
}

/// A copy of a tile shows and launches the same, and what is loaded after signing in
/// is loaded one thing after the other.
pub proof fn law_copies_of_tiles(a: GameTile, b: GameTile)
    requires
        same_tile(a, b),
    ensures
        a.id@ == b.id@,
        a.universe_id@ == b.universe_id@,
        a.name@ == b.name@,
        a.creator@ == b.creator@,
        a.playing@ == b.playing@,
        a.rating == b.rating,
        a.favorited == b.favorited,
        FAVORITES_AFTER == 300 && FRIENDS_AFTER == 600 && AVATAR_AFTER == 2000,
{
}

} // verus!
