//! Getting around: sections, pages opened on top of them, and the way back.

use crate::desktop::adapters::{DetailItem, GameDetailData};
use crate::desktop::lists::{add_text, drop_text, with_text, without_text};
use crate::number::{parse_i64, read_i64};
use crate::roblox::error::Error;
use crate::text::{cat2, cat3, same, texts};
use vstd::prelude::*;

verus! {

/// The sections in the order of the sidebar, with their signs.
pub const NAV: [(&'static str, &'static str); 6] = [
    ("Home", "⌂"),
    ("Search", "⌕"),
    ("Friends", "◑"),
    ("Library", "▤"),
    ("Avatar", "☺"),
    ("Macros", "⌨"),
];

/// The section of the settings. It is past the end of the sidebar: the settings
/// are reached by the gear.
pub const SETTINGS_SECTION: i32 = 6;

pub const SEARCH_SECTION: i32 = 1;

pub const NO_PAGE: i32 = 0;

pub const GAME_PAGE: i32 = 1;

pub const PROFILE_PAGE: i32 = 2;

pub const GROUP_PAGE: i32 = 3;

pub const CLIENT_PAGE: i32 = 4;

/// What is on screen.
#[derive(Debug, Clone, Copy, PartialEq, Eq, Structural)]
pub struct Screen {
    pub section: i32,
    /// The page that is open on top of the section.
    pub kind: i32,
    pub can_back: bool,
    /// The section that the way back leads to.
    pub return_section: i32,
}

pub open spec fn navigated(v: Screen, section: i32) -> Screen {
    Screen { section, kind: NO_PAGE, can_back: false, ..v }
}

pub open spec fn pushed(v: Screen, kind: i32) -> Screen {
    Screen {
        kind,
        can_back: true,
        return_section: if v.kind == NO_PAGE {
            v.section
        } else {
            v.return_section
        },
        ..v
    }
}

pub open spec fn backed(v: Screen) -> Screen {
    if v.kind == NO_PAGE {
        v
    } else {
        Screen { section: v.return_section, kind: NO_PAGE, can_back: false, ..v }
    }
}

/// The section that is shown first: one of the sidebar.
pub open spec fn first_section(wanted: i32) -> i32 {
    if wanted < 0 {
        0
    } else if wanted > 5 {
        5
    } else {
        wanted
    }
}

impl Screen {
    /// A page that is open can be left.
    pub open spec fn wf(&self) -> bool {
        self.kind != NO_PAGE ==> self.can_back
    }

    pub fn new() -> (v: Screen)
        ensures
            v == (Screen { section: 0, kind: NO_PAGE, can_back: false, return_section: 0 }),
            v.wf(),
    {
        Screen { section: 0, kind: NO_PAGE, can_back: false, return_section: 0 }
    }

    /// Go to a section.
    pub fn navigate(&mut self, section: i32)
        ensures
            *final(self) == navigated(*old(self), section),
            final(self).wf(),
    {
        self.section = section;
        self.kind = NO_PAGE;
        self.can_back = false;
    }

    /// Go to the section that the user starts with.
    pub fn enter(&mut self, wanted: i32)
        ensures
            *final(self) == navigated(*old(self), first_section(wanted)),
            final(self).wf(),
    {
        let section: i32 = if wanted < 0 {
            0
        } else if wanted > 5 {
            5
        } else {
            wanted
        };
        self.navigate(section);
    }

    pub fn open_settings(&mut self)
        ensures
            *final(self) == navigated(*old(self), SETTINGS_SECTION),
            final(self).wf(),
    {
        self.navigate(SETTINGS_SECTION);
    }

    /// Show what a search found.
    pub fn open_search(&mut self)
        requires
            old(self).wf(),
        ensures
            *final(self) == (Screen { section: SEARCH_SECTION, kind: NO_PAGE, ..*old(self) }),
            final(self).wf(),
    {
        self.section = SEARCH_SECTION;
        self.kind = NO_PAGE;
    }

    /// Open a page on top of the section.
    pub fn push_view(&mut self, kind: i32)
        ensures
            *final(self) == pushed(*old(self), kind),
            final(self).wf(),
    {
        if self.kind == NO_PAGE {
            self.return_section = self.section;
        }
        self.kind = kind;
        self.can_back = true;
    }

    /// Leave the page that is open.
    pub fn nav_back(&mut self)
        ensures
            *final(self) == backed(*old(self)),
            old(self).wf() ==> final(self).wf(),
    {
        if self.kind != NO_PAGE {
            self.kind = NO_PAGE;
            self.section = self.return_section;
            self.can_back = false;
        }
    }
}

/// The way back from a page leads to the section that it was opened from, also
/// where other pages were opened from it.
pub proof fn law_back_leads_home(v: Screen, first: i32, second: i32)
    requires
        v.kind == NO_PAGE,
        first != NO_PAGE,
        second != NO_PAGE,
    ensures
        backed(pushed(v, first)).section == v.section,
        backed(pushed(v, first)).kind == NO_PAGE,
        backed(pushed(pushed(v, first), second)) == backed(pushed(v, first)),
        backed(backed(pushed(v, first))) == backed(pushed(v, first)),
{
}

/// The ids of what the pages show.
pub struct PageIds {
    pub game: String,
    pub profile: String,
    pub group: String,
}

/// The id of what is on screen.
pub open spec fn shown_id(kind: i32, ids: PageIds) -> Seq<char> {
    if kind == GAME_PAGE {
        ids.game@
    } else if kind == PROFILE_PAGE {
        ids.profile@
    } else if kind == GROUP_PAGE {
        ids.group@
    } else {
        Seq::empty()
    }
}

/// The id of what is on screen, or nothing.
pub fn current_id(kind: i32, ids: &PageIds) -> (r: String)
    ensures
        r@ == shown_id(kind, *ids),
{
    if kind == GAME_PAGE {
        ids.game.clone()
    } else if kind == PROFILE_PAGE {
        ids.profile.clone()
    } else if kind == GROUP_PAGE {
        ids.group.clone()
    } else {
        String::new()
    }
}

/// The address of what is on screen.
pub open spec fn shown_url(kind: i32, ids: PageIds) -> Seq<char> {
    let id = shown_id(kind, ids);
    if id.len() == 0 {
        Seq::empty()
    } else if kind == GAME_PAGE {
        "https://www.roblox.com/games/"@ + id
    } else if kind == PROFILE_PAGE {
        "https://www.roblox.com/users/"@ + id + "/profile"@
    } else {
        "https://www.roblox.com/groups/"@ + id
    }
}

/// The address of what is on screen, or nothing.
pub fn current_url(kind: i32, ids: &PageIds) -> (r: String)
    ensures
        r@ == shown_url(kind, *ids),
{
    let id = current_id(kind, ids);
    if id.as_str().is_empty() {
        String::new()
    } else if kind == GAME_PAGE {
        cat2("https://www.roblox.com/games/", id.as_str())
    } else if kind == PROFILE_PAGE {
        cat3("https://www.roblox.com/users/", id.as_str(), "/profile")
    } else {
        cat2("https://www.roblox.com/groups/", id.as_str())
    }
}

/// A note that is shown for a moment. The number makes the same words count as
/// news.
pub struct Toast {
    pub text: String,
    pub nonce: i32,
}

impl Toast {
    pub fn show(&mut self, message: &str)
        ensures
            final(self).text@ == message@,
            final(self).nonce == old(self).nonce.wrapping_add(1),
    {
        self.text = message.to_owned();
        self.nonce = self.nonce.wrapping_add(1);
    }

    /// Say that something was copied.
    pub fn copied(&mut self, what: &str)
        ensures
            final(self).text@ == "Copied "@ + what@,
            final(self).nonce == old(self).nonce.wrapping_add(1),
    {
        self.show(cat2("Copied ", what).as_str());
    }

    /// Say that a text is copied. False where there is no text: then nothing is.
    pub fn copy(&mut self, text: &str, what: &str) -> (copy: bool)
        ensures
            copy == (text@.len() > 0),
            copy ==> final(self).text@ == "Copied "@ + what@ && final(self).nonce
                == old(self).nonce.wrapping_add(1),
            !copy ==> *final(self) == *old(self),
    {
        if text.is_empty() {
            return false;
        }
        self.copied(what);
        true
    }
}

/// Subscribe to a game that is open, or end it. False where no game is open.
pub fn toggle_notify(game: &mut GameDetailData, notify_games: &mut Vec<String>) -> (changed: bool)
    ensures
        changed == (old(game).universe_id@.len() > 0),
        *final(game) == (if changed {
            GameDetailData { notify: !old(game).notify, ..*old(game) }
        } else {
            *old(game)
        }),
        texts(final(notify_games)@) == (if !changed {
            texts(old(notify_games)@)
        } else if old(game).notify {
            without_text(texts(old(notify_games)@), old(game).universe_id@)
        } else {
            with_text(texts(old(notify_games)@), old(game).universe_id@)
        }),
{
    if game.universe_id.as_str().is_empty() {
        return false;
    }
    let on = !game.notify;
    game.notify = on;
    if on {
        add_text(notify_games, game.universe_id.as_str());
    } else {
        drop_text(notify_games, game.universe_id.as_str());
    }
    true
}

/// The first item of an id.
pub open spec fn item_at(items: Seq<DetailItem>, id: Seq<char>, i: int) -> Option<int>
    decreases items.len() - i,
{
    if i < 0 || i >= items.len() {
        None
    } else if items[i].id@ == id {
        Some(i)
    } else {
        item_at(items, id, i + 1)
    }
}

/// What is shown of a badge: its name, and its description or that it has none.
pub fn inspect_badge(badges: &Vec<DetailItem>, id: &str) -> (r: Option<(String, String)>)
    ensures
        match (r, item_at(badges@, id@, 0)) {
            (Some(shown), Some(i)) => shown.0@ == badges@[i].name@ && shown.1@ == (
            if badges@[i].subtitle@.len() == 0 {
                "No description."@
            } else {
                badges@[i].subtitle@
            }),
            (None, None) => true,
            _ => false,
        },
{
    let mut i: usize = 0;
    while i < badges.len()
        invariant
            i <= badges.len(),
            item_at(badges@, id@, 0) == item_at(badges@, id@, i as int),
        decreases badges.len() - i,
    {
        if same(badges[i].id.as_str(), id) {
            let text = if badges[i].subtitle.as_str().is_empty() {
                "No description.".to_owned()
            } else {
                badges[i].subtitle.clone()
            };
            return Some((badges[i].name.clone(), text));
        }
        i = i + 1;
    }
    None
}

/// The place and the universe that a shortcut is made for, where both can be
/// read.
pub fn shortcut_ids(game: &GameDetailData) -> (r: Option<(i64, i64)>)
    ensures
        r == (match (read_i64(game.root_place_id@), read_i64(game.universe_id@)) {
            (Some(p), Some(u)) => Some((p, u)),
            _ => None,
        }),
{
    match (parse_i64(game.root_place_id.as_str()), parse_i64(game.universe_id.as_str())) {
        (Some(p), Some(u)) => Some((p, u)),
        _ => None,
    }
}

/// What is said after a shortcut was made, or was not.
pub fn shortcut_status(result: &std::result::Result<String, String>) -> (r: String)
    ensures
        r@ == (match *result {
            Ok(path) => "Shortcut saved to "@ + path@,
            Err(e) => e@,
        }),
{
    match result {
        Ok(path) => cat2("Shortcut saved to ", path.as_str()),
        Err(e) => e.clone(),
    }
}

/// Whether an error means that the session is over. That is a state, not an
/// incident: it raises a banner that stays.
pub fn report(err: &Error) -> (expired: bool)
    ensures
        expired == (*err is Expired),
{
    match err {
        Error::Expired => true,
        _ => false,
    }
}

/// Which session, or which search, an answer belongs to.
#[derive(Debug, Clone, Copy, PartialEq, Eq, Structural)]
pub struct Generation {
    pub now: i64,
}

impl Generation {
    /// Begin another one.
    pub fn next(&mut self) -> (g: i64)
        ensures
            g == final(self).now,
            final(self).now == old(self).now.wrapping_add(1),
            final(self).now != old(self).now,
    {
        self.now = self.now.wrapping_add(1);
        self.now
    }

    /// Whether an answer asked for in generation `g` is still wanted.
    pub fn is_current(&self, g: i64) -> (r: bool)
        ensures
            r == (g == self.now),
    {
        g == self.now
    }
}

/// Going to a section shows that section, with no page on top and no way back, and
/// the first one that is shown is one of the sidebar.
pub proof fn law_sections_are_shown(v: Screen, section: i32)
    ensures
        navigated(v, section).section == section,
        navigated(v, section).kind == 0,
        !navigated(v, section).can_back,
        0 <= first_section(section) <= 5,
        0 <= section <= 5 ==> first_section(section) == section,
        section < 0 ==> first_section(section) == 0,
        section > 5 ==> first_section(section) == 5,
{
}

/// A page that is opened is shown on top of its section, and there is a way back.
pub proof fn law_pages_are_shown(v: Screen, kind: i32)
    ensures
        pushed(v, kind).kind == kind,
        pushed(v, kind).section == v.section,
        pushed(v, kind).can_back,
        v.kind == 0 ==> backed(v) == v,
        v.kind != 0 ==> backed(v).kind == 0 && !backed(v).can_back,
        SETTINGS_SECTION == 6,
        SEARCH_SECTION == 1,
        NO_PAGE == 0 && GAME_PAGE == 1 && PROFILE_PAGE == 2 && GROUP_PAGE == 3 && CLIENT_PAGE == 4,
{
}

/// What is on screen has its address on the website: a game, a person and a group
/// each below its own, and nothing else has one.
pub proof fn law_addresses_of_pages(ids: PageIds, kind: i32)
    ensures
        ids.game@.len() > 0 ==> shown_url(1, ids) == "https://www.roblox.com/games/"@ + ids.game@,
        ids.profile@.len() > 0 ==> shown_url(2, ids) == "https://www.roblox.com/users/"@
            + ids.profile@ + "/profile"@,
        ids.group@.len() > 0 ==> shown_url(3, ids) == "https://www.roblox.com/groups/"@
            + ids.group@,
        shown_id(1, ids) == ids.game@,
        shown_id(2, ids) == ids.profile@,
        shown_id(3, ids) == ids.group@,
        kind < 1 || kind > 3 ==> shown_id(kind, ids).len() == 0 && shown_url(kind, ids).len() == 0,
{
}

/// A badge is found by its id, the first of several.
pub proof fn law_items_are_found_by_id(items: Seq<DetailItem>, id: Seq<char>, i: int, k: int)
    requires
        0 <= i <= k <= items.len(),
        forall|j: int| i <= j < k ==> (#[trigger] items[j]).id@ != id,
        k < items.len() ==> items[k].id@ == id,
    ensures
        item_at(items, id, i) == (if k < items.len() {
            Some(k)
        } else {
            None
        }),
    decreases k - i,
{
    if i < k {
        assert(items[i].id@ != id);
        law_items_are_found_by_id(items, id, i + 1, k);
    }
}

} // verus!
