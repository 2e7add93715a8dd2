//! What the user chose, and the settings screen that shows it.

use crate::desktop::adapters::{item_is, DetailItem};
use crate::desktop::friends::FriendInput;
use crate::desktop::lists::{drop_text, without_text};
use crate::desktop::nav::Toast;
use crate::desktop::shortcut::Entry;
use crate::desktop::updater::Status;
use crate::number::{decimal, decimal_int, int_text, nat_text, parse_i64, read_i64};
use crate::text::{cat2, cat3, same, texts};
use vstd::prelude::*;

verus! {

/// Somebody who has signed in here.
pub struct Account {
    pub id: String,
    pub username: String,
    pub display_name: String,
}

/// What the user chose.
pub struct Preferences {
    pub dark: bool,
    pub notify_friend_requests: bool,
    pub notify_friends: Vec<String>,
    pub notify_games: Vec<String>,
    pub macros_enabled: bool,
    pub macros_only_when_focused: bool,
    pub panic_key: String,
    /// The zoom, as the bits of a number.
    pub ui_scale: u32,
    pub startup_section: i32,
    pub presence_refresh_secs: u32,
    pub confirm_destructive: bool,
    pub server_page_size: u32,
    pub request_timeout_secs: u32,
    pub image_cache_size: u32,
    pub verbose_logging: bool,
    pub auto_update: bool,
    pub track_friend_playtime: bool,
}

/// How many servers a page can hold.
pub const PAGE_SIZES: [u32; 4] = [10, 25, 50, 100];

/// How long a request can be given, in seconds.
pub const TIMEOUTS: [u32; 4] = [10, 20, 45, 90];

/// How many pictures can be kept.
pub const CACHE_SIZES: [u32; 4] = [100, 400, 800, 2000];

/// The place of a choice among four: the nearest there is.
pub open spec fn choice_at(choice: i32) -> int {
    if choice < 0 {
        0
    } else if choice > 3 {
        3
    } else {
        choice as int
    }
}

fn choice_index(choice: i32) -> (i: usize)
    ensures
        i == choice_at(choice),
        i < 4,
{
    if choice < 0 {
        0
    } else if choice > 3 {
        3
    } else {
        choice as usize
    }
}

/// Which of four a value is: the last where it is none of them.
pub open spec fn choice_of(table: Seq<u32>, value: u32) -> i32 {
    if value == table[0] {
        0
    } else if value == table[1] {
        1
    } else if value == table[2] {
        2
    } else {
        3
    }
}

fn choice_in(table: &[u32; 4], value: u32) -> (r: i32)
    ensures
        r == choice_of(table@, value),
{
    if value == table[0] {
        0
    } else if value == table[1] {
        1
    } else if value == table[2] {
        2
    } else {
        3
    }
}

/// What was chosen is what is shown as chosen.
pub proof fn law_choices_are_shown_as_made(choice: i32)
    ensures
        choice_of(PAGE_SIZES@, PAGE_SIZES@[choice_at(choice)]) == choice_at(choice),
        choice_of(TIMEOUTS@, TIMEOUTS@[choice_at(choice)]) == choice_at(choice),
        choice_of(CACHE_SIZES@, CACHE_SIZES@[choice_at(choice)]) == choice_at(choice),
{
}

/// A change made on the settings screen.
#[derive(Debug)]
pub enum Choice {
    Dark(bool),
    NotifyRequests(bool),
    UnsubFriend(String),
    UnsubGame(String),
    ServerPage(i32),
    Timeout(i32),
    Cache(i32),
    VerboseLogging(bool),
    AutoUpdate(bool),
    MacrosEnabled(bool),
    OnlyWhenFocused(bool),
    StartupSection(i32),
    PresenceSecs(i32),
    ConfirmDestructive(bool),
    UiScale(u32),
}

/// The preferences after a change.
pub open spec fn chosen(before: Preferences, after: Preferences, c: Choice) -> bool {
    match c {
        Choice::Dark(v) => after == (Preferences { dark: v, ..before }),
        Choice::NotifyRequests(v) => after == (Preferences { notify_friend_requests: v, ..before }),
        Choice::UnsubFriend(id) => {
            &&& texts(after.notify_friends@) == without_text(texts(before.notify_friends@), id@)
            &&& after == (Preferences { notify_friends: after.notify_friends, ..before })
        },
        Choice::UnsubGame(id) => {
            &&& texts(after.notify_games@) == without_text(texts(before.notify_games@), id@)
            &&& after == (Preferences { notify_games: after.notify_games, ..before })
        },
        Choice::ServerPage(v) => after == (Preferences {
            server_page_size: PAGE_SIZES@[choice_at(v)],
            ..before
        }),
        Choice::Timeout(v) => after == (Preferences {
            request_timeout_secs: TIMEOUTS@[choice_at(v)],
            ..before
        }),
        Choice::Cache(v) => after == (Preferences {
            image_cache_size: CACHE_SIZES@[choice_at(v)],
            ..before
        }),
        Choice::VerboseLogging(v) => after == (Preferences { verbose_logging: v, ..before }),
        Choice::AutoUpdate(v) => after == (Preferences { auto_update: v, ..before }),
        Choice::MacrosEnabled(v) => after == (Preferences { macros_enabled: v, ..before }),
        Choice::OnlyWhenFocused(v) => after == (Preferences {
            macros_only_when_focused: v,
            ..before
        }),
        Choice::StartupSection(v) => after == (Preferences { startup_section: v, ..before }),
        Choice::PresenceSecs(v) => after == (Preferences {
            presence_refresh_secs: if v < 0 {
                0
            } else {
                v as u32
            },
            ..before
        }),
        Choice::ConfirmDestructive(v) => after == (Preferences {
            confirm_destructive: v,
            ..before
        }),
        Choice::UiScale(v) => after == (Preferences { ui_scale: v, ..before }),
    }
}

impl Preferences {
    /// Make a change. Nothing but what it is about changes.
    pub fn set(&mut self, c: &Choice)
        ensures
            chosen(*old(self), *final(self), *c),
    {
        match c {
            Choice::Dark(v) => {
                self.dark = *v;
            },
            Choice::NotifyRequests(v) => {
                self.notify_friend_requests = *v;
            },
            Choice::UnsubFriend(id) => {
                drop_text(&mut self.notify_friends, id.as_str());
            },
            Choice::UnsubGame(id) => {
                drop_text(&mut self.notify_games, id.as_str());
            },
            Choice::ServerPage(v) => {
                self.server_page_size = PAGE_SIZES[choice_index(*v)];
            },
            Choice::Timeout(v) => {
                self.request_timeout_secs = TIMEOUTS[choice_index(*v)];
            },
            Choice::Cache(v) => {
                self.image_cache_size = CACHE_SIZES[choice_index(*v)];
            },
            Choice::VerboseLogging(v) => {
                self.verbose_logging = *v;
            },
            Choice::AutoUpdate(v) => {
                self.auto_update = *v;
            },
            Choice::MacrosEnabled(v) => {
                self.macros_enabled = *v;
            },
            Choice::OnlyWhenFocused(v) => {
                self.macros_only_when_focused = *v;
            },
            Choice::StartupSection(v) => {
                self.startup_section = *v;
            },
            Choice::PresenceSecs(v) => {
                self.presence_refresh_secs = if *v < 0 {
                    0
                } else {
                    *v as u32
                };
            },
            Choice::ConfirmDestructive(v) => {
                self.confirm_destructive = *v;
            },
            Choice::UiScale(v) => {
                self.ui_scale = *v;
            },
        }
    }
}

/// A line of the list of accounts.
pub struct AccountRow {
    pub id: String,
    pub name: String,
    pub username: String,
    pub active: bool,
}

pub open spec fn account_shows(r: AccountRow, a: Account, active: Option<String>) -> bool {
    &&& r.id@ == a.id@
    &&& r.name@ == a.display_name@
    &&& r.username@ == a.username@
    &&& r.active == (match active {
        Some(id) => id@ == a.id@,
        None => false,
    })
}

/// The settings screen.
pub struct SettingsView {
    pub accounts: Vec<AccountRow>,
    pub shortcuts: Vec<DetailItem>,
    pub notify_requests: bool,
    pub macros_enabled: bool,
    pub only_when_focused: bool,
    pub panic_key: String,
    pub ui_scale: u32,
    pub startup_section: i32,
    pub presence_secs: i32,
    pub confirm_destructive: bool,
    pub server_page: i32,
    pub timeout_choice: i32,
    pub cache_choice: i32,
    pub verbose_logging: bool,
    pub auto_update: bool,
    pub cache_summary: String,
    pub notify_friends: Vec<DetailItem>,
    pub notify_games: Vec<DetailItem>,
}

/// The first friend whose number is written so.
pub open spec fn friend_written(roster: Seq<FriendInput>, id: Seq<char>) -> Option<FriendInput>
    decreases roster.len(),
{
    if roster.len() == 0 {
        None
    } else if decimal_int(roster[0].id as int) == id {
        Some(roster[0])
    } else {
        friend_written(roster.skip(1), id)
    }
}

/// The name of somebody who is watched, or their number.
pub open spec fn watched_name(roster: Seq<FriendInput>, id: Seq<char>) -> Seq<char> {
    match friend_written(roster, id) {
        Some(f) => f.name@,
        None => "User "@ + id,
    }
}

fn name_watched(roster: &Vec<FriendInput>, id: &str) -> (r: String)
    ensures
        r@ == watched_name(roster@, id@),
{
    let mut i: usize = 0;
    assert(roster@.skip(0) =~= roster@);
    while i < roster.len()
        invariant
            i <= roster.len(),
            friend_written(roster@, id@) == friend_written(roster@.skip(i as int), id@),
        decreases roster.len() - i,
    {
        assert(roster@.skip(i as int)[0] == roster@[i as int]);
        assert(roster@.skip(i as int).skip(1) =~= roster@.skip(i as int + 1));
        if same(int_text(roster[i].id).as_str(), id) {
            return roster[i].name.clone();
        }
        i = i + 1;
    }
    cat2("User ", id)
}

/// The screen shows these.
pub open spec fn settings_show(
    v: SettingsView,
    p: Preferences,
    accounts: Seq<Account>,
    active: Option<String>,
    shortcuts: Seq<Entry>,
    roster: Seq<FriendInput>,
    cached: nat,
) -> bool {
    &&& v.accounts.len() == accounts.len()
    &&& forall|i: int|
        0 <= i < accounts.len() ==> account_shows(#[trigger] v.accounts@[i], accounts[i], active)
    &&& v.shortcuts.len() == shortcuts.len()
    &&& forall|i: int|
        0 <= i < shortcuts.len() ==> item_is(
            #[trigger] v.shortcuts@[i],
            decimal_int(shortcuts[i].place_id as int),
            shortcuts[i].name@,
            Seq::empty(),
            0,
        )
    &&& v.notify_requests == p.notify_friend_requests
    &&& v.macros_enabled == p.macros_enabled
    &&& v.only_when_focused == p.macros_only_when_focused
    &&& v.panic_key@ == p.panic_key@
    &&& v.ui_scale == p.ui_scale
    &&& v.startup_section == p.startup_section
    &&& v.presence_secs == p.presence_refresh_secs as i32
    &&& v.confirm_destructive == p.confirm_destructive
    &&& v.verbose_logging == p.verbose_logging
    &&& v.auto_update == p.auto_update
    &&& v.server_page == choice_of(PAGE_SIZES@, p.server_page_size)
    &&& v.timeout_choice == choice_of(TIMEOUTS@, p.request_timeout_secs)
    &&& v.cache_choice == choice_of(CACHE_SIZES@, p.image_cache_size)
    &&& v.cache_summary@ == decimal(cached) + " names remembered, so they never need re-fetching"@
    &&& v.notify_friends.len() == p.notify_friends.len()
    &&& forall|i: int|
        0 <= i < p.notify_friends.len() ==> item_is(
            #[trigger] v.notify_friends@[i],
            p.notify_friends@[i]@,
            watched_name(roster, p.notify_friends@[i]@),
            Seq::empty(),
            8,
        )
    &&& v.notify_games.len() == p.notify_games.len()
    &&& forall|i: int|
        0 <= i < p.notify_games.len() ==> item_is(
            #[trigger] v.notify_games@[i],
            p.notify_games@[i]@,
            "Game "@ + p.notify_games@[i]@,
            Seq::empty(),
            1,
        )
}

fn plain_item(id: String, name: String, kind: i32) -> (r: DetailItem)
    ensures
        item_is(r, id@, name@, Seq::empty(), kind),
{
    let subtitle = String::new();
    assert(subtitle@ =~= Seq::<char>::empty());
    DetailItem { id, name, subtitle, kind }
}

fn account_rows(accounts: &Vec<Account>, active: &Option<String>) -> (rows: Vec<AccountRow>)
    ensures
        rows.len() == accounts.len(),
        forall|i: int|
            0 <= i < accounts.len() ==> account_shows(#[trigger] rows@[i], accounts@[i], *active),
{
    let mut rows: Vec<AccountRow> = Vec::new();
    let mut i: usize = 0;
    while i < accounts.len()
        invariant
            i <= accounts.len(),
            rows.len() == i,
            forall|k: int| 0 <= k < i ==> account_shows(#[trigger] rows@[k], accounts@[k], *active),
        decreases accounts.len() - i,
    {
        let a = &accounts[i];
        let is_active = match active {
            Some(id) => same(id.as_str(), a.id.as_str()),
            None => false,
        };
        rows.push(
            AccountRow {
                id: a.id.clone(),
                name: a.display_name.clone(),
                username: a.username.clone(),
                active: is_active,
            },
        );
        i = i + 1;
    }
    rows
}

fn shortcut_rows(shortcuts: &Vec<Entry>) -> (rows: Vec<DetailItem>)
    ensures
        rows.len() == shortcuts.len(),
        forall|i: int|
            0 <= i < shortcuts.len() ==> item_is(
                #[trigger] rows@[i],
                decimal_int(shortcuts@[i].place_id as int),
                shortcuts@[i].name@,
                Seq::empty(),
                0,
            ),
{
    let mut rows: Vec<DetailItem> = Vec::new();
    let mut i: usize = 0;
    while i < shortcuts.len()
        invariant
            i <= shortcuts.len(),
            rows.len() == i,
            forall|k: int|
                0 <= k < i ==> item_is(
                    #[trigger] rows@[k],
                    decimal_int(shortcuts@[k].place_id as int),
                    shortcuts@[k].name@,
                    Seq::empty(),
                    0,
                ),
        decreases shortcuts.len() - i,
    {
        rows.push(plain_item(int_text(shortcuts[i].place_id), shortcuts[i].name.clone(), 0));
        i = i + 1;
    }
    rows
}

fn friend_rows(ids: &Vec<String>, roster: &Vec<FriendInput>) -> (rows: Vec<DetailItem>)
    ensures
        rows.len() == ids.len(),
        forall|i: int|
            0 <= i < ids.len() ==> item_is(
                #[trigger] rows@[i],
                ids@[i]@,
                watched_name(roster@, ids@[i]@),
                Seq::empty(),
                8,
            ),
{
    let mut rows: Vec<DetailItem> = Vec::new();
    let mut i: usize = 0;
    while i < ids.len()
        invariant
            i <= ids.len(),
            rows.len() == i,
            forall|k: int|
                0 <= k < i ==> item_is(
                    #[trigger] rows@[k],
                    ids@[k]@,
                    watched_name(roster@, ids@[k]@),
                    Seq::empty(),
                    8,
                ),
        decreases ids.len() - i,
    {
        rows.push(plain_item(ids[i].clone(), name_watched(roster, ids[i].as_str()), 8));
        i = i + 1;
    }
    rows
}

fn game_rows(ids: &Vec<String>) -> (rows: Vec<DetailItem>)
    ensures
        rows.len() == ids.len(),
        forall|i: int|
            0 <= i < ids.len() ==> item_is(
                #[trigger] rows@[i],
                ids@[i]@,
                "Game "@ + ids@[i]@,
                Seq::empty(),
                1,
            ),
{
    let mut rows: Vec<DetailItem> = Vec::new();
    let mut i: usize = 0;
    while i < ids.len()
        invariant
            i <= ids.len(),
            rows.len() == i,
            forall|k: int|
                0 <= k < i ==> item_is(
                    #[trigger] rows@[k],
                    ids@[k]@,
                    "Game "@ + ids@[k]@,
                    Seq::empty(),
                    1,
                ),
        decreases ids.len() - i,
    {
        rows.push(plain_item(ids[i].clone(), cat2("Game ", ids[i].as_str()), 1));
        i = i + 1;
    }
    rows
}

/// The settings screen. `cached` is how many names are remembered.
pub fn render_settings(
    p: &Preferences,
    accounts: &Vec<Account>,
    active: &Option<String>,
    shortcuts: &Vec<Entry>,
    roster: &Vec<FriendInput>,
    cached: usize,
) -> (v: SettingsView)
    ensures
        settings_show(
            v,
            *p,
            accounts@,
            *active,
            shortcuts@,
            roster@,
            cached as nat,
        ),
{
    SettingsView {
        accounts: account_rows(accounts, active),
        shortcuts: shortcut_rows(shortcuts),
        notify_requests: p.notify_friend_requests,
        macros_enabled: p.macros_enabled,
        only_when_focused: p.macros_only_when_focused,
        panic_key: p.panic_key.clone(),
        ui_scale: p.ui_scale,
        startup_section: p.startup_section,
        presence_secs: p.presence_refresh_secs as i32,
        confirm_destructive: p.confirm_destructive,
        verbose_logging: p.verbose_logging,
        auto_update: p.auto_update,
        server_page: choice_in(&PAGE_SIZES, p.server_page_size),
        timeout_choice: choice_in(&TIMEOUTS, p.request_timeout_secs),
        cache_choice: choice_in(&CACHE_SIZES, p.image_cache_size),
        cache_summary: cat2(
            nat_text(cached as u64).as_str(),
            " names remembered, so they never need re-fetching",
        ),
        notify_friends: friend_rows(&p.notify_friends, roster),
        notify_games: game_rows(&p.notify_games),
    }
}

/// The numbers of the accounts, where they can be read.
pub open spec fn account_numbers(accounts: Seq<Account>) -> Seq<i64>
    decreases accounts.len(),
{
    if accounts.len() == 0 {
        Seq::empty()
    } else {
        let before = account_numbers(accounts.drop_last());
        match read_i64(accounts.last().id@) {
            Some(n) => before.push(n),
            None => before,
        }
    }
}

/// The numbers of the accounts, for their pictures. What the file holds goes stale
/// as soon as somebody changes their avatar.
pub fn account_ids(accounts: &Vec<Account>) -> (ids: Vec<i64>)
    ensures
        ids@ == account_numbers(accounts@),
{
    let mut ids: Vec<i64> = Vec::new();
    let mut i: usize = 0;
    assert(accounts@.take(0) =~= Seq::<Account>::empty());
    while i < accounts.len()
        invariant
            i <= accounts.len(),
            ids@ == account_numbers(accounts@.take(i as int)),
        decreases accounts.len() - i,
    {
        assert(accounts@.take(i as int + 1).drop_last() =~= accounts@.take(i as int));
        assert(accounts@.take(i as int + 1).last() == accounts@[i as int]);
        match parse_i64(accounts[i].id.as_str()) {
            Some(n) => {
                ids.push(n);
            },
            None => {},
        }
        i = i + 1;
    }
    assert(accounts@.take(accounts@.len() as int) =~= accounts@);
    ids
}

/// Switch to an account whose cookie is stored. Without one nothing changes.
pub fn switch_account(active: &mut Option<String>, id: &str, cookie: Option<String>) -> (r: Option<
    String,
>)
    ensures
        r == cookie,
        cookie is Some ==> (*final(active) matches Some(a) && a@ == id@),
        cookie is None ==> *final(active) == *old(active),
{
    match cookie {
        Some(c) => {
            *active = Some(id.to_owned());
            Some(c)
        },
        None => None,
    }
}

/// The shortcuts of a place, by their place in the list.
pub open spec fn shortcuts_of(list: Seq<Entry>, place: i64) -> Seq<usize>
    decreases list.len(),
{
    if list.len() == 0 {
        Seq::empty()
    } else {
        let before = shortcuts_of(list.drop_last(), place);
        if list.last().place_id == place {
            before.push((list.len() - 1) as usize)
        } else {
            before
        }
    }
}

/// The shortcuts that are removed with a place.
pub fn remove_shortcut(list: &Vec<Entry>, id: &str) -> (r: Vec<usize>)
    ensures
        r@ == (match read_i64(id@) {
            Some(place) => shortcuts_of(list@, place),
            None => Seq::empty(),
        }),
{
    let mut r: Vec<usize> = Vec::new();
    match parse_i64(id) {
        Some(place) => {
            let mut i: usize = 0;
            assert(list@.take(0) =~= Seq::<Entry>::empty());
            while i < list.len()
                invariant
                    i <= list.len(),
                    r@ == shortcuts_of(list@.take(i as int), place),
                decreases list.len() - i,
            {
                assert(list@.take(i as int + 1).drop_last() =~= list@.take(i as int));
                assert(list@.take(i as int + 1).last() == list@[i as int]);
                if list[i].place_id == place {
                    r.push(i);
                }
                i = i + 1;
            }
            assert(list@.take(list@.len() as int) =~= list@);
        },
        None => {},
    }
    r
}

/// The search for an update, as it is shown.
pub struct UpdateCheck {
    pub checking: bool,
    pub status: String,
}

impl UpdateCheck {
    pub fn new() -> (u: UpdateCheck)
        ensures
            !u.checking,
            u.status@.len() == 0,
    {
        UpdateCheck { checking: false, status: String::new() }
    }

    pub fn begin(&mut self)
        ensures
            final(self).checking,
            final(self).status@ == "Checking…"@,
    {
        self.checking = true;
        self.status = "Checking…".to_owned();
    }

    /// What there is was found out. An update that was found is installed: gives
    /// where it is downloaded from.
    pub fn checked(&mut self, found: &Status) -> (url: Option<String>)
        ensures
            match *found {
                Status::Available { version, url: from } => {
                    &&& (url matches Some(u) && u@ == from@)
                    &&& final(self).status@ == "Downloading "@ + version@ + "…"@
                    &&& final(self).checking == old(self).checking
                },
                _ => {
                    &&& url is None
                    &&& !final(self).checking
                    &&& final(self).status@ == found.words()
                },
            },
    {
        match found {
            Status::Available { version, url } => {
                self.status = cat3("Downloading ", version.as_str(), "…");
                Some(url.clone())
            },
            _ => {
                self.checking = false;
                self.status = found.message();
                None
            },
        }
    }

    /// The update was installed, or was not.
    pub fn installed(
        &mut self,
        toast: &mut Toast,
        version: &str,
        result: &std::result::Result<(), String>,
    )
        ensures
            !final(self).checking,
            match *result {
                Ok(_) => {
                    &&& final(self).status@ == "Version "@ + version@
                        + " installed. Restart to use it."@
                    &&& final(toast).text@ == "Update installed — restart to apply"@
                    &&& final(toast).nonce == old(toast).nonce.wrapping_add(1)
                },
                Err(e) => {
                    &&& final(self).status@ == "Could not install: "@ + e@
                    &&& *final(toast) == *old(toast)
                },
            },
    {
        self.checking = false;
        match result {
            Ok(_) => {
                self.status = cat3("Version ", version, " installed. Restart to use it.");
                toast.show("Update installed — restart to apply");
            },
            Err(e) => {
                self.status = cat2("Could not install: ", e.as_str());
            },
        }
    }

    /// An update was installed unasked. The running program is not touched: the
    /// new one takes over at the next start.
    pub fn auto_updated(&mut self, toast: &mut Toast, version: &str)
        ensures
            final(self).checking == old(self).checking,
            final(self).status@ == "Version "@ + version@ + " installed. Restart to use it."@,
            final(toast).text@ == "Updated to "@ + version@ + " — restart to apply"@,
            final(toast).nonce == old(toast).nonce.wrapping_add(1),
    {
        self.status = cat3("Version ", version, " installed. Restart to use it.");
        toast.show(cat3("Updated to ", version, " — restart to apply").as_str());
    }
}

/// The choices that are offered, and that one past the ends is the nearest.
pub proof fn law_what_can_be_chosen(choice: i32)
    ensures
        PAGE_SIZES@ == seq![10u32, 25u32, 50u32, 100u32],
        TIMEOUTS@ == seq![10u32, 20u32, 45u32, 90u32],
        CACHE_SIZES@ == seq![100u32, 400u32, 800u32, 2000u32],
        0 <= choice <= 3 ==> choice_at(choice) == choice,
        choice < 0 ==> choice_at(choice) == 0,
        choice > 3 ==> choice_at(choice) == 3,
{
    assert(PAGE_SIZES@ =~= seq![10u32, 25u32, 50u32, 100u32]);
    assert(TIMEOUTS@ =~= seq![10u32, 20u32, 45u32, 90u32]);
    assert(CACHE_SIZES@ =~= seq![100u32, 400u32, 800u32, 2000u32]);
}

/// A choice changes the preference that it is about, to what was chosen.
pub proof fn law_choices_are_kept(before: Preferences, after: Preferences, c: Choice)
    requires
        chosen(before, after, c),
    ensures
        match c {
            Choice::Dark(v) => after.dark == v,
            Choice::NotifyRequests(v) => after.notify_friend_requests == v,
            Choice::UnsubFriend(id) => texts(after.notify_friends@) == without_text(
                texts(before.notify_friends@),
                id@,
            ),
            Choice::UnsubGame(id) => texts(after.notify_games@) == without_text(
                texts(before.notify_games@),
                id@,
            ),
            Choice::ServerPage(v) => after.server_page_size == PAGE_SIZES@[choice_at(v)],
            Choice::Timeout(v) => after.request_timeout_secs == TIMEOUTS@[choice_at(v)],
            Choice::Cache(v) => after.image_cache_size == CACHE_SIZES@[choice_at(v)],
            Choice::VerboseLogging(v) => after.verbose_logging == v,
            Choice::AutoUpdate(v) => after.auto_update == v,
            Choice::MacrosEnabled(v) => after.macros_enabled == v,
            Choice::OnlyWhenFocused(v) => after.macros_only_when_focused == v,
            Choice::StartupSection(v) => after.startup_section == v,
            Choice::PresenceSecs(v) => v >= 0 ==> after.presence_refresh_secs == v,
            Choice::ConfirmDestructive(v) => after.confirm_destructive == v,
            Choice::UiScale(v) => after.ui_scale == v,
        },
        !(c is Dark) ==> after.dark == before.dark,
        !(c is NotifyRequests) ==> after.notify_friend_requests == before.notify_friend_requests,
        !(c is UnsubFriend) ==> after.notify_friends == before.notify_friends,
        !(c is UnsubGame) ==> after.notify_games == before.notify_games,
        !(c is ServerPage) ==> after.server_page_size == before.server_page_size,
        !(c is Timeout) ==> after.request_timeout_secs == before.request_timeout_secs,
        !(c is Cache) ==> after.image_cache_size == before.image_cache_size,
        !(c is VerboseLogging) ==> after.verbose_logging == before.verbose_logging,
        !(c is AutoUpdate) ==> after.auto_update == before.auto_update,
        !(c is MacrosEnabled) ==> after.macros_enabled == before.macros_enabled,
        !(c is OnlyWhenFocused) ==> after.macros_only_when_focused
            == before.macros_only_when_focused,
        !(c is StartupSection) ==> after.startup_section == before.startup_section,
        !(c is PresenceSecs) ==> after.presence_refresh_secs == before.presence_refresh_secs,
        !(c is ConfirmDestructive) ==> after.confirm_destructive == before.confirm_destructive,
        !(c is UiScale) ==> after.ui_scale == before.ui_scale,
        after.panic_key == before.panic_key,
        after.track_friend_playtime == before.track_friend_playtime,
{
}

/// The line of an account says who it is, and whether it is the one in use.
pub proof fn law_what_the_line_of_an_account_says(
    r: AccountRow,
    a: Account,
    active: Option<String>,
)
    requires
        account_shows(r, a, active),
    ensures
        r.id@ == a.id@,
        r.name@ == a.display_name@,
        r.username@ == a.username@,
        r.active <==> (active matches Some(id) && id@ == a.id@),
{
}

/// Somebody who is watched is shown by name where they are a friend, and by number
/// where they are none any more.
pub proof fn law_who_is_watched(roster: Seq<FriendInput>, id: Seq<char>, k: int)
    requires
        0 <= k <= roster.len(),
        forall|j: int| 0 <= j < k ==> decimal_int((#[trigger] roster[j]).id as int) != id,
        k < roster.len() ==> decimal_int(roster[k].id as int) == id,
    ensures
        watched_name(roster, id) == (if k < roster.len() {
            roster[k].name@
        } else {
            "User "@ + id
        }),
    decreases k,
{
    if k > 0 {
        assert(decimal_int(roster[0].id as int) != id);
        assert forall|j: int| 0 <= j < k - 1 implies decimal_int(
            (#[trigger] roster.skip(1)[j]).id as int,
        ) != id by {
            assert(roster.skip(1)[j] == roster[j + 1]);
        }
        if k < roster.len() {
            assert(roster.skip(1)[k - 1] == roster[k]);
        }
        law_who_is_watched(roster.skip(1), id, k - 1);
    }
}

/// The screen shows what was chosen.
pub proof fn law_the_screen_shows_what_was_chosen(
    v: SettingsView,
    p: Preferences,
    accounts: Seq<Account>,
    active: Option<String>,
    shortcuts: Seq<Entry>,
    roster: Seq<FriendInput>,
    cached: nat,
)
    requires
        settings_show(v, p, accounts, active, shortcuts, roster, cached),
    ensures
        v.notify_requests == p.notify_friend_requests,
        v.macros_enabled == p.macros_enabled,
        v.only_when_focused == p.macros_only_when_focused,
        v.panic_key@ == p.panic_key@,
        v.ui_scale == p.ui_scale,
        v.startup_section == p.startup_section,
        p.presence_refresh_secs <= i32::MAX ==> v.presence_secs == p.presence_refresh_secs,
        v.confirm_destructive == p.confirm_destructive,
        v.verbose_logging == p.verbose_logging,
        v.auto_update == p.auto_update,
        forall|i: int|
            0 <= i < 4 && p.server_page_size == #[trigger] PAGE_SIZES@[i] ==> v.server_page == i,
        forall|i: int|
            0 <= i < 4 && p.request_timeout_secs == #[trigger] TIMEOUTS@[i] ==> v.timeout_choice
                == i,
        forall|i: int|
            0 <= i < 4 && p.image_cache_size == #[trigger] CACHE_SIZES@[i] ==> v.cache_choice == i,
        v.cache_summary@ == decimal(cached)
            + " names remembered, so they never need re-fetching"@,
        v.accounts.len() == accounts.len(),
        v.shortcuts.len() == shortcuts.len(),
        forall|i: int|
            0 <= i < shortcuts.len() ==> (#[trigger] v.shortcuts@[i]).id@ == decimal_int(
                shortcuts[i].place_id as int,
            ) && v.shortcuts@[i].name@ == shortcuts[i].name@,
        forall|i: int|
            0 <= i < p.notify_games.len() ==> (#[trigger] v.notify_games@[i]).id@
                == p.notify_games@[i]@ && v.notify_games@[i].name@ == "Game "@
                + p.notify_games@[i]@,
        forall|i: int|
            0 <= i < p.notify_friends.len() ==> (#[trigger] v.notify_friends@[i]).id@
                == p.notify_friends@[i]@ && v.notify_friends@[i].name@ == watched_name(
                roster,
                p.notify_friends@[i]@,
            ),
{
}

/// The pictures of accounts are asked for by those numbers that can be read.
pub proof fn law_numbers_of_accounts(accounts: Seq<Account>, a: Account)
    ensures
        account_numbers(Seq::empty()).len() == 0,
        account_numbers(accounts.push(a)) == (match read_i64(a.id@) {
            Some(n) => account_numbers(accounts).push(n),
            None => account_numbers(accounts),
        }),
{
    assert(accounts.push(a).drop_last() =~= accounts);
}

/// The shortcuts of a place are all those for it, and no other.
pub proof fn law_shortcuts_of_a_place(list: Seq<Entry>, e: Entry, place: i64)
    requires
        list.len() < usize::MAX,
    ensures
        shortcuts_of(Seq::empty(), place).len() == 0,
        shortcuts_of(list.push(e), place) == (if e.place_id == place {
            shortcuts_of(list, place).push(list.len() as usize)
        } else {
            shortcuts_of(list, place)
        }),
{
    assert(list.push(e).drop_last() =~= list);
}

} // verus!
