//! Friends, presence, and the social write endpoints.
//!
//! The important rule: a partially fetched list is never treated as complete. A
//! throttled page in the middle of a walk is routine, and people must not
//! disappear because of it.

use crate::number::{decimal, decimal_int, int_text, nat_text};
use crate::roblox::games::{join_ids, joined};
use crate::roblox::models::User;
use crate::roblox::{allowed_limit, is_page_limit, page_limit};
use crate::text::{cat2, cat3, cat4, opt_text, text_or_empty, or_empty};
use vstd::prelude::*;
use vstd::string::*;

verus! {

pub const FRIENDS: &'static str = "https://friends.roblox.com/v1";

pub const PRESENCE: &'static str = "https://presence.roblox.com/v1";

/// The most ids one presence request may carry.
pub const PRESENCE_BATCH: usize = 100;

/// No walk collects more friends than this.
pub const FRIENDS_CAP: usize = 5_000;

/// One page of the friends listing.
#[derive(Debug, Default)]
pub struct FindPage {
    pub page_items: Vec<FindItem>,
    pub next_cursor: Option<String>,
}

#[derive(Debug, Clone, Copy)]
pub struct FindItem {
    pub id: i64,
}

/// A friends list, and whether all of it was fetched.
#[derive(Debug, Default)]
pub struct FriendList {
    pub ids: Vec<i64>,
    /// False when pagination was cut short. An incomplete list must not be kept
    /// as authoritative.
    pub complete: bool,
}

/// The walk over the pages of a friends list.
#[derive(Debug, Default)]
pub struct FriendWalk {
    pub ids: Vec<i64>,
    pub cursor: Option<String>,
    /// No page was refused, and the walk was not cut short.
    pub complete: bool,
    /// There is no further page to ask for.
    pub over: bool,
}

pub open spec fn item_ids(items: Seq<FindItem>) -> Seq<i64> {
    items.map_values(|i: FindItem| i.id)
}

/// The cursor names a further page.
pub open spec fn names_page(cursor: Option<String>) -> bool {
    match cursor {
        Some(c) => c@.len() > 0,
        None => false,
    }
}

/// What a page, or its refusal, makes of a walk.
pub open spec fn walked(before: FriendWalk, page: Option<FindPage>, after: FriendWalk) -> bool {
    match page {
        None => {
            &&& after.ids@ == before.ids@
            &&& after.over
            &&& !after.complete
        },
        Some(p) => {
            &&& after.ids@ == before.ids@ + item_ids(p.page_items@)
            &&& names_page(p.next_cursor) ==> opt_text(after.cursor) == opt_text(p.next_cursor)
            &&& after.over == (!names_page(p.next_cursor) || after.ids.len() >= FRIENDS_CAP)
            &&& after.complete == (before.complete && !(names_page(p.next_cursor)
                && after.ids.len() >= FRIENDS_CAP))
        },
    }
}

impl FriendWalk {
    pub fn new() -> (w: FriendWalk)
        ensures
            w.ids@ == Seq::<i64>::empty(),
            w.cursor is None,
            w.complete,
            !w.over,
    {
        FriendWalk { ids: Vec::new(), cursor: None, complete: true, over: false }
    }

    /// The request for the next page.
    pub open spec fn url_text(&self, user_id: i64) -> Seq<char> {
        let base = FRIENDS@ + "/users/"@ + decimal_int(user_id as int) + "/friends/find?limit=50"@;
        match self.cursor {
            Some(c) => base + "&cursor="@ + c@,
            None => base,
        }
    }

    /// The request for the next page.
    pub fn url(&self, user_id: i64) -> (url: String)
        ensures
            url@ == self.url_text(user_id),
            url@ == "https://friends.roblox.com/v1/users/"@ + decimal_int(user_id as int)
                + "/friends/find?limit=50"@ + (match self.cursor {
                Some(c) => "&cursor="@ + c@,
                None => Seq::empty(),
            }),
    {
        proof {
            law_addresses_of_a_user(user_id, "/friends/find?limit=50"@);
        }
        let base = cat4(FRIENDS, "/users/", int_text(user_id).as_str(), "/friends/find?limit=50");
        match &self.cursor {
            Some(c) => cat3(base.as_str(), "&cursor=", c.as_str()),
            None => base,
        }
    }

    /// Take in a page, or the news that it was refused.
    pub fn absorb(&mut self, page: Option<FindPage>)
        requires
            !old(self).over,
        ensures
            walked(*old(self), page, *final(self)),
    {
        match page {
            None => {
                self.complete = false;
                self.over = true;
            },
            Some(p) => {
                let ghost first = self.ids@;
                let mut i: usize = 0;
                assert(item_ids(p.page_items@.take(0)) =~= Seq::<i64>::empty());
                assert(first + Seq::<i64>::empty() =~= first);
                while i < p.page_items.len()
                    invariant
                        i <= p.page_items.len(),
                        self.ids@ == first + item_ids(p.page_items@.take(i as int)),
                        self.complete == old(self).complete,
                    decreases p.page_items.len() - i,
                {
                    let ghost mid = self.ids@;
                    self.ids.push(p.page_items[i].id);
                    assert(self.ids@ =~= first + item_ids(p.page_items@.take(i as int + 1)));
                    i = i + 1;
                }
                assert(p.page_items@.take(p.page_items@.len() as int) =~= p.page_items@);
                let more = match &p.next_cursor {
                    Some(c) => !c.as_str().is_empty(),
                    None => false,
                };
                if more {
                    self.cursor = p.next_cursor;
                    if self.ids.len() >= FRIENDS_CAP {
                        self.complete = false;
                        self.over = true;
                    } else {
                        self.over = false;
                    }
                } else {
                    self.over = true;
                }
            },
        }
    }

    /// Close the walk with the flat listing, where that was answered. It is
    /// shorter, but it heals the case where the very first page was refused.
    pub fn finish(self, flat: Option<&Vec<User>>) -> (list: FriendList)
        ensures
            list.complete == self.complete,
            list.ids@ == (match flat {
                Some(users) => with_users(self.ids@, users@),
                None => self.ids@,
            }),
    {
        let mut ids = self.ids;
        match flat {
            Some(users) => {
                let ghost first = ids@;
                let mut i: usize = 0;
                assert(users@.take(0) =~= Seq::<User>::empty());
                while i < users.len()
                    invariant
                        i <= users.len(),
                        ids@ == with_users(first, users@.take(i as int)),
                    decreases users.len() - i,
                {
                    let id: i64 = users[i].id;
                    assert(users@.take(i as int + 1).drop_last() =~= users@.take(i as int));
                    assert(users@.take(i as int + 1).last() == users@[i as int]);
                    if !holds(&ids, id) {
                        ids.push(id);
                    }
                    i = i + 1;
                }
                assert(users@.take(users@.len() as int) =~= users@);
            },
            None => {},
        }
        FriendList { ids, complete: self.complete }
    }
}

/// The ids on a run of pages, in order. A refused page has none.
pub open spec fn ids_on(pages: Seq<Option<FindPage>>) -> Seq<i64>
    decreases pages.len(),
{
    if pages.len() == 0 {
        Seq::empty()
    } else {
        match pages.last() {
            Some(p) => ids_on(pages.drop_last()) + item_ids(p.page_items@),
            None => ids_on(pages.drop_last()),
        }
    }
}

/// The states of a walk from its start: `states[i]` is what the first `i` pages made
/// of it, and a page is asked for only while it is not over.
pub open spec fn is_run(states: Seq<FriendWalk>, pages: Seq<Option<FindPage>>) -> bool {
    &&& states.len() == pages.len() + 1
    &&& states[0].ids@.len() == 0
    &&& states[0].cursor is None
    &&& states[0].complete
    &&& !states[0].over
    &&& forall|i: int|
        0 <= i < pages.len() ==> !(#[trigger] states[i]).over && walked(
            states[i],
            pages[i],
            states[i + 1],
        )
}

/// The walk has stopped with a further page to go, since it holds enough.
pub open spec fn is_cut_short(pages: Seq<Option<FindPage>>) -> bool {
    &&& pages.len() > 0
    &&& pages.last() matches Some(p) && names_page(p.next_cursor)
    &&& ids_on(pages).len() >= FRIENDS_CAP
}

/// After any run of pages the ids are those of the pages, in order; the list is
/// complete exactly where no page was refused and the walk was not cut short; and
/// each page but the first is asked for with the cursor of the one before.
pub proof fn law_a_partial_list_is_never_complete(
    states: Seq<FriendWalk>,
    pages: Seq<Option<FindPage>>,
)
    requires
        is_run(states, pages),
    ensures
        states.last().ids@ == ids_on(pages),
        states.last().complete <==> (forall|i: int|
            0 <= i < pages.len() ==> (#[trigger] pages[i]) is Some) && !is_cut_short(pages),
        states.last().over <==> pages.len() > 0 && (pages.last() is None || is_cut_short(pages)
            || !names_page(pages.last()->0.next_cursor)),
        !states.last().over ==> opt_text(states.last().cursor) == (if pages.len() == 0 {
            None
        } else {
            opt_text(pages.last()->0.next_cursor)
        }),
    decreases pages.len(),
{
    if pages.len() > 0 {
        let n = pages.len() - 1;
        let fewer = pages.drop_last();
        assert forall|i: int| 0 <= i < fewer.len() implies !(#[trigger] states.drop_last()[i]).over
            && walked(states.drop_last()[i], fewer[i], states.drop_last()[i + 1]) by {
            assert(states.drop_last()[i] == states[i]);
        }
        law_a_partial_list_is_never_complete(states.drop_last(), fewer);
        assert(states.drop_last().last() == states[n]);
        assert(!states[n].over);
        assert(forall|i: int| 0 <= i < fewer.len() ==> (#[trigger] fewer[i]) is Some) by {
            assert(states[n].complete) by {
                if fewer.len() > 0 {
                    lemma_walking_is_complete(states.drop_last(), fewer);
                }
            }
        }
        assert(forall|i: int| 0 <= i < fewer.len() ==> (#[trigger] pages[i]) == fewer[i]);
        assert(pages[n] == pages.last());
    } else {
        assert(states.last().ids@ =~= Seq::<i64>::empty());
    }
}

/// A walk that is not over has lost nothing yet.
proof fn lemma_walking_is_complete(states: Seq<FriendWalk>, pages: Seq<Option<FindPage>>)
    requires
        is_run(states, pages),
        !states.last().over,
    ensures
        states.last().complete,
    decreases pages.len(),
{
    if pages.len() > 0 {
        let n = pages.len() - 1;
        assert(walked(states[n], pages[n], states[n + 1]));
        assert forall|i: int|
            0 <= i < pages.drop_last().len() implies !(#[trigger] states.drop_last()[i]).over
            && walked(states.drop_last()[i], pages.drop_last()[i], states.drop_last()[i + 1]) by {
            assert(states.drop_last()[i] == states[i]);
        }
        assert(states.drop_last().last() == states[n]);
        assert(!states[n].over);
        lemma_walking_is_complete(states.drop_last(), pages.drop_last());
    }
}

/// The ids, and behind them those of the users that are not among them yet.
pub open spec fn with_users(ids: Seq<i64>, users: Seq<User>) -> Seq<i64>
    decreases users.len(),
{
    if users.len() == 0 {
        ids
    } else {
        let before = with_users(ids, users.drop_last());
        if before.contains(users.last().id) {
            before
        } else {
            before.push(users.last().id)
        }
    }
}

/// Whether a list holds an id.
pub fn holds(ids: &Vec<i64>, id: i64) -> (r: bool)
    ensures
        r == ids@.contains(id),
{
    let mut i: usize = 0;
    while i < ids.len()
        invariant
            i <= ids.len(),
            forall|k: int| 0 <= k < i ==> ids@[k] != id,
        decreases ids.len() - i,
    {
        if ids[i] == id {
            return true;
        }
        i = i + 1;
    }
    false
}

/// The backfill loses nobody and repeats nobody: every id that was there stays,
/// in place, and every user of the flat list is there once the two are united.
pub proof fn law_backfill_unites(ids: Seq<i64>, users: Seq<User>)
    ensures
        ids.is_prefix_of(with_users(ids, users)),
        forall|k: int| 0 <= k < users.len() ==> with_users(ids, users).contains((#[trigger] users[k]).id),
        ids.no_duplicates() ==> with_users(ids, users).no_duplicates(),
    decreases users.len(),
{
    if users.len() > 0 {
        law_backfill_unites(ids, users.drop_last());
        let before = with_users(ids, users.drop_last());
        let after = with_users(ids, users);
        assert forall|k: int| 0 <= k < users.len() implies after.contains(
            (#[trigger] users[k]).id,
        ) by {
            if k < users.len() - 1 {
                assert(users.drop_last()[k] == users[k]);
                let j = choose|j: int| 0 <= j < before.len() && before[j] == users[k].id;
                assert(after[j] == users[k].id);
            } else if !before.contains(users.last().id) {
                assert(after[before.len() as int] == users[k].id);
            }
        }
        assert(ids =~= after.subrange(0, ids.len() as int));
        if ids.no_duplicates() && !before.contains(users.last().id) {
            assert forall|i: int, j: int|
                0 <= i < after.len() && 0 <= j < after.len() && i != j implies after[i]
                != after[j] by {
                if i < before.len() && j < before.len() {
                    assert(before[i] != before[j]);
                } else if i < before.len() {
                    assert(before.contains(before[i]));
                } else {
                    assert(before.contains(before[j]));
                }
            }
        }
    }
}

/// An interrupted walk is never reported as complete, whatever the flat listing
/// adds to it.
pub proof fn law_interrupted_walks_stay_incomplete(
    before: FriendWalk,
    after: FriendWalk,
)
    requires
        walked(before, None, after),
    ensures
        !after.complete,
        after.ids@ == before.ids@,
{
}

#[derive(Debug, Clone, Copy, PartialEq, Eq, Structural)]
pub enum PresenceKind {
    Offline,
    Online,
    InGame,
    InStudio,
    Invisible,
}

pub open spec fn kind_of(code: i32) -> PresenceKind {
    if code == 1 {
        PresenceKind::Online
    } else if code == 2 {
        PresenceKind::InGame
    } else if code == 3 {
        PresenceKind::InStudio
    } else if code == 4 {
        PresenceKind::Invisible
    } else {
        PresenceKind::Offline
    }
}

impl PresenceKind {
    /// A code that is not known yet counts as offline.
    pub fn from_code(code: i32) -> (k: PresenceKind)
        ensures
            k == kind_of(code),
    {
        if code == 1 {
            PresenceKind::Online
        } else if code == 2 {
            PresenceKind::InGame
        } else if code == 3 {
            PresenceKind::InStudio
        } else if code == 4 {
            PresenceKind::Invisible
        } else {
            PresenceKind::Offline
        }
    }

    /// Sort weight: in a game first, then online, then everyone else. "Who can I
    /// join right now" is the question being asked.
    pub open spec fn weight(self) -> u8 {
        match self {
            PresenceKind::InGame => 0,
            PresenceKind::Online => 1,
            PresenceKind::InStudio => 2,
            PresenceKind::Invisible => 3,
            PresenceKind::Offline => 3,
        }
    }

    pub fn rank(self) -> (r: u8)
        ensures
            r == self.weight(),
    {
        match self {
            PresenceKind::InGame => 0,
            PresenceKind::Online => 1,
            PresenceKind::InStudio => 2,
            PresenceKind::Invisible => 3,
            PresenceKind::Offline => 3,
        }
    }

    pub fn is_joinable(self) -> (r: bool)
        ensures
            r == (self == PresenceKind::InGame),
    {
        match self {
            PresenceKind::InGame => true,
            _ => false,
        }
    }

    /// The code of a presence.
    pub open spec fn code_spec(self) -> i32 {
        match self {
            PresenceKind::Offline => 0,
            PresenceKind::Online => 1,
            PresenceKind::InGame => 2,
            PresenceKind::InStudio => 3,
            PresenceKind::Invisible => 4,
        }
    }

    pub fn code(self) -> (r: i32)
        ensures
            r == self.code_spec(),
    {
        match self {
            PresenceKind::Offline => 0,
            PresenceKind::Online => 1,
            PresenceKind::InGame => 2,
            PresenceKind::InStudio => 3,
            PresenceKind::Invisible => 4,
        }
    }
}

/// A presence's code names that presence, and someone who can be joined sorts
/// before everyone who cannot.
pub proof fn law_presence_codes(k: PresenceKind, other: PresenceKind)
    ensures
        kind_of(k.code_spec()) == k,
        k == PresenceKind::InGame && other != PresenceKind::InGame ==> k.weight() < other.weight(),
{
}

/// What the service's numbers mean: 1 is online, 2 is in a game, 3 is in the editor,
/// 4 is hidden, and any other is offline. The friends list asks in the order of who
/// can be played with: in a game, online, in the editor, and then the others.
pub proof fn law_presence_numbers(code: i32)
    ensures
        kind_of(code) == PresenceKind::Online <==> code == 1,
        kind_of(code) == PresenceKind::InGame <==> code == 2,
        kind_of(code) == PresenceKind::InStudio <==> code == 3,
        kind_of(code) == PresenceKind::Invisible <==> code == 4,
        kind_of(code) == PresenceKind::Offline <==> code < 1 || code > 4,
        PresenceKind::InGame.weight() < PresenceKind::Online.weight(),
        PresenceKind::Online.weight() < PresenceKind::InStudio.weight(),
        PresenceKind::InStudio.weight() < PresenceKind::Offline.weight(),
        PresenceKind::Invisible.weight() == PresenceKind::Offline.weight(),
{
}

/// What a presence says of a user is what the service sent, under the same names.
pub proof fn law_presences_are_kept(p: Presence, raw: RawPresence)
    requires
        presence_is(p, raw),
    ensures
        p.user_id == raw.user_id,
        p.kind == PresenceKind::InGame <==> raw.user_presence_type == 2,
        p.place_id == raw.place_id,
        p.root_place_id == raw.root_place_id,
        p.game_id == raw.game_id,
        p.universe_id == raw.universe_id,
        p.last_online == raw.last_online,
        raw.last_location matches Some(t) ==> p.location@ == t@,
        raw.last_location is None ==> p.location@.len() == 0,
{
}

#[derive(Debug, Clone)]
pub struct Presence {
    pub user_id: i64,
    pub kind: PresenceKind,
    pub location: String,
    pub place_id: Option<i64>,
    pub root_place_id: Option<i64>,
    pub game_id: Option<String>,
    pub universe_id: Option<i64>,
    pub last_online: Option<String>,
}

/// A presence as the service sends it.
#[derive(Debug)]
pub struct RawPresence {
    pub user_presence_type: i32,
    pub last_location: Option<String>,
    pub place_id: Option<i64>,
    pub root_place_id: Option<i64>,
    pub game_id: Option<String>,
    pub universe_id: Option<i64>,
    pub user_id: i64,
    pub last_online: Option<String>,
}

impl Default for RawPresence {
    fn default() -> (r: Self)
        ensures
            r.user_presence_type == 0,
            r.last_location is None,
            r.place_id is None,
            r.root_place_id is None,
            r.game_id is None,
            r.universe_id is None,
            r.user_id == 0,
            r.last_online is None,
    {
        RawPresence {
            user_presence_type: 0,
            last_location: None,
            place_id: None,
            root_place_id: None,
            game_id: None,
            universe_id: None,
            user_id: 0,
            last_online: None,
        }
    }
}

pub open spec fn presence_is(p: Presence, raw: RawPresence) -> bool {
    &&& p.user_id == raw.user_id
    &&& p.kind == kind_of(raw.user_presence_type)
    &&& p.location@ == or_empty(raw.last_location)
    &&& p.place_id == raw.place_id
    &&& p.root_place_id == raw.root_place_id
    &&& p.game_id == raw.game_id
    &&& p.universe_id == raw.universe_id
    &&& p.last_online == raw.last_online
}

/// Read what the service sent.
pub fn presence_of(raw: RawPresence) -> (p: Presence)
    ensures
        presence_is(p, raw),
{
    Presence {
        user_id: raw.user_id,
        kind: PresenceKind::from_code(raw.user_presence_type),
        location: text_or_empty(&raw.last_location),
        place_id: raw.place_id,
        root_place_id: raw.root_place_id,
        game_id: raw.game_id,
        universe_id: raw.universe_id,
        last_online: raw.last_online,
    }
}

#[derive(Debug, Clone, Copy, Default)]
pub struct SocialCounts {
    pub friends: i64,
    pub followers: i64,
    pub following: i64,
}

/// The three counts of a profile. One that could not be fetched is zero rather
/// than a reason to show no profile.
pub fn counts(friends: Option<i64>, followers: Option<i64>, following: Option<i64>) -> (c:
    SocialCounts)
    ensures
        c.friends == (if friends is Some { friends->0 } else { 0 }),
        c.followers == (if followers is Some { followers->0 } else { 0 }),
        c.following == (if following is Some { following->0 } else { 0 }),
{
    SocialCounts {
        friends: friends.unwrap_or(0),
        followers: followers.unwrap_or(0),
        following: following.unwrap_or(0),
    }
}

/// `what` of one user.
pub open spec fn user_url_text(user_id: i64, what: Seq<char>) -> Seq<char> {
    FRIENDS@ + "/users/"@ + decimal_int(user_id as int) + what
}

fn user_url(user_id: i64, what: &str) -> (url: String)
    ensures
        url@ == user_url_text(user_id, what@),
{
    cat4(FRIENDS, "/users/", int_text(user_id).as_str(), what)
}

pub fn flat_list_url(user_id: i64) -> (url: String)
    ensures
        url@ == user_url_text(user_id, "/friends"@),
{
    user_url(user_id, "/friends")
}

pub fn friend_count_url(user_id: i64) -> (url: String)
    ensures
        url@ == user_url_text(user_id, "/friends/count"@),
{
    user_url(user_id, "/friends/count")
}

pub fn follower_count_url(user_id: i64) -> (url: String)
    ensures
        url@ == user_url_text(user_id, "/followers/count"@),
{
    user_url(user_id, "/followers/count")
}

pub fn following_count_url(user_id: i64) -> (url: String)
    ensures
        url@ == user_url_text(user_id, "/followings/count"@),
{
    user_url(user_id, "/followings/count")
}

pub fn request_count_url() -> (url: String)
    ensures
        url@ == FRIENDS@ + "/user/friend-requests/count"@,
{
    cat2(FRIENDS, "/user/friend-requests/count")
}

pub fn requests_url(limit: u32) -> (url: String)
    ensures
        exists|n: u32|
            #![trigger allowed_limit(n)]
            is_page_limit(limit, n) && url@ == FRIENDS@ + "/my/friends/requests?limit="@ + decimal(
                n as nat,
            ) + "&sortOrder=Desc"@,
{
    let n: u32 = page_limit(limit);
    assert(allowed_limit(n));
    cat4(
        FRIENDS,
        "/my/friends/requests?limit=",
        nat_text(n as u64).as_str(),
        "&sortOrder=Desc",
    )
}

pub fn presence_url() -> (url: String)
    ensures
        url@ == PRESENCE@ + "/presence/users"@,
{
    cat2(PRESENCE, "/presence/users")
}

/// Something that can be done to another user.
#[derive(Debug, Clone, Copy, PartialEq, Eq, Structural)]
pub enum SocialAction {
    SendRequest,
    Accept,
    Decline,
    Unfriend,
    Follow,
    Unfollow,
}

pub open spec fn action_path(a: SocialAction) -> Seq<char> {
    match a {
        SocialAction::SendRequest => "/request-friendship"@,
        SocialAction::Accept => "/accept-friend-request"@,
        SocialAction::Decline => "/decline-friend-request"@,
        SocialAction::Unfriend => "/unfriend"@,
        SocialAction::Follow => "/follow"@,
        SocialAction::Unfollow => "/unfollow"@,
    }
}

/// What belongs to a user stands below that user's address.
pub proof fn law_addresses_of_a_user(user_id: i64, what: Seq<char>)
    ensures
        user_url_text(user_id, what) == "https://friends.roblox.com/v1/users/"@ + decimal_int(
            user_id as int,
        ) + what,
{
    reveal_strlit("https://friends.roblox.com/v1");
    reveal_strlit("/users/");
    reveal_strlit("https://friends.roblox.com/v1/users/");
    assert(FRIENDS@ + "/users/"@ =~= "https://friends.roblox.com/v1/users/"@);
}

/// Each action is a write of its own to the other user's address, under the name
/// that the service gives it.
pub proof fn law_actions_go_where_they_say(user_id: i64)
    ensures
        ({
            let user = "https://friends.roblox.com/v1/users/"@ + decimal_int(user_id as int);
            let at = |a: SocialAction| user_url_text(user_id, action_path(a));
            &&& at(SocialAction::SendRequest) == user + "/request-friendship"@
            &&& at(SocialAction::Accept) == user + "/accept-friend-request"@
            &&& at(SocialAction::Decline) == user + "/decline-friend-request"@
            &&& at(SocialAction::Unfriend) == user + "/unfriend"@
            &&& at(SocialAction::Follow) == user + "/follow"@
            &&& at(SocialAction::Unfollow) == user + "/unfollow"@
        }),
{
    assert forall|a: SocialAction| #[trigger] user_url_text(user_id, action_path(a))
        == "https://friends.roblox.com/v1/users/"@ + decimal_int(user_id as int) + action_path(
        a,
    ) by {
        law_addresses_of_a_user(user_id, action_path(a));
    }
}

/// The write that does it.
pub fn action_url(a: SocialAction, user_id: i64) -> (url: String)
    ensures
        url@ == user_url_text(user_id, action_path(a)),
        url@ == "https://friends.roblox.com/v1/users/"@ + decimal_int(user_id as int) + match a {
            SocialAction::SendRequest => "/request-friendship"@,
            SocialAction::Accept => "/accept-friend-request"@,
            SocialAction::Decline => "/decline-friend-request"@,
            SocialAction::Unfriend => "/unfriend"@,
            SocialAction::Follow => "/follow"@,
            SocialAction::Unfollow => "/unfollow"@,
        },
{
    proof {
        law_addresses_of_a_user(user_id, action_path(a));
    }
    let what = match a {
        SocialAction::SendRequest => "/request-friendship",
        SocialAction::Accept => "/accept-friend-request",
        SocialAction::Decline => "/decline-friend-request",
        SocialAction::Unfriend => "/unfriend",
        SocialAction::Follow => "/follow",
        SocialAction::Unfollow => "/unfollow",
    };
    user_url(user_id, what)
}

/// The body of a request for what a batch of users is up to.
pub fn presence_body(batch: &Vec<i64>) -> (body: String)
    ensures
        body@ == "{\"userIds\":["@ + joined(batch@) + "]}"@,
{
    cat3("{\"userIds\":[", join_ids(batch).as_str(), "]}")
}

/// Where presence is asked for, for how many at a time, and how many friends are
/// collected at most.
pub proof fn law_presence_service()
    ensures
        PRESENCE@ == "https://presence.roblox.com/v1"@,
        PRESENCE_BATCH == 100,
        FRIENDS_CAP == 5000,
        FRIENDS@ == "https://friends.roblox.com/v1"@,
{
}

} // verus!
