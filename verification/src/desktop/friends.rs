//! The friends list: grouped, searched, and with the pinned friends on top.

use crate::clock::{date_of, in_calendar, present, Moment};
use crate::desktop::adapters::{ago_at, law_a_readable_time_is_shown, time_ago_at};
use crate::number::{decimal_int, int_text};
use crate::order::{is_sorted_order, precedes, sorted_order, SortKey};
use crate::roblox::friends::{Presence, PresenceKind};
use crate::text::{
    cat2, contains_text, is_listed, lists, lowercase, occurs, same, text_le, to_lower, trim, trimmed,
};
use vstd::prelude::*;

verus! {

/// A friend, as far as the list is concerned.
pub struct FriendInput {
    pub id: i64,
    pub name: String,
    pub username: String,
    /// 0 offline, 1 online, 2 in a game, 3 in Studio, 4 invisible.
    pub presence: i32,
    pub location: String,
    pub last_online: String,
    pub place_id: Option<i64>,
    /// The specific server instance, so that joining lands in *their* server
    /// rather than a random one.
    pub game_id: Option<String>,
    pub avatar_url: String,
    pub joinable: bool,
}

/// A row of the list: a friend, or the header of a group.
pub struct FriendRow {
    pub id: String,
    pub name: String,
    pub username: String,
    pub subtitle: String,
    pub presence: i32,
    pub joinable: bool,
    pub pinned: bool,
    pub notify: bool,
    pub place_id: String,
    pub is_header: bool,
    pub header_label: String,
    pub collapsible: bool,
    pub collapsed: bool,
}

pub struct FriendsView {
    pub rows: Vec<FriendRow>,
    pub in_game: i32,
    pub online: i32,
}

/// How a presence sorts: in a game, online, in Studio, then everyone else.
pub open spec fn rank_of(presence: i32) -> u8 {
    if presence == 2 {
        0
    } else if presence == 1 {
        1
    } else if presence == 3 {
        2
    } else {
        3
    }
}

pub fn presence_rank(presence: i32) -> (r: u8)
    ensures
        r == rank_of(presence),
{
    if presence == 2 {
        0
    } else if presence == 1 {
        1
    } else if presence == 3 {
        2
    } else {
        3
    }
}

/// What a friend in a game is doing.
pub open spec fn playing_text(location: Seq<char>) -> Seq<char> {
    if location.len() == 0 {
        "In game"@
    } else {
        "Playing "@ + location
    }
}

pub fn playing_label(location: &str) -> (r: String)
    ensures
        r@ == playing_text(location@),
{
    if location.is_empty() {
        "In game".to_owned()
    } else {
        cat2("Playing ", location)
    }
}

/// The line under a friend's name, seen from `now`.
pub open spec fn subtitle_text(f: FriendInput, now: Moment) -> Seq<char> {
    if f.presence == 2 {
        playing_text(f.location@)
    } else if f.presence == 1 {
        "Online"@
    } else if f.presence == 3 {
        "In Studio"@
    } else if ago_at(f.last_online@, now).len() == 0 {
        "Offline"@
    } else {
        "Last seen "@ + ago_at(f.last_online@, now)
    }
}

/// The line under a friend's name, seen from `now`.
pub fn subtitle_at(f: &FriendInput, now: Moment) -> (r: String)
    ensures
        r@ == subtitle_text(*f, now),
{
    if f.presence == 2 {
        playing_label(f.location.as_str())
    } else if f.presence == 1 {
        "Online".to_owned()
    } else if f.presence == 3 {
        "In Studio".to_owned()
    } else {
        let ago = time_ago_at(f.last_online.as_str(), now);
        if ago.as_str().is_empty() {
            "Offline".to_owned()
        } else {
            cat2("Last seen ", ago.as_str())
        }
    }
}

/// The line under a friend's name.
pub fn subtitle_for(f: &FriendInput) -> (r: String)
    ensures
        exists|now: Moment|
            in_calendar(now) && now.secs >= 0 && r@ == #[trigger] subtitle_text(*f, now),
{
    let now = present();
    subtitle_at(f, now)
}

/// An offline friend whose time can be read is said to have been seen, at any
/// moment of the calendar, and any other offline friend is just offline.
pub proof fn law_a_readable_time_is_last_seen(f: FriendInput, now: Moment)
    requires
        in_calendar(now),
        f.presence != 1 && f.presence != 2 && f.presence != 3,
    ensures
        subtitle_text(f, now) == (if date_of(f.last_online@) is Some {
            "Last seen "@ + ago_at(f.last_online@, now)
        } else {
            "Offline"@
        }),
{
    law_a_readable_time_is_shown(f.last_online@, now);
}

/// What somebody is up to, in the words of the friends list.
pub open spec fn presence_text(p: Presence) -> Seq<char> {
    match p.kind {
        PresenceKind::InGame => playing_text(p.location@),
        PresenceKind::Online => "Online"@,
        PresenceKind::InStudio => "In Studio"@,
        _ => Seq::empty(),
    }
}

/// What somebody is up to, for someone who is not a friend yet.
pub fn presence_label(p: Option<&Presence>) -> (r: String)
    ensures
        r@ == (match p {
            Some(q) => presence_text(*q),
            None => Seq::empty(),
        }),
{
    match p {
        Some(q) => match q.kind {
            PresenceKind::InGame => playing_label(q.location.as_str()),
            PresenceKind::Online => "Online".to_owned(),
            PresenceKind::InStudio => "In Studio".to_owned(),
            _ => String::new(),
        },
        None => String::new(),
    }
}

/// What is looked for in the names.
pub open spec fn needle_of(filter: Seq<char>) -> Seq<char> {
    lowercase(trimmed(filter))
}

/// The friend's name or user name holds what is looked for.
pub open spec fn matches_needle(f: FriendInput, needle: Seq<char>) -> bool {
    ||| needle.len() == 0
    ||| occurs(lowercase(f.name@), needle)
    ||| occurs(lowercase(f.username@), needle)
}

/// The friend's id is on a list of ids.
pub open spec fn on_list(list: Seq<String>, f: FriendInput) -> bool {
    lists(list, decimal_int(f.id as int))
}

/// The row shows this friend.
pub open spec fn row_shows(
    r: FriendRow,
    f: FriendInput,
    pinned: Seq<String>,
    notify: Seq<String>,
    now: Moment,
) -> bool {
    &&& r.id@ == decimal_int(f.id as int)
    &&& r.name@ == f.name@
    &&& r.username@ == f.username@
    &&& r.subtitle@ == subtitle_text(f, now)
    &&& r.presence == f.presence
    &&& r.joinable == f.joinable
    &&& r.pinned == on_list(pinned, f)
    &&& r.notify == on_list(notify, f)
    &&& r.place_id@ == (match f.place_id {
        Some(p) => decimal_int(p as int),
        None => Seq::empty(),
    })
    &&& !r.is_header
    &&& r.header_label@.len() == 0
    &&& !r.collapsible
    &&& !r.collapsed
}

/// The row is a group's header, and nothing else.
pub open spec fn row_heads(
    r: FriendRow,
    label: Seq<char>,
    collapsible: bool,
    collapsed: bool,
) -> bool {
    &&& r.is_header
    &&& r.header_label@ == label
    &&& r.collapsible == collapsible
    &&& r.collapsed == collapsed
    &&& r.id@.len() == 0
    &&& r.name@.len() == 0
    &&& r.username@.len() == 0
    &&& r.subtitle@.len() == 0
    &&& r.place_id@.len() == 0
    &&& r.presence == 0
    &&& !r.joinable
    &&& !r.pinned
    &&& !r.notify
}

fn friend_row(
    f: &FriendInput,
    pinned: &Vec<String>,
    notify: &Vec<String>,
    now: Moment,
) -> (r: FriendRow)
    ensures
        row_shows(r, *f, pinned@, notify@, now),
{
    let id = int_text(f.id);
    let is_pinned = is_listed(pinned, id.as_str());
    let notified = is_listed(notify, id.as_str());
    FriendRow {
        id,
        name: f.name.clone(),
        username: f.username.clone(),
        subtitle: subtitle_at(f, now),
        presence: f.presence,
        joinable: f.joinable,
        pinned: is_pinned,
        notify: notified,
        place_id: match f.place_id {
            Some(p) => int_text(p),
            None => String::new(),
        },
        is_header: false,
        header_label: String::new(),
        collapsible: false,
        collapsed: false,
    }
}

fn header_row(label: &str, collapsible: bool, collapsed: bool) -> (r: FriendRow)
    ensures
        row_heads(r, label@, collapsible, collapsed),
{
    FriendRow {
        id: String::new(),
        name: String::new(),
        username: String::new(),
        subtitle: String::new(),
        presence: 0,
        joinable: false,
        pinned: false,
        notify: false,
        place_id: String::new(),
        is_header: true,
        header_label: label.to_owned(),
        collapsible,
        collapsed,
    }
}

/// The four sections of the list.
#[derive(Clone, Copy)]
pub enum Section {
    Pinned,
    InGame,
    Online,
    Offline,
}

pub open spec fn section_label(s: Section) -> Seq<char> {
    match s {
        Section::Pinned => "PINNED"@,
        Section::InGame => "IN GAME"@,
        Section::Online => "ONLINE"@,
        Section::Offline => "OFFLINE"@,
    }
}

/// The friend belongs in this section of the list.
pub open spec fn belongs(
    f: FriendInput,
    s: Section,
    pinned: Seq<String>,
    needle: Seq<char>,
) -> bool {
    matches_needle(f, needle) && match s {
        Section::Pinned => on_list(pinned, f),
        Section::InGame => !on_list(pinned, f) && f.presence == 2,
        Section::Online => !on_list(pinned, f) && (f.presence == 1 || f.presence == 3),
        Section::Offline => !on_list(pinned, f) && (f.presence == 0 || f.presence == 4),
    }
}

/// Within a section, `a` is listed before `b`: by name, and among the pinned by
/// presence first; friends of the same name keep their order.
pub open spec fn listed_before(friends: Seq<FriendInput>, s: Section, a: int, b: int) -> bool {
    let x = friends[a];
    let y = friends[b];
    let rx = if s is Pinned { rank_of(x.presence) } else { 0 };
    let ry = if s is Pinned { rank_of(y.presence) } else { 0 };
    let nx = lowercase(x.name@);
    let ny = lowercase(y.name@);
    &&& rx < ry || rx == ry && text_le(nx, ny)
    &&& (ry < rx || ry == rx && text_le(ny, nx)) ==> a < b
}

/// `members` are the friends of a section, each once, in the order of the list.
pub open spec fn is_section(
    members: Seq<usize>,
    friends: Seq<FriendInput>,
    s: Section,
    pinned: Seq<String>,
    needle: Seq<char>,
) -> bool {
    &&& forall|i: int|
        0 <= i < members.len() ==> #[trigger] members[i] < friends.len() && belongs(
            friends[members[i] as int],
            s,
            pinned,
            needle,
        )
    &&& forall|i: int, j: int|
        0 <= i < j < members.len() ==> #[trigger] members[i] != #[trigger] members[j]
            && listed_before(friends, s, members[i] as int, members[j] as int)
    &&& forall|k: int|
        0 <= k < friends.len() && belongs(#[trigger] friends[k], s, pinned, needle)
            ==> members.contains(k as usize)
}

/// How many rows a section takes: none at all when it is empty, its header alone
/// when it is collapsed.
pub open spec fn section_height(members: Seq<usize>, collapsed: bool) -> int {
    if members.len() == 0 {
        0
    } else if collapsed {
        1
    } else {
        1 + members.len() as int
    }
}

/// The rows from `at` on are this section.
pub open spec fn section_at(
    rows: Seq<FriendRow>,
    at: int,
    members: Seq<usize>,
    friends: Seq<FriendInput>,
    s: Section,
    collapsed: bool,
    pinned: Seq<String>,
    notify: Seq<String>,
    now: Moment,
) -> bool {
    &&& 0 <= at
    &&& at + section_height(members, collapsed) <= rows.len()
    &&& members.len() > 0 ==> row_heads(rows[at], section_label(s), s is Offline, collapsed)
    &&& !collapsed ==> forall|i: int|
        0 <= i < members.len() ==> row_shows(
            #[trigger] rows[at + 1 + i],
            friends[members[i] as int],
            pinned,
            notify,
            now,
        )
}

/// The rows are the four sections, one after the other.
pub open spec fn rows_are(
    rows: Seq<FriendRow>,
    friends: Seq<FriendInput>,
    pinned: Seq<String>,
    notify: Seq<String>,
    needle: Seq<char>,
    offline_collapsed: bool,
    now: Moment,
    pins: Seq<usize>,
    playing: Seq<usize>,
    online: Seq<usize>,
    offline: Seq<usize>,
) -> bool {
    let a = section_height(pins, false);
    let b = a + section_height(playing, false);
    let c = b + section_height(online, false);
    &&& is_section(pins, friends, Section::Pinned, pinned, needle)
    &&& is_section(playing, friends, Section::InGame, pinned, needle)
    &&& is_section(online, friends, Section::Online, pinned, needle)
    &&& is_section(offline, friends, Section::Offline, pinned, needle)
    &&& section_at(rows, 0, pins, friends, Section::Pinned, false, pinned, notify, now)
    &&& section_at(rows, a, playing, friends, Section::InGame, false, pinned, notify, now)
    &&& section_at(rows, b, online, friends, Section::Online, false, pinned, notify, now)
    &&& section_at(
        rows,
        c,
        offline,
        friends,
        Section::Offline,
        offline_collapsed,
        pinned,
        notify,
        now,
    )
    &&& rows.len() == c + section_height(offline, offline_collapsed)
}

pub open spec fn is_in_game(f: FriendInput) -> bool {
    f.presence == 2
}

pub open spec fn is_online(f: FriendInput) -> bool {
    f.presence == 1 || f.presence == 3
}

/// The view is the list of these friends as it looks at `now`.
pub open spec fn view_shows(
    v: FriendsView,
    friends: Seq<FriendInput>,
    pinned: Seq<String>,
    notify: Seq<String>,
    filter: Seq<char>,
    offline_collapsed: bool,
    now: Moment,
) -> bool {
    &&& v.in_game == friends.filter(|f: FriendInput| is_in_game(f)).len() as i32
    &&& v.online == friends.filter(|f: FriendInput| is_online(f)).len() as i32
    &&& exists|pins: Seq<usize>, playing: Seq<usize>, online: Seq<usize>, offline: Seq<usize>|
        #[trigger] rows_are(
            v.rows@,
            friends,
            pinned,
            notify,
            needle_of(filter),
            offline_collapsed,
            now,
            pins,
            playing,
            online,
            offline,
        )
}

fn is_match(f: &FriendInput, needle: &str) -> (r: bool)
    ensures
        r == matches_needle(*f, needle@),
{
    needle.is_empty() || contains_text(to_lower(f.name.as_str()).as_str(), needle) || contains_text(
        to_lower(f.username.as_str()).as_str(),
        needle,
    )
}

fn is_member(f: &FriendInput, s: Section, pinned: &Vec<String>, needle: &str) -> (r: bool)
    ensures
        r == belongs(*f, s, pinned@, needle@),
{
    if !is_match(f, needle) {
        return false;
    }
    let pin = is_listed(pinned, int_text(f.id).as_str());
    match s {
        Section::Pinned => pin,
        Section::InGame => !pin && f.presence == 2,
        Section::Online => !pin && (f.presence == 1 || f.presence == 3),
        Section::Offline => !pin && (f.presence == 0 || f.presence == 4),
    }
}

/// The friends of one section in the order of the list.
fn section_members(
    friends: &Vec<FriendInput>,
    s: Section,
    pinned: &Vec<String>,
    needle: &str,
) -> (members: Vec<usize>)
    ensures
        is_section(members@, friends@, s, pinned@, needle@),
{
    let mut found: Vec<usize> = Vec::new();
    let mut keys: Vec<SortKey> = Vec::new();
    let mut i: usize = 0;
    while i < friends.len()
        invariant
            i <= friends.len(),
            keys.len() == found.len(),
            forall|k: int|
                0 <= k < found.len() ==> #[trigger] found@[k] < i && belongs(
                    friends@[found@[k] as int],
                    s,
                    pinned@,
                    needle@,
                ),
            forall|k: int|
                0 <= k < found.len() ==> (#[trigger] keys@[k]).first == (if s is Pinned {
                    rank_of(friends@[found@[k] as int].presence)
                } else {
                    0
                }) && keys@[k].second == 0 && keys@[k].name@ == lowercase(
                    friends@[found@[k] as int].name@,
                ),
            forall|j: int, k: int|
                0 <= j < k < found.len() ==> #[trigger] found@[j] < #[trigger] found@[k],
            forall|k: int|
                0 <= k < i && belongs(#[trigger] friends@[k], s, pinned@, needle@)
                    ==> found@.contains(k as usize),
        decreases friends.len() - i,
    {
        if is_member(&friends[i], s, pinned, needle) {
            let ghost before = found@;
            found.push(i);
            let first: i64 = match s {
                Section::Pinned => presence_rank(friends[i].presence) as i64,
                _ => 0,
            };
            keys.push(SortKey { first, second: 0, name: to_lower(friends[i].name.as_str()) });
            proof {
                assert forall|k: int|
                    0 <= k < i + 1 && belongs(
                        #[trigger] friends@[k],
                        s,
                        pinned@,
                        needle@,
                    ) implies found@.contains(k as usize) by {
                    if k == i {
                        assert(found@[found@.len() - 1] == i);
                    } else {
                        assert(before.contains(k as usize));
                        let j = choose|j: int| 0 <= j < before.len() && before[j] == k as usize;
                        assert(found@[j] == k as usize);
                    }
                }
            }
        }
        i = i + 1;
    }
    let order = sorted_order(&keys);
    let mut members: Vec<usize> = Vec::new();
    let mut n: usize = 0;
    while n < order.len()
        invariant
            n <= order.len(),
            order.len() == found.len(),
            is_sorted_order(order@, keys@),
            keys.len() == found.len(),
            members.len() == n,
            forall|k: int| 0 <= k < n ==> #[trigger] members@[k] == found@[order@[k] as int],
        decreases order.len() - n,
    {
        members.push(found[order[n]]);
        n = n + 1;
    }
    proof {
        assert forall|a: int, b: int| 0 <= a < b < members.len() implies #[trigger] members@[a]
            != #[trigger] members@[b] && listed_before(
            friends@,
            s,
            members@[a] as int,
            members@[b] as int,
        ) by {
            let x = order@[a];
            let y = order@[b];
            assert(precedes(keys@, x, y));
            if x < y {
                assert(found@[x as int] < found@[y as int]);
            } else {
                assert(found@[y as int] < found@[x as int]);
            }
        }
        assert forall|k: int|
            0 <= k < friends.len() && belongs(
                #[trigger] friends@[k],
                s,
                pinned@,
                needle@,
            ) implies members@.contains(k as usize) by {
            assert(found@.contains(k as usize));
            let j = choose|j: int| 0 <= j < found.len() && found@[j] == k as usize;
            crate::order::lemma_permutation_hits(order@, found@.len(), j as usize);
            let p = choose|p: int| 0 <= p < order@.len() && order@[p] == j as usize;
            assert(members@[p] == k as usize);
        }
    }
    members
}

/// Append one section to the rows.
fn push_section(
    rows: &mut Vec<FriendRow>,
    members: &Vec<usize>,
    friends: &Vec<FriendInput>,
    s: Section,
    label: &str,
    collapsed: bool,
    pinned: &Vec<String>,
    notify: &Vec<String>,
    now: Moment,
)
    requires
        label@ == section_label(s),
        forall|i: int| 0 <= i < members.len() ==> #[trigger] members@[i] < friends.len(),
    ensures
        section_at(
            final(rows)@,
            old(rows)@.len() as int,
            members@,
            friends@,
            s,
            collapsed,
            pinned@,
            notify@,
            now,
        ),
        final(rows)@.len() == old(rows)@.len() + section_height(members@, collapsed),
        forall|i: int| 0 <= i < old(rows)@.len() ==> final(rows)@[i] == old(rows)@[i],
{
    if members.len() == 0 {
        return ;
    }
    let ghost before = rows@;
    let collapsible = match s {
        Section::Offline => true,
        _ => false,
    };
    rows.push(header_row(label, collapsible, collapsed));
    if collapsed {
        return ;
    }
    let mut i: usize = 0;
    while i < members.len()
        invariant
            i <= members.len(),
            forall|k: int| 0 <= k < members.len() ==> #[trigger] members@[k] < friends.len(),
            rows.len() == before.len() + 1 + i,
            forall|k: int| 0 <= k < before.len() ==> rows@[k] == before[k],
            row_heads(rows@[before.len() as int], label@, s is Offline, false),
            forall|k: int|
                0 <= k < i ==> row_shows(
                    #[trigger] rows@[before.len() + 1 + k],
                    friends@[members@[k] as int],
                    pinned@,
                    notify@,
                    now,
                ),
        decreases members.len() - i,
    {
        rows.push(friend_row(&friends[members[i]], pinned, notify, now));
        i = i + 1;
    }
}

/// The friends list, seen from `now`.
pub fn friend_rows_at(
    friends: &Vec<FriendInput>,
    pinned: &Vec<String>,
    notify: &Vec<String>,
    filter: &str,
    offline_collapsed: bool,
    now: Moment,
) -> (view: FriendsView)
    ensures
        view_shows(view, friends@, pinned@, notify@, filter@, offline_collapsed, now),
{
    let needle = to_lower(trim(filter).as_str());
    let mut in_game: usize = 0;
    let mut online: usize = 0;
    let mut i: usize = 0;
    proof {
        reveal(Seq::filter);
    }
    assert(friends@.take(0) =~= Seq::<FriendInput>::empty());
    while i < friends.len()
        invariant
            i <= friends.len(),
            in_game <= i,
            online <= i,
            in_game == friends@.take(i as int).filter(|f: FriendInput| is_in_game(f)).len(),
            online == friends@.take(i as int).filter(|f: FriendInput| is_online(f)).len(),
        decreases friends.len() - i,
    {
        proof {
            reveal(Seq::filter);
            assert(friends@.take(i as int + 1).drop_last() =~= friends@.take(i as int));
            assert(friends@.take(i as int + 1).last() == friends@[i as int]);
        }
        let p: i32 = friends[i].presence;
        if p == 2 {
            in_game = in_game + 1;
        }
        if p == 1 || p == 3 {
            online = online + 1;
        }
        i = i + 1;
    }
    assert(friends@.take(friends@.len() as int) =~= friends@);

    let pins = section_members(friends, Section::Pinned, pinned, needle.as_str());
    let playing = section_members(friends, Section::InGame, pinned, needle.as_str());
    let around = section_members(friends, Section::Online, pinned, needle.as_str());
    let away = section_members(friends, Section::Offline, pinned, needle.as_str());

    let mut rows: Vec<FriendRow> = Vec::new();
    push_section(
        &mut rows,
        &pins,
        friends,
        Section::Pinned,
        "PINNED",
        false,
        pinned,
        notify,
        now,
    );
    push_section(
        &mut rows,
        &playing,
        friends,
        Section::InGame,
        "IN GAME",
        false,
        pinned,
        notify,
        now,
    );
    push_section(
        &mut rows,
        &around,
        friends,
        Section::Online,
        "ONLINE",
        false,
        pinned,
        notify,
        now,
    );
    push_section(
        &mut rows,
        &away,
        friends,
        Section::Offline,
        "OFFLINE",
        offline_collapsed,
        pinned,
        notify,
        now,
    );
    let view = FriendsView {
        rows,
        in_game: #[verifier::truncate]
        (in_game as i32),
        online: #[verifier::truncate]
        (online as i32),
    };
    assert(rows_are(
        view.rows@,
        friends@,
        pinned@,
        notify@,
        needle_of(filter@),
        offline_collapsed,
        now,
        pins@,
        playing@,
        around@,
        away@,
    ));
    view
}

/// Whether the offline friends are folded away after a header was pressed: only
/// theirs folds.
pub fn toggle_friend_group(label: &str, offline_collapsed: bool) -> (r: bool)
    ensures
        r == (if label@ == "OFFLINE"@ {
            !offline_collapsed
        } else {
            offline_collapsed
        }),
{
    if same(label, "OFFLINE") {
        !offline_collapsed
    } else {
        offline_collapsed
    }
}

/// Flatten friends into the grouped list with its headers.
///
/// Pinned friends are lifted to their own section at the top *and left out of
/// the groups below*, so nobody is listed twice.
pub fn friend_rows(
    friends: &Vec<FriendInput>,
    pinned: &Vec<String>,
    notify: &Vec<String>,
    filter: &str,
    offline_collapsed: bool,
) -> (view: FriendsView)
    ensures
        exists|now: Moment|
            in_calendar(now) && now.secs >= 0 && #[trigger] view_shows(
                view,
                friends@,
                pinned@,
                notify@,
                filter@,
                offline_collapsed,
                now,
            ),
{
    let now = present();
    friend_rows_at(friends, pinned, notify, filter, offline_collapsed, now)
}

/// Nobody is listed twice: a friend stands in one section at most, and there
/// once at most.
pub proof fn law_nobody_is_listed_twice(
    friends: Seq<FriendInput>,
    pinned: Seq<String>,
    needle: Seq<char>,
    one: Section,
    other: Section,
    a: Seq<usize>,
    b: Seq<usize>,
    i: int,
    j: int,
)
    requires
        is_section(a, friends, one, pinned, needle),
        is_section(b, friends, other, pinned, needle),
        0 <= i < a.len(),
        0 <= j < b.len(),
        a[i] == b[j],
    ensures
        one == other,
        a == b ==> i == j,
{
}

/// A pinned friend who matches the filter is in the section on top, and in no
/// other.
pub proof fn law_pinned_friends_are_lifted(
    friends: Seq<FriendInput>,
    pinned: Seq<String>,
    needle: Seq<char>,
    s: Section,
    members: Seq<usize>,
    k: int,
)
    requires
        is_section(members, friends, s, pinned, needle),
        0 <= k < friends.len() <= usize::MAX,
        on_list(pinned, friends[k]),
        matches_needle(friends[k], needle),
    ensures
        members.contains(k as usize) <==> s is Pinned,
{
    if s is Pinned {
        assert(belongs(friends[k], s, pinned, needle));
    } else if members.contains(k as usize) {
        let i = choose|i: int| 0 <= i < members.len() && members[i] == k as usize;
        assert(belongs(friends[members[i] as int], s, pinned, needle));
    }
}

/// The order of the list is settled: two lists of the same section are equal.
pub proof fn law_section_order_is_settled(
    friends: Seq<FriendInput>,
    pinned: Seq<String>,
    needle: Seq<char>,
    s: Section,
    a: Seq<usize>,
    b: Seq<usize>,
)
    requires
        friends.len() <= usize::MAX,
        is_section(a, friends, s, pinned, needle),
        is_section(b, friends, s, pinned, needle),
    ensures
        a == b,
    decreases a.len() + b.len(),
{
    lemma_same_members(friends, pinned, needle, s, a, b);
    lemma_same_members(friends, pinned, needle, s, b, a);
    assert forall|i: int| 0 <= i < a.len() && i < b.len() implies a[i] == b[i] by {
        lemma_same_position(friends, pinned, needle, s, a, b, i);
    }
    if a.len() < b.len() {
        let x = b[a.len() as int];
        assert(a.contains(x));
        let p = choose|p: int| 0 <= p < a.len() && a[p] == x;
        assert(b[p] == x);
    }
    if b.len() < a.len() {
        let x = a[b.len() as int];
        assert(b.contains(x));
        let p = choose|p: int| 0 <= p < b.len() && b[p] == x;
        assert(a[p] == x);
    }
    assert(a =~= b);
}

proof fn lemma_same_members(
    friends: Seq<FriendInput>,
    pinned: Seq<String>,
    needle: Seq<char>,
    s: Section,
    a: Seq<usize>,
    b: Seq<usize>,
)
    requires
        friends.len() <= usize::MAX,
        is_section(a, friends, s, pinned, needle),
        is_section(b, friends, s, pinned, needle),
    ensures
        forall|i: int| 0 <= i < a.len() ==> b.contains(#[trigger] a[i]),
{
    assert forall|i: int| 0 <= i < a.len() implies b.contains(#[trigger] a[i]) by {
        assert(belongs(friends[a[i] as int], s, pinned, needle));
    }
}

proof fn lemma_same_position(
    friends: Seq<FriendInput>,
    pinned: Seq<String>,
    needle: Seq<char>,
    s: Section,
    a: Seq<usize>,
    b: Seq<usize>,
    i: int,
)
    requires
        friends.len() <= usize::MAX,
        is_section(a, friends, s, pinned, needle),
        is_section(b, friends, s, pinned, needle),
        0 <= i < a.len(),
        i < b.len(),
    ensures
        a[i] == b[i],
    decreases i,
{
    assert forall|k: int| 0 <= k < i implies a[k] == b[k] by {
        lemma_same_position(friends, pinned, needle, s, a, b, k);
    }
    if a[i] != b[i] {
        lemma_same_members(friends, pinned, needle, s, a, b);
        lemma_same_members(friends, pinned, needle, s, b, a);
        assert(b.contains(a[i]));
        assert(a.contains(b[i]));
        let p = choose|p: int| 0 <= p < b.len() && b[p] == a[i];
        let q = choose|q: int| 0 <= q < a.len() && a[q] == b[i];
        assert(p > i) by {
            if p < i {
                assert(a[p] == b[p]);
            }
        }
        assert(q > i) by {
            if q < i {
                assert(a[q] == b[q]);
            }
        }
        assert(listed_before(friends, s, b[i] as int, b[p] as int));
        assert(listed_before(friends, s, a[i] as int, a[q] as int));
    }
}

/// The rows of friends among the rows of the list, without the headers.
pub open spec fn friends_of(rows: Seq<FriendRow>) -> Seq<FriendRow> {
    rows.filter(|r: FriendRow| !r.is_header)
}

/// The row shows a name or a user name that holds what is looked for.
pub open spec fn row_matches(r: FriendRow, needle: Seq<char>) -> bool {
    ||| needle.len() == 0
    ||| occurs(lowercase(r.name@), needle)
    ||| occurs(lowercase(r.username@), needle)
}

/// The rows that match, in the order in which they stand.
pub open spec fn matching(rows: Seq<FriendRow>, needle: Seq<char>) -> Seq<FriendRow> {
    rows.filter(|r: FriendRow| row_matches(r, needle))
}

/// The two rows show the same, but for how long ago somebody was seen.
pub open spec fn shows_the_same(a: FriendRow, b: FriendRow) -> bool {
    &&& a.id@ == b.id@
    &&& a.name@ == b.name@
    &&& a.username@ == b.username@
    &&& a.presence == b.presence
    &&& a.joinable == b.joinable
    &&& a.pinned == b.pinned
    &&& a.notify == b.notify
    &&& a.place_id@ == b.place_id@
}

/// Searching only leaves rows out: the friends shown under a filter are those
/// shown without one whose name or user name holds what is looked for, in the
/// same order, and the two counts stay as they are. At one and the same time the
/// lines under the names agree too.
pub proof fn law_a_filter_narrows(
    friends: Seq<FriendInput>,
    pinned: Seq<String>,
    notify: Seq<String>,
    filter: Seq<char>,
    offline_collapsed: bool,
    before: FriendsView,
    then: Moment,
    after: FriendsView,
    now: Moment,
)
    requires
        friends.len() <= usize::MAX,
        view_shows(before, friends, pinned, notify, ""@, offline_collapsed, then),
        view_shows(after, friends, pinned, notify, filter, offline_collapsed, now),
    ensures
        after.in_game == before.in_game,
        after.online == before.online,
        ({
            let some = friends_of(after.rows@);
            let kept = matching(friends_of(before.rows@), needle_of(filter));
            &&& some.len() == kept.len()
            &&& forall|i: int|
                0 <= i < some.len() ==> shows_the_same(#[trigger] some[i], kept[i]) && (now == then
                    ==> some[i].subtitle@ == kept[i].subtitle@)
        }),
{
    reveal_strlit("");
    let none = needle_of(""@);
    let needle = needle_of(filter);
    assert(none.len() == 0);
    let (p0, g0, o0, f0) = choose|p: Seq<usize>, g: Seq<usize>, o: Seq<usize>, f: Seq<usize>|
        #[trigger] rows_are(
            before.rows@,
            friends,
            pinned,
            notify,
            none,
            offline_collapsed,
            then,
            p,
            g,
            o,
            f,
        );
    let (p1, g1, o1, f1) = choose|p: Seq<usize>, g: Seq<usize>, o: Seq<usize>, f: Seq<usize>|
        #[trigger] rows_are(
            after.rows@,
            friends,
            pinned,
            notify,
            needle,
            offline_collapsed,
            now,
            p,
            g,
            o,
            f,
        );
    let m0 = unfolded(p0, g0, o0, f0, offline_collapsed);
    let m1 = unfolded(p1, g1, o1, f1, offline_collapsed);
    lemma_friends_of_rows(
        before.rows@,
        friends,
        pinned,
        notify,
        none,
        offline_collapsed,
        then,
        p0,
        g0,
        o0,
        f0,
    );
    lemma_friends_of_rows(
        after.rows@,
        friends,
        pinned,
        notify,
        needle,
        offline_collapsed,
        now,
        p1,
        g1,
        o1,
        f1,
    );
    lemma_matching(friends_of(before.rows@), m0, friends, pinned, notify, then, needle);
    lemma_section_narrows(friends, pinned, none, needle, Section::Pinned, p0, p1);
    lemma_section_narrows(friends, pinned, none, needle, Section::InGame, g0, g1);
    lemma_section_narrows(friends, pinned, none, needle, Section::Online, o0, o1);
    lemma_section_narrows(friends, pinned, none, needle, Section::Offline, f0, f1);
    let last = if offline_collapsed {
        Seq::empty()
    } else {
        f0
    };
    assert(those_matching(Seq::empty(), friends, needle) =~= Seq::<usize>::empty()) by {
        reveal(Seq::filter);
    }
    lemma_those_matching_add(p0 + g0 + o0, last, friends, needle);
    lemma_those_matching_add(p0 + g0, o0, friends, needle);
    lemma_those_matching_add(p0, g0, friends, needle);
    assert(m1 == those_matching(m0, friends, needle));
}

/// The members of the four sections that have rows.
spec fn unfolded(
    pins: Seq<usize>,
    playing: Seq<usize>,
    online: Seq<usize>,
    offline: Seq<usize>,
    offline_collapsed: bool,
) -> Seq<usize> {
    pins + playing + online + (if offline_collapsed {
        Seq::empty()
    } else {
        offline
    })
}

spec fn those_matching(
    members: Seq<usize>,
    friends: Seq<FriendInput>,
    needle: Seq<char>,
) -> Seq<usize> {
    members.filter(|k: usize| matches_needle(friends[k as int], needle))
}

/// The rows show these members, one for one.
spec fn rows_show(
    rows: Seq<FriendRow>,
    members: Seq<usize>,
    friends: Seq<FriendInput>,
    pinned: Seq<String>,
    notify: Seq<String>,
    now: Moment,
) -> bool {
    &&& rows.len() == members.len()
    &&& forall|i: int|
        0 <= i < rows.len() ==> row_shows(
            #[trigger] rows[i],
            friends[members[i] as int],
            pinned,
            notify,
            now,
        )
}

proof fn lemma_those_matching_add(
    a: Seq<usize>,
    b: Seq<usize>,
    friends: Seq<FriendInput>,
    needle: Seq<char>,
)
    ensures
        those_matching(a + b, friends, needle) == those_matching(a, friends, needle)
            + those_matching(b, friends, needle),
{
    Seq::filter_distributes_over_add(
        a,
        b,
        |k: usize| matches_needle(friends[k as int], needle),
    );
}

proof fn lemma_friends_of_add(a: Seq<FriendRow>, b: Seq<FriendRow>)
    ensures
        friends_of(a + b) == friends_of(a) + friends_of(b),
{
    Seq::filter_distributes_over_add(a, b, |r: FriendRow| !r.is_header);
}

proof fn lemma_all_friends(rows: Seq<FriendRow>)
    requires
        forall|i: int| 0 <= i < rows.len() ==> !(#[trigger] rows[i]).is_header,
    ensures
        friends_of(rows) == rows,
    decreases rows.len(),
{
    reveal(Seq::filter);
    if rows.len() > 0 {
        lemma_all_friends(rows.drop_last());
        assert(rows.drop_last().push(rows.last()) =~= rows);
    }
    assert(friends_of(rows) =~= rows);
}

proof fn lemma_friends_of_section(
    rows: Seq<FriendRow>,
    at: int,
    members: Seq<usize>,
    friends: Seq<FriendInput>,
    s: Section,
    collapsed: bool,
    pinned: Seq<String>,
    notify: Seq<String>,
    now: Moment,
)
    requires
        section_at(rows, at, members, friends, s, collapsed, pinned, notify, now),
    ensures
        rows_show(
            friends_of(rows.subrange(at, at + section_height(members, collapsed))),
            (if collapsed {
                Seq::empty()
            } else {
                members
            }),
            friends,
            pinned,
            notify,
            now,
        ),
{
    let part = rows.subrange(at, at + section_height(members, collapsed));
    reveal(Seq::filter);
    if members.len() == 0 {
        assert(friends_of(part) =~= Seq::<FriendRow>::empty());
    } else {
        let head = seq![rows[at]];
        let body = part.skip(1);
        assert(head.drop_last() =~= Seq::<FriendRow>::empty());
        assert(friends_of(head.drop_last()) =~= Seq::<FriendRow>::empty());
        assert(friends_of(head) =~= Seq::<FriendRow>::empty());
        assert(part =~= head + body);
        lemma_friends_of_add(head, body);
        if collapsed {
            assert(body =~= Seq::<FriendRow>::empty());
        } else {
            assert forall|i: int| 0 <= i < body.len() implies row_shows(
                #[trigger] body[i],
                friends[members[i] as int],
                pinned,
                notify,
                now,
            ) by {
                assert(body[i] == rows[at + 1 + i]);
            }
            lemma_all_friends(body);
        }
        assert(friends_of(part) =~= friends_of(body));
    }
}

proof fn lemma_rows_show_add(
    a: Seq<FriendRow>,
    m: Seq<usize>,
    b: Seq<FriendRow>,
    n: Seq<usize>,
    friends: Seq<FriendInput>,
    pinned: Seq<String>,
    notify: Seq<String>,
    now: Moment,
)
    requires
        rows_show(a, m, friends, pinned, notify, now),
        rows_show(b, n, friends, pinned, notify, now),
    ensures
        rows_show(a + b, m + n, friends, pinned, notify, now),
{
    assert forall|i: int| 0 <= i < (a + b).len() implies row_shows(
        #[trigger] (a + b)[i],
        friends[(m + n)[i] as int],
        pinned,
        notify,
        now,
    ) by {
        if i < a.len() {
            assert((a + b)[i] == a[i]);
        } else {
            assert((a + b)[i] == b[i - a.len()]);
        }
    }
}

proof fn lemma_friends_of_rows(
    rows: Seq<FriendRow>,
    friends: Seq<FriendInput>,
    pinned: Seq<String>,
    notify: Seq<String>,
    needle: Seq<char>,
    offline_collapsed: bool,
    now: Moment,
    pins: Seq<usize>,
    playing: Seq<usize>,
    online: Seq<usize>,
    offline: Seq<usize>,
)
    requires
        rows_are(
            rows,
            friends,
            pinned,
            notify,
            needle,
            offline_collapsed,
            now,
            pins,
            playing,
            online,
            offline,
        ),
    ensures
        rows_show(
            friends_of(rows),
            unfolded(pins, playing, online, offline, offline_collapsed),
            friends,
            pinned,
            notify,
            now,
        ),
{
    let a = section_height(pins, false);
    let b = a + section_height(playing, false);
    let c = b + section_height(online, false);
    let d = c + section_height(offline, offline_collapsed);
    let one = rows.subrange(0, a);
    let two = rows.subrange(a, b);
    let three = rows.subrange(b, c);
    let four = rows.subrange(c, d);
    let last = if offline_collapsed {
        Seq::empty()
    } else {
        offline
    };
    lemma_friends_of_section(
        rows,
        0,
        pins,
        friends,
        Section::Pinned,
        false,
        pinned,
        notify,
        now,
    );
    lemma_friends_of_section(
        rows,
        a,
        playing,
        friends,
        Section::InGame,
        false,
        pinned,
        notify,
        now,
    );
    lemma_friends_of_section(
        rows,
        b,
        online,
        friends,
        Section::Online,
        false,
        pinned,
        notify,
        now,
    );
    lemma_friends_of_section(
        rows,
        c,
        offline,
        friends,
        Section::Offline,
        offline_collapsed,
        pinned,
        notify,
        now,
    );
    assert(rows =~= one + two + three + four);
    lemma_friends_of_add(one + two + three, four);
    lemma_friends_of_add(one + two, three);
    lemma_friends_of_add(one, two);
    lemma_rows_show_add(
        friends_of(one),
        pins,
        friends_of(two),
        playing,
        friends,
        pinned,
        notify,
        now,
    );
    lemma_rows_show_add(
        friends_of(one + two),
        pins + playing,
        friends_of(three),
        online,
        friends,
        pinned,
        notify,
        now,
    );
    lemma_rows_show_add(
        friends_of(one + two + three),
        pins + playing + online,
        friends_of(four),
        last,
        friends,
        pinned,
        notify,
        now,
    );
}

proof fn lemma_matching(
    rows: Seq<FriendRow>,
    members: Seq<usize>,
    friends: Seq<FriendInput>,
    pinned: Seq<String>,
    notify: Seq<String>,
    now: Moment,
    needle: Seq<char>,
)
    requires
        rows_show(rows, members, friends, pinned, notify, now),
    ensures
        rows_show(
            matching(rows, needle),
            those_matching(members, friends, needle),
            friends,
            pinned,
            notify,
            now,
        ),
    decreases rows.len(),
{
    reveal(Seq::filter);
    if rows.len() > 0 {
        let r = rows.last();
        let k = members.last();
        assert(row_shows(rows[rows.len() - 1], friends[k as int], pinned, notify, now));
        assert forall|i: int| 0 <= i < rows.drop_last().len() implies row_shows(
            #[trigger] rows.drop_last()[i],
            friends[members.drop_last()[i] as int],
            pinned,
            notify,
            now,
        ) by {
            assert(rows.drop_last()[i] == rows[i]);
        }
        lemma_matching(
            rows.drop_last(),
            members.drop_last(),
            friends,
            pinned,
            notify,
            now,
            needle,
        );
        assert(row_matches(r, needle) == matches_needle(friends[k as int], needle));
    }
}

/// Leaving members out keeps the others in their order.
proof fn lemma_those_matching_ordered(
    members: Seq<usize>,
    friends: Seq<FriendInput>,
    s: Section,
    needle: Seq<char>,
)
    requires
        forall|i: int, j: int|
            0 <= i < j < members.len() ==> #[trigger] members[i] != #[trigger] members[j]
                && listed_before(friends, s, members[i] as int, members[j] as int),
    ensures
        ({
            let kept = those_matching(members, friends, needle);
            &&& forall|i: int| 0 <= i < kept.len() ==> members.contains(#[trigger] kept[i])
            &&& forall|i: int, j: int|
                0 <= i < j < kept.len() ==> #[trigger] kept[i] != #[trigger] kept[j]
                    && listed_before(friends, s, kept[i] as int, kept[j] as int)
        }),
    decreases members.len(),
{
    reveal(Seq::filter);
    let kept = those_matching(members, friends, needle);
    if members.len() > 0 {
        let fewer = members.drop_last();
        let before = those_matching(fewer, friends, needle);
        let last = members.last();
        assert forall|i: int, j: int| 0 <= i < j < fewer.len() implies #[trigger] fewer[i]
            != #[trigger] fewer[j] && listed_before(
            friends,
            s,
            fewer[i] as int,
            fewer[j] as int,
        ) by {
            assert(fewer[i] == members[i] && fewer[j] == members[j]);
        }
        lemma_those_matching_ordered(fewer, friends, s, needle);
        assert(kept == before || kept == before.push(last));
        assert forall|i: int| 0 <= i < before.len() implies members.contains(before[i])
            && #[trigger] before[i] != last && listed_before(
            friends,
            s,
            before[i] as int,
            last as int,
        ) by {
            assert(fewer.contains(before[i]));
            let p = choose|p: int| 0 <= p < fewer.len() && fewer[p] == before[i];
            assert(members[p] == before[i]);
            assert(members[members.len() - 1] == last);
        }
        assert forall|i: int| 0 <= i < kept.len() implies members.contains(#[trigger] kept[i]) by {
            if i < before.len() {
                assert(kept[i] == before[i]);
            } else {
                assert(members[members.len() - 1] == last);
            }
        }
        assert forall|i: int, j: int| 0 <= i < j < kept.len() implies #[trigger] kept[i]
            != #[trigger] kept[j] && listed_before(friends, s, kept[i] as int, kept[j] as int) by {
            assert(kept[i] == before[i]);
            if j < before.len() {
                assert(kept[j] == before[j]);
            }
        }
    }
}

/// The members of a section under a filter are those that match among its
/// members without one.
proof fn lemma_section_narrows(
    friends: Seq<FriendInput>,
    pinned: Seq<String>,
    none: Seq<char>,
    needle: Seq<char>,
    s: Section,
    all: Seq<usize>,
    some: Seq<usize>,
)
    requires
        friends.len() <= usize::MAX,
        none.len() == 0,
        is_section(all, friends, s, pinned, none),
        is_section(some, friends, s, pinned, needle),
    ensures
        some == those_matching(all, friends, needle),
{
    broadcast use {Seq::lemma_filter_pred, Seq::lemma_filter_contains};

    let kept = those_matching(all, friends, needle);
    let p = |k: usize| matches_needle(friends[k as int], needle);
    lemma_those_matching_ordered(all, friends, s, needle);
    assert forall|i: int| 0 <= i < kept.len() implies #[trigger] kept[i] < friends.len() && belongs(
        friends[kept[i] as int],
        s,
        pinned,
        needle,
    ) by {
        assert(p(all.filter(p)[i]));
        assert(all.contains(kept[i]));
        let j = choose|j: int| 0 <= j < all.len() && all[j] == kept[i];
        assert(belongs(friends[all[j] as int], s, pinned, none));
    }
    assert forall|k: int|
        0 <= k < friends.len() && belongs(
            #[trigger] friends[k],
            s,
            pinned,
            needle,
        ) implies kept.contains(k as usize) by {
        assert(belongs(friends[k], s, pinned, none));
        assert(all.contains(k as usize));
        let j = choose|j: int| 0 <= j < all.len() && all[j] == k as usize;
        assert(p(all[j]));
        assert(all.filter(p).contains(all[j]));
    }
    law_section_order_is_settled(friends, pinned, needle, s, some, kept);
}

/// Who can be played with comes first: somebody in a game before somebody online,
/// those before somebody in the editor, and those before everybody else.
pub proof fn law_who_comes_first(presence: i32)
    ensures
        rank_of(2) < rank_of(1),
        rank_of(1) < rank_of(3),
        presence != 1 && presence != 2 && presence != 3 ==> rank_of(3) < rank_of(presence)
            && rank_of(presence) == rank_of(0),
{
}

/// The line under a name: what is being played, where that is known, and otherwise
/// what the friend is up to.
pub proof fn law_lines_under_names(f: FriendInput, now: Moment)
    ensures
        f.presence == 2 && f.location@.len() > 0 ==> subtitle_text(f, now) == "Playing "@
            + f.location@,
        f.presence == 2 && f.location@.len() == 0 ==> subtitle_text(f, now) == "In game"@,
        f.presence == 1 ==> subtitle_text(f, now) == "Online"@,
        f.presence == 3 ==> subtitle_text(f, now) == "In Studio"@,
{
}

/// What somebody is up to who is no friend yet: nothing is said of one who is not
/// there.
pub proof fn law_what_somebody_is_up_to(p: Presence)
    ensures
        match p.kind {
            PresenceKind::InGame => presence_text(p) == (if p.location@.len() == 0 {
                "In game"@
            } else {
                "Playing "@ + p.location@
            }),
            PresenceKind::Online => presence_text(p) == "Online"@,
            PresenceKind::InStudio => presence_text(p) == "In Studio"@,
            PresenceKind::Offline => presence_text(p).len() == 0,
            PresenceKind::Invisible => presence_text(p).len() == 0,
        },
{
}

/// A search looks at the name and at the user name, in any case of their letters, and
/// without white space around what is looked for; an empty one finds everybody.
pub proof fn law_what_a_search_finds(f: FriendInput, filter: Seq<char>)
    ensures
        matches_needle(f, needle_of(filter)) <==> lowercase(trimmed(filter)).len() == 0 || occurs(
            lowercase(f.name@),
            lowercase(trimmed(filter)),
        ) || occurs(lowercase(f.username@), lowercase(trimmed(filter))),
{
}

/// Where a friend is listed: on top where they are pinned, and otherwise by what they
/// are up to. The editor counts as online, and hiding as being away. A friend whom
/// the search does not find is listed nowhere.
pub proof fn law_where_a_friend_is_listed(
    f: FriendInput,
    s: Section,
    pinned: Seq<String>,
    needle: Seq<char>,
)
    requires
        0 <= f.presence <= 4,
    ensures
        belongs(f, s, pinned, needle) <==> matches_needle(f, needle) && s == (if lists(
            pinned,
            decimal_int(f.id as int),
        ) {
            Section::Pinned
        } else if f.presence == 2 {
            Section::InGame
        } else if f.presence == 1 || f.presence == 3 {
            Section::Online
        } else {
            Section::Offline
        }),
{
}

/// Within a section friends are listed by name, in any case of its letters, and the
/// pinned ones by what they are up to first: in a game, online, in the editor, away.
pub proof fn law_order_within_a_section(
    members: Seq<usize>,
    friends: Seq<FriendInput>,
    s: Section,
    pinned: Seq<String>,
    needle: Seq<char>,
    i: int,
    j: int,
)
    requires
        is_section(members, friends, s, pinned, needle),
        0 <= i < j < members.len(),
    ensures
        ({
            let a = friends[members[i] as int];
            let b = friends[members[j] as int];
            let names = text_le(lowercase(a.name@), lowercase(b.name@));
            &&& s is InGame || s is Online || s is Offline ==> names
            &&& s is Pinned && a.presence == b.presence ==> names
            &&& s is Pinned && b.presence == 2 ==> a.presence == 2
            &&& s is Pinned && b.presence == 1 ==> a.presence == 2 || a.presence == 1
            &&& s is Pinned && b.presence == 3 ==> 1 <= a.presence <= 3
        }),
{
    assert(members[i] != members[j]);
    assert(listed_before(friends, s, members[i] as int, members[j] as int));
}

/// How many rows some friends take with their heading.
pub open spec fn rows_taken(n: nat) -> int {
    if n == 0 {
        0
    } else {
        n as int + 1
    }
}

/// The list from top to bottom: the pinned friends, those in a game, those online and
/// those away, each group under its heading. A group without anybody has no heading,
/// and only the last can be folded, down to its heading.
pub proof fn law_the_list_from_top_to_bottom(
    rows: Seq<FriendRow>,
    friends: Seq<FriendInput>,
    pinned: Seq<String>,
    notify: Seq<String>,
    needle: Seq<char>,
    offline_collapsed: bool,
    now: Moment,
    pins: Seq<usize>,
    playing: Seq<usize>,
    online: Seq<usize>,
    offline: Seq<usize>,
)
    requires
        rows_are(
            rows,
            friends,
            pinned,
            notify,
            needle,
            offline_collapsed,
            now,
            pins,
            playing,
            online,
            offline,
        ),
    ensures
        ({
            let a = rows_taken(pins.len());
            let b = a + rows_taken(playing.len());
            let c = b + rows_taken(online.len());
            &&& is_section(pins, friends, Section::Pinned, pinned, needle)
            &&& is_section(playing, friends, Section::InGame, pinned, needle)
            &&& is_section(online, friends, Section::Online, pinned, needle)
            &&& is_section(offline, friends, Section::Offline, pinned, needle)
            &&& pins.len() > 0 ==> rows[0].is_header && rows[0].header_label@ == "PINNED"@
                && !rows[0].collapsible
            &&& playing.len() > 0 ==> rows[a].is_header && rows[a].header_label@ == "IN GAME"@
                && !rows[a].collapsible
            &&& online.len() > 0 ==> rows[b].is_header && rows[b].header_label@ == "ONLINE"@
                && !rows[b].collapsible
            &&& offline.len() > 0 ==> rows[c].is_header && rows[c].header_label@ == "OFFLINE"@
                && rows[c].collapsible && rows[c].collapsed == offline_collapsed
            &&& forall|i: int|
                0 <= i < pins.len() ==> (#[trigger] rows[1 + i]).id@ == decimal_int(
                    friends[pins[i] as int].id as int,
                )
            &&& forall|i: int|
                0 <= i < playing.len() ==> (#[trigger] rows[a + 1 + i]).id@ == decimal_int(
                    friends[playing[i] as int].id as int,
                )
            &&& forall|i: int|
                0 <= i < online.len() ==> (#[trigger] rows[b + 1 + i]).id@ == decimal_int(
                    friends[online[i] as int].id as int,
                )
            &&& !offline_collapsed ==> forall|i: int|
                0 <= i < offline.len() ==> (#[trigger] rows[c + 1 + i]).id@ == decimal_int(
                    friends[offline[i] as int].id as int,
                )
            &&& rows.len() == c + (if offline_collapsed && offline.len() > 0 {
                1
            } else {
                rows_taken(offline.len())
            })
        }),
{
    let a = rows_taken(pins.len());
    let b = a + rows_taken(playing.len());
    let c = b + rows_taken(online.len());
    assert(a == section_height(pins, false));
    assert(b == a + section_height(playing, false));
    assert(c == b + section_height(online, false));
    assert(section_at(rows, 0, pins, friends, Section::Pinned, false, pinned, notify, now));
    assert forall|i: int| 0 <= i < pins.len() implies (#[trigger] rows[1 + i]).id@ == decimal_int(
        friends[pins[i] as int].id as int,
    ) by {
        assert(row_shows(rows[0 + 1 + i], friends[pins[i] as int], pinned, notify, now));
    }
}

/// What the row of a friend says, and nothing that is for headings.
pub proof fn law_what_a_row_says(
    r: FriendRow,
    f: FriendInput,
    pinned: Seq<String>,
    notify: Seq<String>,
    now: Moment,
)
    requires
        row_shows(r, f, pinned, notify, now),
    ensures
        r.id@ == decimal_int(f.id as int),
        r.name@ == f.name@,
        r.username@ == f.username@,
        r.presence == f.presence,
        r.joinable == f.joinable,
        r.pinned <==> lists(pinned, decimal_int(f.id as int)),
        r.notify <==> lists(notify, decimal_int(f.id as int)),
        f.place_id matches Some(p) ==> r.place_id@ == decimal_int(p as int),
        f.place_id is None ==> r.place_id@.len() == 0,
        !r.is_header,
        r.subtitle@ == subtitle_text(f, now),
{
}

/// The two numbers above the list count everybody, found by the search or not: those
/// in a game, and those online, in the editor or not.
pub proof fn law_the_numbers_above_the_list(
    v: FriendsView,
    friends: Seq<FriendInput>,
    pinned: Seq<String>,
    notify: Seq<String>,
    filter: Seq<char>,
    offline_collapsed: bool,
    now: Moment,
)
    requires
        view_shows(v, friends, pinned, notify, filter, offline_collapsed, now),
    ensures
        v.in_game == friends.filter(|f: FriendInput| f.presence == 2).len() as i32,
        v.online == friends.filter(|f: FriendInput| f.presence == 1 || f.presence == 3).len() as i32,
{
    assert((|f: FriendInput| is_in_game(f)) =~= (|f: FriendInput| f.presence == 2));
    assert((|f: FriendInput| is_online(f)) =~= (|f: FriendInput| f.presence == 1 || f.presence == 3));
}

/// A heading says what it is for, whether it folds and whether it is folded, and is no
/// friend: it shows no name and offers nothing.
pub proof fn law_what_a_heading_says(
    r: FriendRow,
    label: Seq<char>,
    collapsible: bool,
    collapsed: bool,
)
    requires
        row_heads(r, label, collapsible, collapsed),
    ensures
        r.is_header,
        r.header_label@ == label,
        r.collapsible == collapsible,
        r.collapsed == collapsed,
        r.id@.len() == 0 && r.name@.len() == 0 && r.username@.len() == 0 && r.subtitle@.len() == 0,
        r.place_id@.len() == 0,
        r.presence == 0,
        !r.joinable && !r.pinned && !r.notify,
{
}

} // verus!
