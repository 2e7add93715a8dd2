//! The pages of people and of groups.

use crate::clock::{in_calendar, present, Moment};
use crate::desktop::adapters::{compact, compact_text, GameDetailData};
use crate::desktop::friends::FriendInput;
use crate::desktop::lists::with_text;
use crate::desktop::requests::{rows_without, Reply, Requests};
use crate::desktop::roster::{
    find_friend, friend_at, lemma_friend_at_is_listed, lemma_friend_found, place_of, presence_code,
    presence_number,
};
use crate::launcher::JoinRequest;
use crate::number::{decimal_int, int_text, parse_i64, read_i64};
use crate::roblox::error::Error;
use crate::roblox::friends::{Presence, SocialCounts};
use crate::roblox::groups::{Group, GroupOwner, Membership};
use crate::roblox::models::User;
use crate::roblox::users::{account_age_years_at, age_at};
use crate::text::{cat2, or_empty, same, text_or_empty, texts};
use vstd::prelude::*;

verus! {

/// A profile as it is shown.
pub struct ProfileData {
    pub id: String,
    pub name: String,
    pub username: String,
    pub description: String,
    pub joined: String,
    pub also_known_as: String,
    pub verified: bool,
    pub friends: String,
    pub followers: String,
    pub following: String,
    pub presence: i32,
    pub presence_label: String,
    pub place_id: String,
    pub is_friend: bool,
    pub has_incoming_request: bool,
    pub is_self: bool,
}

/// The names, with commas between them.
pub open spec fn named(names: Seq<Seq<char>>) -> Seq<char>
    decreases names.len(),
{
    if names.len() == 0 {
        Seq::empty()
    } else if names.len() == 1 {
        names[0]
    } else {
        named(names.drop_last()) + ", "@ + names.last()
    }
}

fn join_names(names: &Vec<String>) -> (r: String)
    ensures
        r@ == named(texts(names@)),
{
    let ghost all = texts(names@);
    let mut r = String::new();
    let mut i: usize = 0;
    assert(all.take(0) =~= Seq::<Seq<char>>::empty());
    while i < names.len()
        invariant
            i <= names.len(),
            all == texts(names@),
            r@ == named(all.take(i as int)),
        decreases names.len() - i,
    {
        assert(all.take(i as int + 1).drop_last() =~= all.take(i as int));
        assert(all.take(i as int + 1).last() == names@[i as int]@);
        if i > 0 {
            r.append(", ");
        } else {
            assert(r@ =~= Seq::<char>::empty());
            assert(r@ + names@[0]@ =~= names@[0]@);
        }
        r.append(names[i].as_str());
        i = i + 1;
    }
    assert(all.take(all.len() as int) =~= all);
    r
}

/// How long an account has existed, in years, or a dash.
pub open spec fn joined_text(created: Option<String>, now: Moment) -> Seq<char> {
    match created {
        Some(c) => match age_at(c@, now) {
            Some(y) => decimal_int(y as int) + "y"@,
            None => "—"@,
        },
        None => "—"@,
    }
}

/// Where somebody is.
pub open spec fn whereabouts(presence: Option<&Presence>) -> Seq<char> {
    match presence {
        Some(p) => if p.location@.len() == 0 {
            "Offline"@
        } else {
            p.location@
        },
        None => "Offline"@,
    }
}

/// There is a request of this id among the rows.
pub open spec fn has_request(requests: Requests, id: Seq<char>) -> bool {
    exists|i: int| 0 <= i < requests.rows.len() && (#[trigger] requests.rows@[i]).id@ == id
}

/// The profile shows these.
pub open spec fn profile_shows(
    d: ProfileData,
    user: User,
    previous: Seq<String>,
    counts: SocialCounts,
    presence: Option<&Presence>,
    roster: Seq<FriendInput>,
    requests: Requests,
    user_id: i64,
    me: i64,
    now: Moment,
) -> bool {
    &&& d.id@ == decimal_int(user.id as int)
    &&& d.name@ == user.display_name@
    &&& d.username@ == user.name@
    &&& d.description@ == or_empty(user.description)
    &&& d.joined@ == joined_text(user.created, now)
    &&& d.also_known_as@ == named(texts(previous))
    &&& d.verified == user.has_verified_badge
    &&& d.friends@ == compact_text(counts.friends as int)
    &&& d.followers@ == compact_text(counts.followers as int)
    &&& d.following@ == compact_text(counts.following as int)
    &&& d.presence == (match presence {
        Some(p) => presence_number(p.kind),
        None => 0,
    })
    &&& d.presence_label@ == whereabouts(presence)
    &&& d.place_id@ == (match presence {
        Some(p) => match place_of(*p) {
            Some(n) => decimal_int(n as int),
            None => Seq::empty(),
        },
        None => Seq::empty(),
    })
    &&& d.is_friend == (friend_at(roster, user_id) is Some)
    &&& d.has_incoming_request == has_request(requests, decimal_int(user_id as int))
    &&& d.is_self == (user_id == me)
}

fn asked(requests: &Requests, id: &str) -> (r: bool)
    ensures
        r == has_request(*requests, id@),
{
    let mut i: usize = 0;
    while i < requests.rows.len()
        invariant
            i <= requests.rows.len(),
            forall|k: int| 0 <= k < i ==> (#[trigger] requests.rows@[k]).id@ != id@,
        decreases requests.rows.len() - i,
    {
        if same(requests.rows[i].id.as_str(), id) {
            return true;
        }
        i = i + 1;
    }
    false
}

fn joined_label(created: &Option<String>, now: Moment) -> (r: String)
    ensures
        r@ == joined_text(*created, now),
{
    match created {
        Some(c) => match account_age_years_at(c.as_str(), now) {
            Some(y) => cat2(int_text(y).as_str(), "y"),
            None => "—".to_owned(),
        },
        None => "—".to_owned(),
    }
}

/// A profile at a moment. Whether somebody has asked to be a friend is answered
/// from the requests on screen.
pub fn profile_data_at(
    user: &User,
    previous: &Vec<String>,
    counts: &SocialCounts,
    presence: Option<&Presence>,
    roster: &Vec<FriendInput>,
    requests: &Requests,
    user_id: i64,
    me: i64,
    now: Moment,
) -> (d: ProfileData)
    ensures
        profile_shows(
            d,
            *user,
            previous@,
            *counts,
            presence,
            roster@,
            *requests,
            user_id,
            me,
            now,
        ),
{
    let code: i32 = match presence {
        Some(p) => presence_code(p.kind),
        None => 0,
    };
    let label = match presence {
        Some(p) => if p.location.as_str().is_empty() {
            "Offline".to_owned()
        } else {
            p.location.clone()
        },
        None => "Offline".to_owned(),
    };
    let at: Option<i64> = match presence {
        Some(p) => match p.place_id {
            Some(x) => Some(x),
            None => p.root_place_id,
        },
        None => None,
    };
    let place_id = match at {
        Some(n) => int_text(n),
        None => String::new(),
    };
    let key = int_text(user_id);
    let d = ProfileData {
        id: int_text(user.id),
        name: user.display_name.clone(),
        username: user.name.clone(),
        description: text_or_empty(&user.description),
        joined: joined_label(&user.created, now),
        also_known_as: join_names(previous),
        verified: user.has_verified_badge,
        friends: compact(counts.friends),
        followers: compact(counts.followers),
        following: compact(counts.following),
        presence: code,
        presence_label: label,
        place_id,
        is_friend: find_friend(roster, user_id).is_some(),
        has_incoming_request: asked(requests, key.as_str()),
        is_self: user_id == me,
    };
    assert(at is None ==> d.place_id@ =~= Seq::<char>::empty());
    d
}

/// A profile as it is now.
pub fn open_profile(
    user: &User,
    previous: &Vec<String>,
    counts: &SocialCounts,
    presence: Option<&Presence>,
    roster: &Vec<FriendInput>,
    requests: &Requests,
    user_id: i64,
    me: i64,
) -> (d: ProfileData)
    ensures
        exists|now: Moment|
            in_calendar(now) && now.secs >= 0 && #[trigger] profile_shows(
                d,
                *user,
                previous@,
                *counts,
                presence,
                roster@,
                *requests,
                user_id,
                me,
                now,
            ),
{
    let now = present();
    profile_data_at(user, previous, counts, presence, roster, requests, user_id, me, now)
}

/// Whether a profile is the user's own, whose text can be edited.
pub fn is_own(user_id: i64, me: i64) -> (r: bool)
    ensures
        r == (user_id != 0 && user_id == me),
{
    user_id != 0 && user_id == me
}

/// What a click leads to.
#[derive(Debug, Clone, Copy, PartialEq, Eq, Structural)]
pub enum Page {
    Profile(i64),
    Group(i64),
}

/// The page of who made a game. A game without a maker has none.
pub fn open_creator(game: &GameDetailData) -> (r: Option<Page>)
    ensures
        r == (match read_i64(game.creator_id@) {
            Some(id) => if id == 0 {
                None
            } else if game.creator_is_group {
                Some(Page::Group(id))
            } else {
                Some(Page::Profile(id))
            },
            None => None,
        }),
{
    match parse_i64(game.creator_id.as_str()) {
        Some(id) => if id == 0 {
            None
        } else if game.creator_is_group {
            Some(Page::Group(id))
        } else {
            Some(Page::Profile(id))
        },
        None => None,
    }
}

/// The page of who owns a group.
pub fn open_group_owner(g: &GroupData) -> (r: Option<Page>)
    ensures
        r == (match read_i64(g.owner_id@) {
            Some(id) => Some(Page::Profile(id)),
            None => None,
        }),
{
    match parse_i64(g.owner_id.as_str()) {
        Some(id) => Some(Page::Profile(id)),
        None => None,
    }
}

/// Our own page. Before the account's number is known there is none.
pub fn open_my_profile(me: i64) -> (r: Option<Page>)
    ensures
        r == (if me == 0 {
            None
        } else {
            Some(Page::Profile(me))
        }),
{
    if me == 0 {
        None
    } else {
        Some(Page::Profile(me))
    }
}

/// What is launched to join somebody from their profile.
pub fn profile_join(p: &ProfileData) -> (r: Option<JoinRequest>)
    ensures
        match (r, read_i64(p.place_id@)) {
            (Some(req), Some(place)) => req.place_id == place && req.root_place_id == place
                && req.job_id is None && req.access_code is None && req.link_code is None,
            (None, None) => true,
            _ => false,
        },
{
    match parse_i64(p.place_id.as_str()) {
        Some(place) => Some(JoinRequest::place(place)),
        None => None,
    }
}

/// Answer the request of the profile that is open, as the friends list does: it
/// counts as answered at once.
pub fn answer_request(p: &mut ProfileData, requests: &mut Requests, accept: bool) -> (r: Option<
    Reply,
>)
    ensures
        match read_i64(old(p).id@) {
            Some(user) => {
                &&& r == Some(if accept { Reply::Accept(user) } else { Reply::Decline(user) })
                &&& *final(p) == (ProfileData {
                    has_incoming_request: false,
                    is_friend: accept,
                    ..*old(p)
                })
                &&& texts(final(requests).handled@) == with_text(
                    texts(old(requests).handled@),
                    decimal_int(user as int),
                )
                &&& final(requests).rows@ == rows_without(
                    old(requests).rows@,
                    decimal_int(user as int),
                )
                &&& final(requests).busy == old(requests).busy
                &&& final(requests).status == old(requests).status
            },
            None => r is None && *final(p) == *old(p) && *final(requests) == *old(requests),
        },
{
    match parse_i64(p.id.as_str()) {
        Some(user) => {
            p.has_incoming_request = false;
            p.is_friend = accept;
            requests.handle(user);
            if accept {
                Some(Reply::Accept(user))
            } else {
                Some(Reply::Decline(user))
            }
        },
        None => None,
    }
}

/// End a friendship: it is shown as ended at once.
pub fn unfriend(p: &mut ProfileData) -> (r: Option<i64>)
    ensures
        r == read_i64(old(p).id@),
        *final(p) == (if r is Some {
            ProfileData { is_friend: false, ..*old(p) }
        } else {
            *old(p)
        }),
{
    match parse_i64(p.id.as_str()) {
        Some(user) => {
            p.is_friend = false;
            Some(user)
        },
        None => None,
    }
}

/// The friendship was ended, or was not: then it is shown again.
pub fn unfriended(p: &mut ProfileData, done: bool)
    ensures
        *final(p) == (if done {
            *old(p)
        } else {
            ProfileData { is_friend: true, ..*old(p) }
        }),
{
    if !done {
        p.is_friend = true;
    }
}

/// The text about the user, while it is edited.
pub struct Bio {
    pub busy: bool,
    pub status: String,
}

impl Bio {
    pub fn new() -> (b: Bio)
        ensures
            !b.busy,
            b.status@.len() == 0,
    {
        Bio { busy: false, status: String::new() }
    }

    /// Save the text, unless it is being saved.
    pub fn save_description(&mut self) -> (send: bool)
        ensures
            send == !old(self).busy,
            final(self).busy,
            send ==> final(self).status@.len() == 0,
            !send ==> *final(self) == *old(self),
    {
        if self.busy {
            return false;
        }
        self.busy = true;
        self.status = String::new();
        true
    }

    /// The text was saved, or was not.
    pub fn saved(
        &mut self,
        p: &mut ProfileData,
        text: String,
        result: &std::result::Result<(), Error>,
    )
        ensures
            !final(self).busy,
            match *result {
                Ok(_) => final(self).status@ == "Saved"@ && *final(p) == (ProfileData {
                    description: text,
                    ..*old(p)
                }),
                Err(e) => final(self).status@ == "Could not save: "@ + e.words() && *final(p)
                    == *old(p),
            },
    {
        self.busy = false;
        match result {
            Ok(_) => {
                p.description = text;
                self.status = "Saved".to_owned();
            },
            Err(e) => {
                self.status = cat2("Could not save: ", e.message().as_str());
            },
        }
    }
}

/// A line of the groups of somebody.
pub struct GroupRow {
    pub id: String,
    pub name: String,
    pub role: String,
    pub members: String,
}

pub open spec fn group_row_shows(r: GroupRow, m: Membership) -> bool {
    &&& r.id@ == decimal_int(m.group.id as int)
    &&& r.name@ == m.group.name@
    &&& r.role@ == m.role.name@
    &&& r.members@ == compact_text(m.group.member_count as int)
}

/// The groups of somebody as lines.
pub fn group_rows(list: &Vec<Membership>) -> (rows: Vec<GroupRow>)
    ensures
        rows.len() == list.len(),
        forall|i: int| 0 <= i < rows.len() ==> group_row_shows(#[trigger] rows@[i], list@[i]),
{
    let mut rows: Vec<GroupRow> = Vec::new();
    let mut i: usize = 0;
    while i < list.len()
        invariant
            i <= list.len(),
            rows.len() == i,
            forall|k: int| 0 <= k < i ==> group_row_shows(#[trigger] rows@[k], list@[k]),
        decreases list.len() - i,
    {
        let m = &list[i];
        rows.push(
            GroupRow {
                id: int_text(m.group.id),
                name: m.group.name.clone(),
                role: m.role.name.clone(),
                members: compact(m.group.member_count),
            },
        );
        i = i + 1;
    }
    rows
}

/// A group as it is shown.
pub struct GroupData {
    pub id: String,
    pub name: String,
    pub description: String,
    pub members: String,
    pub role: String,
    pub shout: String,
    pub shout_by: String,
    pub owner: String,
    pub owner_id: String,
    pub is_member: bool,
    pub open_entry: bool,
}

/// The first membership in a group.
pub open spec fn membership_in(mine: Seq<Membership>, group: i64) -> Option<Membership>
    decreases mine.len(),
{
    if mine.len() == 0 {
        None
    } else if mine[0].group.id == group {
        Some(mine[0])
    } else {
        membership_in(mine.skip(1), group)
    }
}

pub fn find_membership(mine: &Vec<Membership>, group: i64) -> (r: Option<&Membership>)
    ensures
        match r {
            Some(m) => membership_in(mine@, group) == Some(*m),
            None => membership_in(mine@, group) is None,
        },
{
    let mut i: usize = 0;
    assert(mine@.skip(0) =~= mine@);
    while i < mine.len()
        invariant
            i <= mine.len(),
            membership_in(mine@, group) == membership_in(mine@.skip(i as int), group),
        decreases mine.len() - i,
    {
        assert(mine@.skip(i as int)[0] == mine@[i as int]);
        assert(mine@.skip(i as int).skip(1) =~= mine@.skip(i as int + 1));
        if mine[i].group.id == group {
            return Some(&mine[i]);
        }
        i = i + 1;
    }
    None
}

pub open spec fn shown_name(o: Option<GroupOwner>) -> Seq<char> {
    match o {
        Some(x) => x.display_name@,
        None => Seq::empty(),
    }
}

fn name_of(o: &Option<GroupOwner>) -> (r: String)
    ensures
        r@ == shown_name(*o),
{
    match o {
        Some(x) => x.display_name.clone(),
        None => {
            let r = String::new();
            assert(r@ =~= Seq::<char>::empty());
            r
        },
    }
}

/// The group is shown so, to somebody with these memberships.
pub open spec fn group_shows(d: GroupData, g: Group, membership: Option<Membership>) -> bool {
    &&& d.id@ == decimal_int(g.id as int)
    &&& d.name@ == g.name@
    &&& d.description@ == or_empty(g.description)
    &&& d.members@ == compact_text(g.member_count as int)
    &&& d.role@ == (match membership {
        Some(m) => m.role.name@,
        None => Seq::empty(),
    })
    &&& d.shout@ == (match g.shout {
        Some(s) => s.body@,
        None => Seq::empty(),
    })
    &&& d.shout_by@ == (match g.shout {
        Some(s) => shown_name(s.poster),
        None => Seq::empty(),
    })
    &&& d.owner@ == shown_name(g.owner)
    &&& d.owner_id@ == decimal_int(
        match g.owner {
            Some(o) => o.user_id as int,
            None => 0,
        },
    )
    &&& d.is_member == (membership is Some)
    &&& d.open_entry == g.public_entry_allowed
}

/// A group as it is shown to somebody with these memberships.
pub fn open_group(g: &Group, mine: &Vec<Membership>, group_id: i64) -> (d: GroupData)
    ensures
        group_shows(d, *g, membership_in(mine@, group_id)),
{
    let membership = find_membership(mine, group_id);
    let role = match membership {
        Some(m) => m.role.name.clone(),
        None => String::new(),
    };
    let (shout, shout_by) = match &g.shout {
        Some(s) => (s.body.clone(), name_of(&s.poster)),
        None => (String::new(), String::new()),
    };
    let owner_id: i64 = match &g.owner {
        Some(o) => o.user_id,
        None => 0,
    };
    assert(membership is None ==> role@ =~= Seq::<char>::empty());
    assert(g.shout is None ==> shout@ =~= Seq::<char>::empty());
    assert(g.shout is None ==> shout_by@ =~= Seq::<char>::empty());
    GroupData {
        id: int_text(g.id),
        name: g.name.clone(),
        description: text_or_empty(&g.description),
        members: compact(g.member_count),
        role,
        shout,
        shout_by,
        owner: name_of(&g.owner),
        owner_id: int_text(owner_id),
        is_member: membership.is_some(),
        open_entry: g.public_entry_allowed,
    }
}

/// A group was joined, or was not.
pub fn group_joined(g: &mut GroupData, done: bool)
    ensures
        final(g).is_member == (done || old(g).is_member),
        final(g).role@ == (if done { "Member"@ } else { old(g).role@ }),
        final(g).id == old(g).id,
        final(g).name == old(g).name,
        final(g).description == old(g).description,
        final(g).members == old(g).members,
        final(g).shout == old(g).shout,
        final(g).shout_by == old(g).shout_by,
        final(g).owner == old(g).owner,
        final(g).owner_id == old(g).owner_id,
        final(g).open_entry == old(g).open_entry,
{
    if done {
        g.is_member = true;
        g.role = "Member".to_owned();
    }
}

/// A group was left, or was not.
pub fn group_left(g: &mut GroupData, done: bool)
    ensures
        final(g).is_member == (!done && old(g).is_member),
        final(g).role@ == (if done { Seq::<char>::empty() } else { old(g).role@ }),
        final(g).id == old(g).id,
        final(g).name == old(g).name,
        final(g).description == old(g).description,
        final(g).members == old(g).members,
        final(g).shout == old(g).shout,
        final(g).shout_by == old(g).shout_by,
        final(g).owner == old(g).owner,
        final(g).owner_id == old(g).owner_id,
        final(g).open_entry == old(g).open_entry,
{
    if done {
        g.is_member = false;
        g.role = String::new();
        assert(g.role@ =~= Seq::<char>::empty());
    }
}

/// The names somebody had before stand one after the other, with commas between them.
pub proof fn law_former_names_are_listed(names: Seq<Seq<char>>, name: Seq<char>)
    ensures
        named(Seq::empty()).len() == 0,
        named(names.push(name)) == (if names.len() == 0 {
            name
        } else {
            named(names) + seq![',', ' '] + name
        }),
{
    reveal_strlit(", ");
    assert(", "@ =~= seq![',', ' ']);
    assert(names.push(name).drop_last() =~= names);
}

/// What a profile says of somebody, each thing under its own name: who they are, how
/// long they have been there, whom they know, and where they can be joined, which is
/// the place they are in, or else the root of it.
pub proof fn law_what_a_profile_says(
    d: ProfileData,
    user: User,
    previous: Seq<String>,
    counts: SocialCounts,
    presence: Option<&Presence>,
    roster: Seq<FriendInput>,
    requests: Requests,
    user_id: i64,
    me: i64,
    now: Moment,
)
    requires
        profile_shows(d, user, previous, counts, presence, roster, requests, user_id, me, now),
    ensures
        d.id@ == decimal_int(user.id as int),
        d.name@ == user.display_name@,
        d.username@ == user.name@,
        d.description@ == (match user.description {
            Some(t) => t@,
            None => Seq::empty(),
        }),
        d.verified == user.has_verified_badge,
        d.friends@ == compact_text(counts.friends as int),
        d.followers@ == compact_text(counts.followers as int),
        d.following@ == compact_text(counts.following as int),
        d.also_known_as@ == named(texts(previous)),
        d.is_self <==> user_id == me,
        d.is_friend <==> exists|i: int| 0 <= i < roster.len() && (#[trigger] roster[i]).id == user_id,
        d.has_incoming_request <==> exists|i: int|
            0 <= i < requests.rows.len() && (#[trigger] requests.rows@[i]).id@ == decimal_int(
                user_id as int,
            ),
        presence matches Some(p) ==> {
            &&& p.place_id matches Some(n) ==> d.place_id@ == decimal_int(n as int)
            &&& p.place_id is None ==> (p.root_place_id matches Some(n) ==> d.place_id@
                == decimal_int(n as int))
            &&& p.place_id is None && p.root_place_id is None ==> d.place_id@.len() == 0
            &&& d.presence_label@ == (if p.location@.len() == 0 {
                "Offline"@
            } else {
                p.location@
            })
            &&& d.presence == presence_number(p.kind)
        },
        presence is None ==> d.place_id@.len() == 0 && d.presence == 0 && d.presence_label@
            == "Offline"@,
        user.created is None ==> d.joined@ == "—"@,
        user.created matches Some(c) ==> (match age_at(c@, now) {
            Some(y) => d.joined@ == decimal_int(y as int) + "y"@,
            None => d.joined@ == "—"@,
        }),
{
    if friend_at(roster, user_id) is Some {
        lemma_friend_at_is_listed(roster, user_id);
        let f = friend_at(roster, user_id)->0;
        let k = choose|k: int| 0 <= k < roster.len() && roster[k] == f;
        assert(roster[k].id == user_id);
    }
    if exists|i: int| 0 <= i < roster.len() && (#[trigger] roster[i]).id == user_id {
        let i = choose|i: int| 0 <= i < roster.len() && (#[trigger] roster[i]).id == user_id;
        lemma_friend_found(roster, user_id, i);
    }
}

/// The line of a group says which it is, what one is in it, and how large it is.
pub proof fn law_what_the_line_of_a_group_says(r: GroupRow, m: Membership)
    requires
        group_row_shows(r, m),
    ensures
        r.id@ == decimal_int(m.group.id as int),
        r.name@ == m.group.name@,
        r.role@ == m.role.name@,
        r.members@ == compact_text(m.group.member_count as int),
{
}

/// What the page of a group says, to a member and to somebody who is none.
pub proof fn law_what_the_page_of_a_group_says(
    d: GroupData,
    g: Group,
    membership: Option<Membership>,
)
    requires
        group_shows(d, g, membership),
    ensures
        d.id@ == decimal_int(g.id as int),
        d.name@ == g.name@,
        d.members@ == compact_text(g.member_count as int),
        d.description@ == (match g.description {
            Some(t) => t@,
            None => Seq::empty(),
        }),
        d.is_member <==> membership is Some,
        membership matches Some(m) ==> d.role@ == m.role.name@,
        membership is None ==> d.role@.len() == 0,
        g.owner matches Some(o) ==> d.owner@ == o.display_name@ && d.owner_id@ == decimal_int(
            o.user_id as int,
        ),
        g.owner is None ==> d.owner@.len() == 0 && d.owner_id@ == decimal_int(0),
        g.shout matches Some(s) ==> d.shout@ == s.body@ && d.shout_by@ == (match s.poster {
            Some(o) => o.display_name@,
            None => Seq::empty(),
        }),
        g.shout is None ==> d.shout@.len() == 0 && d.shout_by@.len() == 0,
        d.open_entry == g.public_entry_allowed,
{
}

/// One is a member of the groups one has a membership in, the first of several.
pub proof fn law_memberships_are_found(mine: Seq<Membership>, group: i64, k: int)
    requires
        0 <= k <= mine.len(),
        forall|j: int| 0 <= j < k ==> (#[trigger] mine[j]).group.id != group,
        k < mine.len() ==> mine[k].group.id == group,
    ensures
        membership_in(mine, group) == (if k < mine.len() {
            Some(mine[k])
        } else {
            None
        }),
    decreases k,
{
    if k > 0 {
        assert(mine[0].group.id != group);
        assert forall|j: int| 0 <= j < k - 1 implies (#[trigger] mine.skip(1)[j]).group.id
            != group by {
            assert(mine.skip(1)[j] == mine[j + 1]);
        }
        if k < mine.len() {
            assert(mine.skip(1)[k - 1] == mine[k]);
        }
        law_memberships_are_found(mine.skip(1), group, k - 1);
    }
}

} // verus!
