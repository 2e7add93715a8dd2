//! The friends list as it is put together from what the service says and from
//! the names that are remembered.
//!
//! Names are looked up once and kept. Resolving them on demand is what gets an
//! account limited.

use crate::desktop::friends::{FriendInput, FriendRow};
use crate::launcher::JoinRequest;
use crate::number::{
    decimal_int, int_text, law_decimal_reads_back, parse_i64, read_i64, read_int,
};
use crate::roblox::friends::{Presence, PresenceKind};
use crate::roblox::models::User;
use crate::roblox::users::BATCH;
use crate::text::{cat2, copy_opt, opt_text, or_empty, text_or_empty};
use std::collections::HashMap;
use vstd::prelude::*;

verus! {

/// What is remembered of a user.
pub struct CachedUser {
    pub username: String,
    pub display_name: String,
    pub avatar_url: String,
    pub verified: bool,
    /// When it was learned.
    pub ts: i64,
}

/// The ids that nothing is remembered of.
pub open spec fn unseen(ids: Seq<i64>, cached: Map<i64, CachedUser>) -> Seq<i64>
    decreases ids.len(),
{
    if ids.len() == 0 {
        Seq::empty()
    } else {
        let before = unseen(ids.drop_last(), cached);
        if cached.dom().contains(ids.last()) {
            before
        } else {
            before.push(ids.last())
        }
    }
}

/// The ids that are looked up this time: one batch at most.
pub open spec fn looked_up(ids: Seq<i64>, cached: Map<i64, CachedUser>) -> Seq<i64> {
    let all = unseen(ids, cached);
    if all.len() > BATCH {
        all.take(BATCH as int)
    } else {
        all
    }
}

/// The users to look up: those that nothing is remembered of, one batch at most.
pub fn to_resolve(ids: &Vec<i64>, cached: &HashMap<i64, CachedUser>) -> (out: Vec<i64>)
    ensures
        out@ == looked_up(ids@, cached@),
{
    broadcast use vstd::std_specs::hash::group_hash_axioms;

    let mut out: Vec<i64> = Vec::new();
    let mut i: usize = 0;
    assert(ids@.take(0) =~= Seq::<i64>::empty());
    while i < ids.len()
        invariant
            i <= ids.len(),
            out@ == unseen(ids@.take(i as int), cached@),
        decreases ids.len() - i,
    {
        assert(ids@.take(i as int + 1).drop_last() =~= ids@.take(i as int));
        if !cached.contains_key(&ids[i]) {
            out.push(ids[i]);
        }
        i = i + 1;
    }
    assert(ids@.take(ids@.len() as int) =~= ids@);
    let ghost all = out@;
    if out.len() > BATCH {
        out.truncate(BATCH);
        assert(out@ =~= all.take(BATCH as int));
    }
    out
}

/// The picture of a user: the one that was fetched, or else the one that is
/// remembered.
pub open spec fn avatar_of(
    id: i64,
    avatars: Map<i64, String>,
    cached: Map<i64, CachedUser>,
) -> Seq<char> {
    if avatars.dom().contains(id) {
        avatars[id]@
    } else if cached.dom().contains(id) {
        cached[id].avatar_url@
    } else {
        Seq::empty()
    }
}

/// The picture of a user, or nothing.
pub fn avatar_url(
    id: i64,
    avatars: &HashMap<i64, String>,
    cached: &HashMap<i64, CachedUser>,
) -> (r: String)
    ensures
        r@ == avatar_of(id, avatars@, cached@),
{
    broadcast use vstd::std_specs::hash::group_hash_axioms;

    match avatars.get(&id) {
        Some(url) => url.clone(),
        None => match cached.get(&id) {
            Some(c) => c.avatar_url.clone(),
            None => String::new(),
        },
    }
}

/// What is remembered from now on of a user that was looked up.
pub fn remembered(
    u: &User,
    avatars: &HashMap<i64, String>,
    cached: &HashMap<i64, CachedUser>,
    now: i64,
) -> (c: CachedUser)
    ensures
        c.username@ == u.name@,
        c.display_name@ == u.display_name@,
        c.avatar_url@ == avatar_of(u.id, avatars@, cached@),
        c.verified == u.has_verified_badge,
        c.ts == now,
{
    CachedUser {
        username: u.name.clone(),
        display_name: u.display_name.clone(),
        avatar_url: avatar_url(u.id, avatars, cached),
        verified: u.has_verified_badge,
        ts: now,
    }
}

/// The first user of an id.
pub open spec fn user_of(users: Seq<User>, id: i64) -> Option<User>
    decreases users.len(),
{
    if users.len() == 0 {
        None
    } else if users[0].id == id {
        Some(users[0])
    } else {
        user_of(users.skip(1), id)
    }
}

fn find_user(users: &Vec<User>, id: i64) -> (r: Option<&User>)
    ensures
        match r {
            Some(u) => user_of(users@, id) == Some(*u),
            None => user_of(users@, id) is None,
        },
{
    let mut i: usize = 0;
    assert(users@.skip(0) =~= users@);
    while i < users.len()
        invariant
            i <= users.len(),
            user_of(users@, id) == user_of(users@.skip(i as int), id),
        decreases users.len() - i,
    {
        assert(users@.skip(i as int)[0] == users@[i as int]);
        assert(users@.skip(i as int).skip(1) =~= users@.skip(i as int + 1));
        if users[i].id == id {
            return Some(&users[i]);
        }
        i = i + 1;
    }
    None
}

/// The name that is shown of a user and the one below it: as they were looked
/// up, or as they are remembered, or else the number.
pub open spec fn names_of(id: i64, fetched: Seq<User>, cached: Map<i64, CachedUser>) -> (
    Seq<char>,
    Seq<char>,
) {
    match user_of(fetched, id) {
        Some(u) => (u.display_name@, u.name@),
        None => if cached.dom().contains(id) {
            (cached[id].display_name@, cached[id].username@)
        } else {
            ("User "@ + decimal_int(id as int), "User "@ + decimal_int(id as int))
        },
    }
}

fn names(id: i64, fetched: &Vec<User>, cached: &HashMap<i64, CachedUser>) -> (r: (String, String))
    ensures
        (r.0@, r.1@) == names_of(id, fetched@, cached@),
{
    broadcast use vstd::std_specs::hash::group_hash_axioms;

    match find_user(fetched, id) {
        Some(u) => (u.display_name.clone(), u.name.clone()),
        None => match cached.get(&id) {
            Some(c) => (c.display_name.clone(), c.username.clone()),
            None => (
                cat2("User ", int_text(id).as_str()),
                cat2("User ", int_text(id).as_str()),
            ),
        },
    }
}

/// The first presence of a user.
pub open spec fn presence_for(list: Seq<Presence>, id: i64) -> Option<Presence>
    decreases list.len(),
{
    if list.len() == 0 {
        None
    } else if list[0].user_id == id {
        Some(list[0])
    } else {
        presence_for(list.skip(1), id)
    }
}

pub fn find_presence(list: &Vec<Presence>, id: i64) -> (r: Option<&Presence>)
    ensures
        match r {
            Some(p) => presence_for(list@, id) == Some(*p),
            None => presence_for(list@, id) is None,
        },
{
    let mut i: usize = 0;
    assert(list@.skip(0) =~= list@);
    while i < list.len()
        invariant
            i <= list.len(),
            presence_for(list@, id) == presence_for(list@.skip(i as int), id),
        decreases list.len() - i,
    {
        assert(list@.skip(i as int)[0] == list@[i as int]);
        assert(list@.skip(i as int).skip(1) =~= list@.skip(i as int + 1));
        if list[i].user_id == id {
            return Some(&list[i]);
        }
        i = i + 1;
    }
    None
}

/// The number that stands for what somebody is up to. One who hides counts as
/// offline.
pub open spec fn presence_number(k: PresenceKind) -> i32 {
    match k {
        PresenceKind::Online => 1,
        PresenceKind::InGame => 2,
        PresenceKind::InStudio => 3,
        _ => 0,
    }
}

pub fn presence_code(k: PresenceKind) -> (r: i32)
    ensures
        r == presence_number(k),
{
    match k {
        PresenceKind::Online => 1,
        PresenceKind::InGame => 2,
        PresenceKind::InStudio => 3,
        _ => 0,
    }
}

/// The place somebody can be joined at: where they are, or else the root of it.
pub open spec fn place_of(p: Presence) -> Option<i64> {
    match p.place_id {
        Some(x) => Some(x),
        None => p.root_place_id,
    }
}

/// The friend is put together from these.
pub open spec fn friend_is(
    f: FriendInput,
    id: i64,
    fetched: Seq<User>,
    presence: Seq<Presence>,
    avatars: Map<i64, String>,
    cached: Map<i64, CachedUser>,
) -> bool {
    &&& f.id == id
    &&& (f.name@, f.username@) == names_of(id, fetched, cached)
    &&& f.avatar_url@ == avatar_of(id, avatars, cached)
    &&& match presence_for(presence, id) {
        Some(p) => {
            &&& f.presence == presence_number(p.kind)
            &&& f.location@ == p.location@
            &&& f.last_online@ == or_empty(p.last_online)
            &&& f.place_id == place_of(p)
            &&& opt_text(f.game_id) == opt_text(p.game_id)
            &&& f.joinable == (p.kind == PresenceKind::InGame && p.place_id is Some)
        },
        None => {
            &&& f.presence == 0
            &&& f.location@.len() == 0
            &&& f.last_online@.len() == 0
            &&& f.place_id is None
            &&& f.game_id is None
            &&& !f.joinable
        },
    }
}

fn friend(
    id: i64,
    fetched: &Vec<User>,
    presence: &Vec<Presence>,
    avatars: &HashMap<i64, String>,
    cached: &HashMap<i64, CachedUser>,
) -> (f: FriendInput)
    ensures
        friend_is(f, id, fetched@, presence@, avatars@, cached@),
{
    let (name, username) = names(id, fetched, cached);
    let avatar = avatar_url(id, avatars, cached);
    match find_presence(presence, id) {
        Some(p) => FriendInput {
            id,
            name,
            username,
            presence: presence_code(p.kind),
            location: p.location.clone(),
            last_online: text_or_empty(&p.last_online),
            place_id: match p.place_id {
                Some(x) => Some(x),
                None => p.root_place_id,
            },
            game_id: copy_opt(&p.game_id),
            avatar_url: avatar,
            joinable: p.kind.is_joinable() && p.place_id.is_some(),
        },
        None => FriendInput {
            id,
            name,
            username,
            presence: 0,
            location: String::new(),
            last_online: String::new(),
            place_id: None,
            game_id: None,
            avatar_url: avatar,
            joinable: false,
        },
    }
}

/// Put the friends list together. Every friend is on it, known by name or not.
pub fn fetch_friends(
    ids: &Vec<i64>,
    fetched: &Vec<User>,
    presence: &Vec<Presence>,
    avatars: &HashMap<i64, String>,
    cached: &HashMap<i64, CachedUser>,
) -> (out: Vec<FriendInput>)
    ensures
        out.len() == ids.len(),
        forall|i: int|
            0 <= i < out.len() ==> friend_is(
                #[trigger] out@[i],
                ids@[i],
                fetched@,
                presence@,
                avatars@,
                cached@,
            ),
{
    let mut out: Vec<FriendInput> = Vec::new();
    let mut i: usize = 0;
    while i < ids.len()
        invariant
            i <= ids.len(),
            out.len() == i,
            forall|k: int|
                0 <= k < i ==> friend_is(
                    #[trigger] out@[k],
                    ids@[k],
                    fetched@,
                    presence@,
                    avatars@,
                    cached@,
                ),
        decreases ids.len() - i,
    {
        out.push(friend(ids[i], fetched, presence, avatars, cached));
        i = i + 1;
    }
    out
}

/// Nobody is looked up that is remembered, and no more than one batch is.
pub proof fn law_known_users_are_not_looked_up(
    ids: Seq<i64>,
    cached: Map<i64, CachedUser>,
    i: int,
)
    requires
        0 <= i < looked_up(ids, cached).len(),
    ensures
        !cached.dom().contains(looked_up(ids, cached)[i]),
        ids.contains(looked_up(ids, cached)[i]),
        looked_up(ids, cached).len() <= BATCH,
{
    lemma_unseen(ids, cached, i);
}

proof fn lemma_unseen(ids: Seq<i64>, cached: Map<i64, CachedUser>, i: int)
    requires
        0 <= i < unseen(ids, cached).len(),
    ensures
        !cached.dom().contains(unseen(ids, cached)[i]),
        ids.contains(unseen(ids, cached)[i]),
    decreases ids.len(),
{
    if ids.len() > 0 {
        let before = unseen(ids.drop_last(), cached);
        if i < before.len() {
            lemma_unseen(ids.drop_last(), cached, i);
            let k = choose|k: int| 0 <= k < ids.drop_last().len() && ids.drop_last()[k] == before[i];
            assert(ids[k] == before[i]);
        } else {
            assert(ids[ids.len() - 1] == unseen(ids, cached)[i]);
        }
    }
}

/// The first friend of an id.
pub open spec fn friend_at(roster: Seq<FriendInput>, id: i64) -> Option<FriendInput>
    decreases roster.len(),
{
    if roster.len() == 0 {
        None
    } else if roster[0].id == id {
        Some(roster[0])
    } else {
        friend_at(roster.skip(1), id)
    }
}

pub fn find_friend(roster: &Vec<FriendInput>, id: i64) -> (r: Option<&FriendInput>)
    ensures
        match r {
            Some(f) => friend_at(roster@, id) == Some(*f),
            None => friend_at(roster@, id) is None,
        },
{
    let mut i: usize = 0;
    assert(roster@.skip(0) =~= roster@);
    while i < roster.len()
        invariant
            i <= roster.len(),
            friend_at(roster@, id) == friend_at(roster@.skip(i as int), id),
        decreases roster.len() - i,
    {
        assert(roster@.skip(i as int)[0] == roster@[i as int]);
        assert(roster@.skip(i as int).skip(1) =~= roster@.skip(i as int + 1));
        if roster[i].id == id {
            return Some(&roster[i]);
        }
        i = i + 1;
    }
    None
}

/// The place and the server that a friend is joined at.
pub open spec fn join_place(roster: Seq<FriendInput>, id: Seq<char>) -> Option<
    (i64, Option<Seq<char>>),
> {
    match read_i64(id) {
        Some(n) => match friend_at(roster, n) {
            Some(f) => match f.place_id {
                Some(p) => Some((p, opt_text(f.game_id))),
                None => None,
            },
            None => None,
        },
        None => None,
    }
}

/// What is launched to join a friend. Nothing where they are not in a game that
/// can be joined.
pub fn join_friend(roster: &Vec<FriendInput>, id: &str) -> (r: Option<JoinRequest>)
    ensures
        match (r, join_place(roster@, id@)) {
            (Some(req), Some(at)) => req.place_id == at.0 && req.root_place_id == at.0 && opt_text(
                req.job_id,
            ) == at.1 && req.access_code is None && req.link_code is None,
            (None, None) => true,
            _ => false,
        },
{
    match parse_i64(id) {
        Some(n) => match find_friend(roster, n) {
            Some(f) => match f.place_id {
                Some(p) => {
                    let req = JoinRequest::place(p);
                    match &f.game_id {
                        Some(job) => Some(req.server(job.as_str())),
                        None => Some(req),
                    }
                },
                None => None,
            },
            None => None,
        },
        None => None,
    }
}

proof fn lemma_first_presence(list: Seq<Presence>, k: int)
    requires
        0 <= k < list.len(),
        forall|j: int| 0 <= j < k ==> (#[trigger] list[j]).user_id != list[k].user_id,
    ensures
        presence_for(list, list[k].user_id) == Some(list[k]),
    decreases k,
{
    if k > 0 {
        assert(list[0].user_id != list[k].user_id);
        assert(list.skip(1)[k - 1] == list[k]);
        assert forall|j: int| 0 <= j < k - 1 implies (#[trigger] list.skip(1)[j]).user_id
            != list.skip(1)[k - 1].user_id by {
            assert(list.skip(1)[j] == list[j + 1]);
        }
        lemma_first_presence(list.skip(1), k - 1);
    }
}

proof fn lemma_no_presence(list: Seq<Presence>, id: i64)
    requires
        forall|j: int| 0 <= j < list.len() ==> (#[trigger] list[j]).user_id != id,
    ensures
        presence_for(list, id) is None,
    decreases list.len(),
{
    if list.len() > 0 {
        assert(list[0].user_id != id);
        assert forall|j: int| 0 <= j < list.skip(1).len() implies (#[trigger] list.skip(
            1,
        )[j]).user_id != id by {
            assert(list.skip(1)[j] == list[j + 1]);
        }
        lemma_no_presence(list.skip(1), id);
    }
}

/// A friend who is on the list is found.
pub proof fn lemma_friend_found(roster: Seq<FriendInput>, id: i64, i: int)
    requires
        0 <= i < roster.len(),
        roster[i].id == id,
    ensures
        friend_at(roster, id) matches Some(f) && f.id == id && roster.contains(f),
    decreases roster.len(),
{
    if roster[0].id != id {
        assert(roster.skip(1)[i - 1] == roster[i]);
        lemma_friend_found(roster.skip(1), id, i - 1);
        let f = friend_at(roster.skip(1), id)->0;
        let k = choose|k: int| 0 <= k < roster.skip(1).len() && roster.skip(1)[k] == f;
        assert(roster[k + 1] == f);
    } else {
        assert(roster[0] == roster[0]);
    }
}

/// The friends list of these ids, put together from these.
pub open spec fn roster_is(
    out: Seq<FriendInput>,
    ids: Seq<i64>,
    fetched: Seq<User>,
    presence: Seq<Presence>,
    avatars: Map<i64, String>,
    cached: Map<i64, CachedUser>,
) -> bool {
    &&& out.len() == ids.len()
    &&& forall|i: int|
        0 <= i < out.len() ==> friend_is(
            #[trigger] out[i],
            ids[i],
            fetched,
            presence,
            avatars,
            cached,
        )
}

/// A friend on the list is joined in the place they are in and on the server they
/// are on. Only where the service keeps that place to itself is it the root of the
/// game, and with neither there is nothing to join. Joining is offered for one who
/// is in a game whose place is known, and for nobody else.
pub proof fn law_friends_are_joined_where_they_are(
    out: Seq<FriendInput>,
    ids: Seq<i64>,
    fetched: Seq<User>,
    presence: Seq<Presence>,
    avatars: Map<i64, String>,
    cached: Map<i64, CachedUser>,
    i: int,
    k: int,
)
    requires
        roster_is(out, ids, fetched, presence, avatars, cached),
        0 <= i < ids.len(),
        0 <= k < presence.len(),
        presence[k].user_id == ids[i],
        forall|j: int| 0 <= j < k ==> (#[trigger] presence[j]).user_id != ids[i],
    ensures
        presence[k].place_id matches Some(x) ==> join_place(out, decimal_int(ids[i] as int))
            == Some((x, opt_text(presence[k].game_id))),
        presence[k].place_id is None ==> (presence[k].root_place_id matches Some(x) ==> join_place(
            out,
            decimal_int(ids[i] as int),
        ) == Some((x, opt_text(presence[k].game_id)))),
        presence[k].place_id is None && presence[k].root_place_id is None ==> join_place(
            out,
            decimal_int(ids[i] as int),
        ) is None,
        out[i].joinable <==> presence[k].kind == PresenceKind::InGame && presence[k].place_id is Some,
        out[i].presence == 2 <==> presence[k].kind == PresenceKind::InGame,
        out[i].presence == 1 <==> presence[k].kind == PresenceKind::Online,
        out[i].presence == 3 <==> presence[k].kind == PresenceKind::InStudio,
        out[i].presence == 0 <==> presence[k].kind == PresenceKind::Offline || presence[k].kind
            == PresenceKind::Invisible,
        out[i].location@ == presence[k].location@,
        out[i].last_online@ == (match presence[k].last_online {
            Some(t) => t@,
            None => Seq::empty(),
        }),
{
    let id = ids[i];
    lemma_first_presence(presence, k);
    law_decimal_reads_back(id as int);
    assert(friend_is(out[i], ids[i], fetched, presence, avatars, cached));
    lemma_friend_found(out, id, i);
    let f = friend_at(out, id)->0;
    let j = choose|j: int| 0 <= j < out.len() && out[j] == f;
    assert(friend_is(out[j], ids[j], fetched, presence, avatars, cached));
}

/// A friend of whom the service says nothing is on the list all the same, offline
/// and not to be joined.
pub proof fn law_unknown_presence_is_offline(
    out: Seq<FriendInput>,
    ids: Seq<i64>,
    fetched: Seq<User>,
    presence: Seq<Presence>,
    avatars: Map<i64, String>,
    cached: Map<i64, CachedUser>,
    i: int,
)
    requires
        roster_is(out, ids, fetched, presence, avatars, cached),
        0 <= i < ids.len(),
        forall|j: int| 0 <= j < presence.len() ==> (#[trigger] presence[j]).user_id != ids[i],
    ensures
        out[i].id == ids[i],
        out[i].presence == 0,
        !out[i].joinable,
        join_place(out, decimal_int(ids[i] as int)) is None,
{
    let id = ids[i];
    lemma_no_presence(presence, id);
    law_decimal_reads_back(id as int);
    assert(friend_is(out[i], ids[i], fetched, presence, avatars, cached));
    lemma_friend_found(out, id, i);
    let f = friend_at(out, id)->0;
    let j = choose|j: int| 0 <= j < out.len() && out[j] == f;
    assert(friend_is(out[j], ids[j], fetched, presence, avatars, cached));
}

/// Nobody can be joined who is not on the list, nor under what is no number.
pub proof fn law_only_friends_are_joined(roster: Seq<FriendInput>, id: Seq<char>)
    requires
        join_place(roster, id) is Some,
    ensures
        exists|i: int|
            0 <= i < roster.len() && read_int(id) == Some((#[trigger] roster[i]).id as int)
                && roster[i].place_id is Some,
{
    let n = read_i64(id)->0;
    lemma_friend_at_is_listed(roster, n);
    let f = friend_at(roster, n)->0;
    let i = choose|i: int| 0 <= i < roster.len() && roster[i] == f;
    assert(roster[i].id == n);
}

/// Whoever is found is on the list.
pub proof fn lemma_friend_at_is_listed(roster: Seq<FriendInput>, id: i64)
    requires
        friend_at(roster, id) is Some,
    ensures
        roster.contains(friend_at(roster, id)->0),
        (friend_at(roster, id)->0).id == id,
    decreases roster.len(),
{
    if roster[0].id == id {
        assert(roster[0] == friend_at(roster, id)->0);
    } else {
        lemma_friend_at_is_listed(roster.skip(1), id);
        let f = friend_at(roster, id)->0;
        let k = choose|k: int| 0 <= k < roster.skip(1).len() && roster.skip(1)[k] == f;
        assert(roster[k + 1] == f);
    }
}

proof fn lemma_first_user(users: Seq<User>, k: int)
    requires
        0 <= k < users.len(),
        forall|j: int| 0 <= j < k ==> (#[trigger] users[j]).id != users[k].id,
    ensures
        user_of(users, users[k].id) == Some(users[k]),
    decreases k,
{
    if k > 0 {
        assert(users[0].id != users[k].id);
        assert(users.skip(1)[k - 1] == users[k]);
        assert forall|j: int| 0 <= j < k - 1 implies (#[trigger] users.skip(1)[j]).id
            != users.skip(1)[k - 1].id by {
            assert(users.skip(1)[j] == users[j + 1]);
        }
        lemma_first_user(users.skip(1), k - 1);
    }
}

proof fn lemma_no_user(users: Seq<User>, id: i64)
    requires
        forall|j: int| 0 <= j < users.len() ==> (#[trigger] users[j]).id != id,
    ensures
        user_of(users, id) is None,
    decreases users.len(),
{
    if users.len() > 0 {
        assert(users[0].id != id);
        assert forall|j: int| 0 <= j < users.skip(1).len() implies (#[trigger] users.skip(1)[j]).id
            != id by {
            assert(users.skip(1)[j] == users[j + 1]);
        }
        lemma_no_user(users.skip(1), id);
    }
}

/// A friend goes by the display name that was just looked up, with the user name
/// below it, or by what is remembered of them, or else by their number. The picture
/// is the one that was fetched, or else the one that is remembered.
pub proof fn law_friends_have_a_name(
    out: Seq<FriendInput>,
    ids: Seq<i64>,
    fetched: Seq<User>,
    presence: Seq<Presence>,
    avatars: Map<i64, String>,
    cached: Map<i64, CachedUser>,
    i: int,
)
    requires
        roster_is(out, ids, fetched, presence, avatars, cached),
        0 <= i < ids.len(),
    ensures
        forall|k: int|
            0 <= k < fetched.len() && (#[trigger] fetched[k]).id == ids[i] && (forall|j: int|
                0 <= j < k ==> (#[trigger] fetched[j]).id != ids[i]) ==> out[i].name@
                == fetched[k].display_name@ && out[i].username@ == fetched[k].name@,
        (forall|k: int| 0 <= k < fetched.len() ==> (#[trigger] fetched[k]).id != ids[i]) ==> (
        if cached.dom().contains(ids[i]) {
            out[i].name@ == cached[ids[i]].display_name@ && out[i].username@
                == cached[ids[i]].username@
        } else {
            out[i].name@ == "User "@ + decimal_int(ids[i] as int) && out[i].username@
                == out[i].name@
        }),
        avatars.dom().contains(ids[i]) ==> out[i].avatar_url@ == avatars[ids[i]]@,
        !avatars.dom().contains(ids[i]) && cached.dom().contains(ids[i]) ==> out[i].avatar_url@
            == cached[ids[i]].avatar_url@,
        !avatars.dom().contains(ids[i]) && !cached.dom().contains(ids[i])
            ==> out[i].avatar_url@.len() == 0,
{
    assert(friend_is(out[i], ids[i], fetched, presence, avatars, cached));
    assert forall|k: int|
        0 <= k < fetched.len() && (#[trigger] fetched[k]).id == ids[i] && (forall|j: int|
            0 <= j < k ==> (#[trigger] fetched[j]).id != ids[i]) implies out[i].name@
        == fetched[k].display_name@ && out[i].username@ == fetched[k].name@ by {
        lemma_first_user(fetched, k);
    }
    if forall|k: int| 0 <= k < fetched.len() ==> (#[trigger] fetched[k]).id != ids[i] {
        lemma_no_user(fetched, ids[i]);
    }
}

/// Everybody that nothing is remembered of is looked up, in order, as long as one
/// batch holds them.
pub proof fn law_unknown_users_are_looked_up(ids: Seq<i64>, cached: Map<i64, CachedUser>)
    ensures
        unseen(ids, cached) == ids.filter(|id: i64| !cached.dom().contains(id)),
        unseen(ids, cached).len() <= 100 ==> looked_up(ids, cached) == unseen(ids, cached),
        unseen(ids, cached).len() > 100 ==> looked_up(ids, cached) == unseen(ids, cached).take(100),
    decreases ids.len(),
{
    reveal(Seq::filter);
    if ids.len() > 0 {
        law_unknown_users_are_looked_up(ids.drop_last(), cached);
    }
    assert(unseen(ids, cached) =~= ids.filter(|id: i64| !cached.dom().contains(id)));
}

/// The picture that a row of the friends list shows: none for a heading.
pub open spec fn row_picture(r: FriendRow, roster: Seq<FriendInput>) -> Option<Seq<char>> {
    if r.is_header {
        None
    } else {
        match read_i64(r.id@) {
            Some(n) => match friend_at(roster, n) {
                Some(f) => if f.avatar_url@.len() == 0 {
                    None
                } else {
                    Some(f.avatar_url@)
                },
                None => None,
            },
            None => None,
        }
    }
}

/// The pictures of the rows, one for each.
pub fn row_pictures(rows: &Vec<FriendRow>, roster: &Vec<FriendInput>) -> (out: Vec<Option<String>>)
    ensures
        out.len() == rows.len(),
        forall|i: int|
            0 <= i < out.len() ==> opt_text(#[trigger] out@[i]) == row_picture(rows@[i], roster@),
{
    let mut out: Vec<Option<String>> = Vec::new();
    let mut i: usize = 0;
    while i < rows.len()
        invariant
            i <= rows.len(),
            out.len() == i,
            forall|k: int|
                0 <= k < i ==> opt_text(#[trigger] out@[k]) == row_picture(rows@[k], roster@),
        decreases rows.len() - i,
    {
        let picture = if rows[i].is_header {
            None
        } else {
            match parse_i64(rows[i].id.as_str()) {
                Some(n) => match find_friend(roster, n) {
                    Some(f) => if f.avatar_url.as_str().is_empty() {
                        None
                    } else {
                        Some(f.avatar_url.clone())
                    },
                    None => None,
                },
                None => None,
            }
        };
        out.push(picture);
        i = i + 1;
    }
    out
}

/// The picture of a row is that of its friend; a heading has none, and neither has a
/// friend without one.
pub proof fn law_pictures_of_rows(r: FriendRow, roster: Seq<FriendInput>, id: i64)
    requires
        r.id@ == decimal_int(id as int),
    ensures
        r.is_header ==> row_picture(r, roster) is None,
        !r.is_header ==> match friend_at(roster, id) {
            Some(f) => if f.avatar_url@.len() > 0 {
                row_picture(r, roster) == Some(f.avatar_url@)
            } else {
                row_picture(r, roster) is None
            },
            None => row_picture(r, roster) is None,
        },
{
    law_decimal_reads_back(id as int);
}

} // verus!
