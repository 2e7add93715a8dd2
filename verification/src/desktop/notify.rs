//! Watching friends and games: what is worth a notification, and what is worth
//! recording.
//!
//! Strictly opt-in: nothing is announced unless the user has subscribed to that
//! friend or turned friend requests on. The watcher polls, slowly on purpose.

use crate::desktop::history::Sample;
use crate::number::{decimal_int, int_text, parse_i64, read_i64};
use crate::roblox::friends::{Presence, PresenceKind};
use crate::roblox::models::{GameDetail, User, Votes};
use crate::text::{cat2, cat3, chars_of, opt_text};
use std::collections::HashMap;
use vstd::prelude::*;
use vstd::string::*;

verus! {

/// The time between two polls, in seconds.
pub const POLL: u64 = 60;

/// A missed poll or two should not split one sitting in two: the longest gap
/// within a session, in seconds.
pub const SESSION_GAP: i64 = 180;

/// The most games that are watched.
pub const MAX_TRACKED: usize = 12;

/// The numbers among the ids.
pub open spec fn numeric_ids(ids: Seq<String>) -> Seq<i64>
    decreases ids.len(),
{
    if ids.len() == 0 {
        Seq::empty()
    } else {
        let earlier = numeric_ids(ids.drop_last());
        match read_i64(ids.last()@) {
            Some(id) => earlier.push(id),
            None => earlier,
        }
    }
}

/// The friends that are watched.
pub fn watched_ids(ids: &Vec<String>) -> (out: Vec<i64>)
    ensures
        out@ == numeric_ids(ids@),
{
    let mut out: Vec<i64> = Vec::new();
    let mut i: usize = 0;
    assert(ids@.take(0) =~= Seq::<String>::empty());
    while i < ids.len()
        invariant
            i <= ids.len(),
            out@ == numeric_ids(ids@.take(i as int)),
        decreases ids.len() - i,
    {
        assert(ids@.take(i as int + 1).drop_last() =~= ids@.take(i as int));
        assert(ids@.take(i as int + 1).last() == ids@[i as int]);
        match parse_i64(ids[i].as_str()) {
            Some(id) => {
                out.push(id);
            },
            None => {},
        }
        i = i + 1;
    }
    assert(ids@.take(ids@.len() as int) =~= ids@);
    out
}

pub open spec fn plays(p: Presence) -> bool {
    p.kind == PresenceKind::InGame
}

/// Who was playing, after the presences were taken in.
pub open spec fn noticed(before: Map<i64, bool>, list: Seq<Presence>) -> Map<i64, bool>
    decreases list.len(),
{
    if list.len() == 0 {
        before
    } else {
        noticed(before, list.drop_last()).insert(list.last().user_id, plays(list.last()))
    }
}

/// Those of the presences that have started to play: they were seen not playing
/// before.
pub open spec fn started(before: Map<i64, bool>, list: Seq<Presence>) -> Seq<usize>
    decreases list.len(),
{
    if list.len() == 0 {
        Seq::empty()
    } else {
        let earlier = started(before, list.drop_last());
        let seen = noticed(before, list.drop_last());
        let p = list.last();
        if plays(p) && seen.dom().contains(p.user_id) && !seen[p.user_id] {
            earlier.push((list.len() - 1) as usize)
        } else {
            earlier
        }
    }
}

/// Take in who is playing. Gives those who have just started, by their place in
/// the list. Someone seen for the first time is not announced.
pub fn sweep_presence(previous: &mut HashMap<i64, bool>, presences: &Vec<Presence>) -> (newly: Vec<
    usize,
>)
    ensures
        newly@ == started(old(previous)@, presences@),
        final(previous)@ == noticed(old(previous)@, presences@),
{
    broadcast use vstd::std_specs::hash::group_hash_axioms;

    let ghost before = previous@;
    let mut newly: Vec<usize> = Vec::new();
    let mut i: usize = 0;
    assert(presences@.take(0) =~= Seq::<Presence>::empty());
    while i < presences.len()
        invariant
            i <= presences.len(),
            previous@ == noticed(before, presences@.take(i as int)),
            newly@ == started(before, presences@.take(i as int)),
        decreases presences.len() - i,
    {
        assert(presences@.take(i as int + 1).drop_last() =~= presences@.take(i as int));
        assert(presences@.take(i as int + 1).last() == presences@[i as int]);
        let p = &presences[i];
        let in_game = match p.kind {
            PresenceKind::InGame => true,
            _ => false,
        };
        let was = previous.insert(p.user_id, in_game);
        match was {
            Some(b) => {
                if in_game && !b {
                    newly.push(i);
                }
            },
            None => {},
        }
        i = i + 1;
    }
    assert(presences@.take(presences@.len() as int) =~= presences@);
    newly
}

/// Nobody is announced who was not seen before.
pub proof fn law_first_sightings_are_silent(list: Seq<Presence>)
    requires
        forall|i: int, j: int|
            0 <= i < j < list.len() ==> (#[trigger] list[i]).user_id != (#[trigger] list[j]).user_id,
    ensures
        started(Map::empty(), list) == Seq::<usize>::empty(),
    decreases list.len(),
{
    if list.len() > 0 {
        let head = list.drop_last();
        assert forall|i: int, j: int| 0 <= i < j < head.len() implies (#[trigger] head[i]).user_id
            != (#[trigger] head[j]).user_id by {
            assert(list[i].user_id != list[j].user_id);
        }
        law_first_sightings_are_silent(head);
        let id = list.last().user_id;
        assert forall|i: int| 0 <= i < head.len() implies (#[trigger] head[i]).user_id != id by {
            assert(list[i].user_id != list[list.len() - 1].user_id);
        }
        lemma_noticed_domain(head, id);
    }
}

proof fn lemma_noticed_domain(list: Seq<Presence>, id: i64)
    requires
        forall|i: int| 0 <= i < list.len() ==> (#[trigger] list[i]).user_id != id,
    ensures
        !noticed(Map::empty(), list).dom().contains(id),
    decreases list.len(),
{
    if list.len() > 0 {
        assert forall|i: int| 0 <= i < list.drop_last().len() implies (
        #[trigger] list.drop_last()[i]).user_id != id by {
            assert(list[i].user_id != id);
        }
        lemma_noticed_domain(list.drop_last(), id);
        assert(list[list.len() - 1].user_id != id);
    }
}

/// The display name of a user, where it is known.
pub open spec fn name_known(names: Seq<User>, id: i64) -> Option<Seq<char>>
    decreases names.len(),
{
    if names.len() == 0 {
        None
    } else if names[0].id == id {
        Some(names[0].display_name@)
    } else {
        name_known(names.skip(1), id)
    }
}

/// What is announced of someone who started to play.
pub open spec fn playing_news(names: Seq<User>, p: Presence) -> Seq<char> {
    let who = match name_known(names, p.user_id) {
        Some(n) => n,
        None => "User "@ + decimal_int(p.user_id as int),
    };
    if p.location@.len() == 0 {
        who + " is in a game"@
    } else {
        who + " is playing "@ + p.location@
    }
}

fn find_name(names: &Vec<User>, id: i64) -> (r: Option<String>)
    ensures
        opt_text(r) == name_known(names@, id),
{
    let mut i: usize = 0;
    assert(names@.skip(0) =~= names@);
    while i < names.len()
        invariant
            i <= names.len(),
            name_known(names@, id) == name_known(names@.skip(i as int), id),
        decreases names.len() - i,
    {
        assert(names@.skip(i as int)[0] == names@[i as int]);
        assert(names@.skip(i as int).skip(1) =~= names@.skip(i as int + 1));
        if names[i].id == id {
            return Some(names[i].display_name.clone());
        }
        i = i + 1;
    }
    None
}

/// What is announced of someone who started to play.
pub fn announce_playing(names: &Vec<User>, p: &Presence) -> (r: String)
    ensures
        r@ == playing_news(names@, *p),
{
    let who = match find_name(names, p.user_id) {
        Some(n) => n,
        None => cat2("User ", int_text(p.user_id).as_str()),
    };
    if p.location.as_str().is_empty() {
        cat2(who.as_str(), " is in a game")
    } else {
        cat3(who.as_str(), " is playing ", p.location.as_str())
    }
}

/// What is announced of the number of friend requests: nothing the first time,
/// and nothing unless there are more.
pub open spec fn request_news(before: Option<i64>, count: i64) -> Option<Seq<char>> {
    match before {
        Some(b) => if count > b {
            if count - b == 1 {
                Some("You have a new friend request"@)
            } else {
                Some("You have "@ + decimal_int(count - b) + " new friend requests"@)
            }
        } else {
            None
        },
        None => None,
    }
}

/// Take in the number of friend requests, and say what is worth announcing.
pub fn sweep_requests(previous: &mut Option<i64>, count: i64) -> (r: Option<String>)
    requires
        *old(previous) matches Some(b) ==> count - b <= i64::MAX,
    ensures
        opt_text(r) == request_news(*old(previous), count),
        *final(previous) == Some(count),
{
    let before = *previous;
    *previous = Some(count);
    match before {
        Some(b) => if count > b {
            let delta: i64 = count - b;
            if delta == 1 {
                Some("You have a new friend request".to_owned())
            } else {
                Some(cat3("You have ", int_text(delta).as_str(), " new friend requests"))
            }
        } else {
            None
        },
        None => None,
    }
}

/// Ids other than one, in their order.
pub open spec fn ids_without(ids: Seq<i64>, id: i64) -> Seq<i64>
    decreases ids.len(),
{
    if ids.len() == 0 {
        Seq::empty()
    } else {
        let earlier = ids_without(ids.drop_last(), id);
        if ids.last() == id {
            earlier
        } else {
            earlier.push(ids.last())
        }
    }
}

/// Whose playtime is recorded: the user's own, and that of pinned friends where
/// it is wanted.
pub open spec fn recorded_ids(me: i64, pinned: Seq<i64>, track_friends: bool) -> Seq<i64> {
    let own = if me != 0 {
        seq![me]
    } else {
        Seq::empty()
    };
    if track_friends {
        own + ids_without(pinned, me)
    } else {
        own
    }
}

/// Whose playtime is recorded.
pub fn tracked_ids(me: i64, pinned: &Vec<i64>, track_friends: bool) -> (ids: Vec<i64>)
    ensures
        ids@ == recorded_ids(me, pinned@, track_friends),
{
    let mut ids: Vec<i64> = Vec::new();
    if me != 0 {
        ids.push(me);
    }
    let ghost own = ids@;
    assert(own =~= (if me != 0 { seq![me] } else { Seq::empty() }));
    if track_friends {
        let mut i: usize = 0;
        assert(pinned@.take(0) =~= Seq::<i64>::empty());
        assert(own + ids_without(pinned@.take(0), me) =~= own);
        while i < pinned.len()
            invariant
                i <= pinned.len(),
                ids@ == own + ids_without(pinned@.take(i as int), me),
            decreases pinned.len() - i,
        {
            assert(pinned@.take(i as int + 1).drop_last() =~= pinned@.take(i as int));
            let ghost earlier = ids_without(pinned@.take(i as int), me);
            if pinned[i] != me {
                ids.push(pinned[i]);
                assert(ids@ =~= own + earlier.push(pinned@[i as int]));
            }
            i = i + 1;
        }
        assert(pinned@.take(pinned@.len() as int) =~= pinned@);
    }
    ids
}

/// Somebody seen in a game, to be recorded.
#[derive(Debug, Clone, Copy, PartialEq, Eq)]
pub struct Observation {
    /// The friend; nobody for the user.
    pub friend: Option<i64>,
    pub universe_id: i64,
    pub root_place_id: i64,
}

/// What is recorded of a presence. Time in a game that is hidden is real, and
/// counts towards `unknown`. For the user, the game must be running here: the
/// service goes on reporting a session after an unclean exit.
pub open spec fn observation_of(
    p: Presence,
    me: i64,
    client_running: bool,
    unknown: i64,
) -> Option<Observation> {
    if !plays(p) || (p.user_id == me && !client_running) {
        None
    } else {
        Some(
            (Observation {
                friend: if p.user_id == me { None } else { Some(p.user_id) },
                universe_id: match p.universe_id {
                    Some(u) => u,
                    None => unknown,
                },
                root_place_id: match p.root_place_id {
                    Some(r) => r,
                    None => match p.place_id {
                        Some(q) => q,
                        None => 0,
                    },
                },
            }),
        )
    }
}

/// What is recorded of a presence.
pub fn sweep_playtime(p: &Presence, me: i64, client_running: bool, unknown: i64) -> (r: Option<
    Observation,
>)
    ensures
        r == observation_of(*p, me, client_running, unknown),
{
    let playing = match p.kind {
        PresenceKind::InGame => true,
        _ => false,
    };
    if !playing || (p.user_id == me && !client_running) {
        return None;
    }
    let universe_id: i64 = match p.universe_id {
        Some(u) => u,
        None => unknown,
    };
    let root_place_id: i64 = match p.root_place_id {
        Some(r) => r,
        None => match p.place_id {
            Some(q) => q,
            None => 0,
        },
    };
    Some(
        Observation {
            friend: if p.user_id == me {
                None
            } else {
                Some(p.user_id)
            },
            universe_id,
            root_place_id,
        },
    )
}

/// A stale presence never counts as the user's own play.
pub proof fn law_own_play_needs_the_game(p: Presence, me: i64, unknown: i64)
    requires
        p.user_id == me,
    ensures
        observation_of(p, me, false, unknown) is None,
{
}

/// A game by place is in the list.
pub open spec fn has_place(games: Seq<(i64, i64)>, place: i64) -> bool {
    exists|i: int| 0 <= i < games.len() && (#[trigger] games[i]).0 == place
}

/// The games of one list, and behind them those of another whose place is not
/// there yet.
pub open spec fn with_games(have: Seq<(i64, i64)>, more: Seq<(i64, i64)>) -> Seq<(i64, i64)>
    decreases more.len(),
{
    if more.len() == 0 {
        have
    } else {
        let before = with_games(have, more.drop_last());
        if has_place(before, more.last().0) {
            before
        } else {
            before.push(more.last())
        }
    }
}

pub open spec fn games_watched(
    favorites: Seq<(i64, i64)>,
    looked_at: Seq<(i64, i64)>,
) -> Seq<(i64, i64)> {
    let all = with_games(favorites, looked_at);
    if all.len() > MAX_TRACKED {
        all.take(MAX_TRACKED as int)
    } else {
        all
    }
}

fn is_among(games: &Vec<(i64, i64)>, place: i64) -> (r: bool)
    ensures
        r == has_place(games@, place),
{
    let mut i: usize = 0;
    while i < games.len()
        invariant
            i <= games.len(),
            forall|k: int| 0 <= k < i ==> (#[trigger] games@[k]).0 != place,
        decreases games.len() - i,
    {
        if games[i].0 == place {
            return true;
        }
        i = i + 1;
    }
    false
}

/// The games whose statistics are kept up: the favourites first, then those that
/// were looked at, and no more than a dozen. Each is a place and a universe.
pub fn watched_games(favorites: &Vec<(i64, i64)>, looked_at: &Vec<(i64, i64)>) -> (out: Vec<
    (i64, i64),
>)
    ensures
        out@ == games_watched(favorites@, looked_at@),
{
    let mut out: Vec<(i64, i64)> = Vec::new();
    let mut i: usize = 0;
    while i < favorites.len()
        invariant
            i <= favorites.len(),
            out@ == favorites@.take(i as int),
        decreases favorites.len() - i,
    {
        out.push(favorites[i]);
        assert(out@ =~= favorites@.take(i as int + 1));
        i = i + 1;
    }
    assert(favorites@.take(favorites@.len() as int) =~= favorites@);
    let mut k: usize = 0;
    assert(looked_at@.take(0) =~= Seq::<(i64, i64)>::empty());
    while k < looked_at.len()
        invariant
            k <= looked_at.len(),
            out@ == with_games(favorites@, looked_at@.take(k as int)),
        decreases looked_at.len() - k,
    {
        assert(looked_at@.take(k as int + 1).drop_last() =~= looked_at@.take(k as int));
        if !is_among(&out, looked_at[k].0) {
            out.push(looked_at[k]);
        }
        k = k + 1;
    }
    assert(looked_at@.take(looked_at@.len() as int) =~= looked_at@);
    let ghost all = out@;
    if out.len() > MAX_TRACKED {
        out.truncate(MAX_TRACKED);
        assert(out@ =~= all.take(MAX_TRACKED as int));
    }
    out
}

/// The game is due for a sample: it has none, or the last is old enough.
pub open spec fn is_due(last: Option<i64>, now: i64, min_gap: i64) -> bool {
    match last {
        Some(at) => now - at >= min_gap,
        None => true,
    }
}

pub open spec fn games_due(
    games: Seq<(i64, i64)>,
    last: Seq<Option<i64>>,
    now: i64,
    min_gap: i64,
) -> Seq<(i64, i64)>
    decreases games.len(),
{
    if games.len() == 0 {
        Seq::empty()
    } else {
        let earlier = games_due(games.drop_last(), last, now, min_gap);
        if is_due(last[games.len() - 1], now, min_gap) {
            earlier.push(games.last())
        } else {
            earlier
        }
    }
}

/// The games that are due for a sample; `last` is when each was sampled last.
pub fn due_games(
    games: &Vec<(i64, i64)>,
    last: &Vec<Option<i64>>,
    now: i64,
    min_gap: i64,
) -> (out: Vec<(i64, i64)>)
    requires
        last.len() == games.len(),
        forall|i: int|
            0 <= i < last.len() ==> match #[trigger] last@[i] {
                Some(at) => i64::MIN <= now - at <= i64::MAX,
                None => true,
            },
    ensures
        out@ == games_due(games@, last@, now, min_gap),
{
    let mut out: Vec<(i64, i64)> = Vec::new();
    let mut i: usize = 0;
    assert(games@.take(0) =~= Seq::<(i64, i64)>::empty());
    while i < games.len()
        invariant
            i <= games.len() == last.len(),
            forall|i: int|
                0 <= i < last.len() ==> match #[trigger] last@[i] {
                    Some(at) => i64::MIN <= now - at <= i64::MAX,
                    None => true,
                },
            out@ == games_due(games@.take(i as int), last@, now, min_gap),
        decreases games.len() - i,
    {
        assert(games@.take(i as int + 1).drop_last() =~= games@.take(i as int));
        let seen = last[i];
        assert(last@[i as int] == seen);
        let due = match seen {
            Some(at) => now - at >= min_gap,
            None => true,
        };
        if due {
            out.push(games[i]);
        }
        i = i + 1;
    }
    assert(games@.take(games@.len() as int) =~= games@);
    out
}

/// The first votes for a universe.
pub open spec fn votes_for(votes: Seq<Votes>, id: i64) -> Option<Votes>
    decreases votes.len(),
{
    if votes.len() == 0 {
        None
    } else if votes[0].id == id {
        Some(votes[0])
    } else {
        votes_for(votes.skip(1), id)
    }
}

/// Where the first votes for a universe are.
pub fn find_votes(votes: &Vec<Votes>, id: i64) -> (r: Option<&Votes>)
    ensures
        match r {
            Some(v) => votes_for(votes@, id) == Some(*v),
            None => votes_for(votes@, id) is None,
        },
{
    let mut i: usize = 0;
    assert(votes@.skip(0) =~= votes@);
    while i < votes.len()
        invariant
            i <= votes.len(),
            votes_for(votes@, id) == votes_for(votes@.skip(i as int), id),
        decreases votes.len() - i,
    {
        assert(votes@.skip(i as int)[0] == votes@[i as int]);
        assert(votes@.skip(i as int).skip(1) =~= votes@.skip(i as int + 1));
        if votes[i].id == id {
            return Some(&votes[i]);
        }
        i = i + 1;
    }
    None
}

/// The sample of a game at `now`, under the place it is kept by: the root place,
/// as the game's page has it. A game without one is not kept.
pub open spec fn sample_for(d: GameDetail, votes: Seq<Votes>, now: i64) -> Option<(i64, Sample)> {
    if d.root_place_id == 0 {
        None
    } else {
        let v = votes_for(votes, d.id);
        Some(
            (
                d.root_place_id,
                Sample {
                    at: now,
                    universe_id: d.id,
                    playing: d.playing,
                    visits: d.visits,
                    upvotes: match v {
                        Some(x) => x.up_votes,
                        None => 0,
                    },
                    downvotes: match v {
                        Some(x) => x.down_votes,
                        None => 0,
                    },
                },
            ),
        )
    }
}

/// The sample of a game at `now`, and the place it is kept by.
pub fn sweep_game_stats(d: &GameDetail, votes: &Vec<Votes>, now: i64) -> (r: Option<(i64, Sample)>)
    ensures
        r == sample_for(*d, votes@, now),
{
    if d.root_place_id == 0 {
        return None;
    }
    let (upvotes, downvotes): (i64, i64) = match find_votes(votes, d.id) {
        Some(v) => (v.up_votes, v.down_votes),
        None => (0, 0),
    };
    Some(
        (
            d.root_place_id,
            Sample {
                at: now,
                universe_id: d.id,
                playing: d.playing,
                visits: d.visits,
                upvotes,
                downvotes,
            },
        ),
    )
}

/// A character as it stands in XML text.
pub open spec fn xml_char(c: char) -> Seq<char> {
    if c == '&' {
        "&amp;"@
    } else if c == '<' {
        "&lt;"@
    } else if c == '>' {
        "&gt;"@
    } else if c == '"' {
        "&quot;"@
    } else if c == '\'' {
        "&apos;"@
    } else {
        seq![c]
    }
}

/// A text as it stands in XML.
pub open spec fn xml_text(s: Seq<char>) -> Seq<char>
    decreases s.len(),
{
    if s.len() == 0 {
        Seq::empty()
    } else {
        xml_text(s.drop_last()) + xml_char(s.last())
    }
}

/// Write a text for XML. Names of games hold ampersands and quotes routinely.
pub fn xml_escape(s: &str) -> (r: String)
    ensures
        r@ == xml_text(s@),
{
    let v = chars_of(s);
    let mut r = String::new();
    let mut i: usize = 0;
    assert(v@.take(0) =~= Seq::<char>::empty());
    while i < v.len()
        invariant
            i <= v.len(),
            r@ == xml_text(v@.take(i as int)),
        decreases v.len() - i,
    {
        assert(v@.take(i as int + 1).drop_last() =~= v@.take(i as int));
        let ghost before = r@;
        let c = v[i];
        if c == '&' {
            r.append("&amp;");
        } else if c == '<' {
            r.append("&lt;");
        } else if c == '>' {
            r.append("&gt;");
        } else if c == '"' {
            r.append("&quot;");
        } else if c == '\'' {
            r.append("&apos;");
        } else {
            r.push(c);
            assert(r@ =~= before + seq![c]);
        }
        i = i + 1;
    }
    assert(v@.take(v@.len() as int) =~= v@);
    r
}

proof fn lemma_xml_char(c: char, j: int)
    requires
        0 <= j < xml_char(c).len(),
    ensures
        xml_char(c)[j] != '<',
        xml_char(c)[j] != '>',
        xml_char(c)[j] != '"',
        xml_char(c)[j] != '\'',
{
    reveal_strlit("&amp;");
    reveal_strlit("&lt;");
    reveal_strlit("&gt;");
    reveal_strlit("&quot;");
    reveal_strlit("&apos;");
}

/// A text written for XML holds no markup: no angle bracket and no quote.
pub proof fn law_xml_text_is_inert(s: Seq<char>, i: int)
    requires
        0 <= i < xml_text(s).len(),
    ensures
        xml_text(s)[i] != '<',
        xml_text(s)[i] != '>',
        xml_text(s)[i] != '"',
        xml_text(s)[i] != '\'',
    decreases s.len(),
{
    let before = xml_text(s.drop_last());
    if i < before.len() {
        law_xml_text_is_inert(s.drop_last(), i);
    } else {
        lemma_xml_char(s.last(), i - before.len());
    }
}

/// The commands that show a notification on Windows.
pub fn toast_script(summary: &str, body: &str) -> (r: String)
    ensures
        r@
            == "[Windows.UI.Notifications.ToastNotificationManager, Windows.UI.Notifications, ContentType = WindowsRuntime] > $null; $x = New-Object Windows.Data.Xml.Dom.XmlDocument; $x.LoadXml('<toast><visual><binding template=\"ToastText02\"><text id=\"1\">"@
            + xml_text(summary@) + "</text><text id=\"2\">"@ + xml_text(body@)
            + "</text></binding></visual></toast>'); $t = New-Object Windows.UI.Notifications.ToastNotification $x; [Windows.UI.Notifications.ToastNotificationManager]::CreateToastNotifier('RoJoin').Show($t)"@,
{
    let mut r = cat3(
        "[Windows.UI.Notifications.ToastNotificationManager, Windows.UI.Notifications, ContentType = WindowsRuntime] > $null; $x = New-Object Windows.Data.Xml.Dom.XmlDocument; $x.LoadXml('<toast><visual><binding template=\"ToastText02\"><text id=\"1\">",
        xml_escape(summary).as_str(),
        "</text><text id=\"2\">",
    );
    r.append(xml_escape(body).as_str());
    r.append(
        "</text></binding></visual></toast>'); $t = New-Object Windows.UI.Notifications.ToastNotification $x; [Windows.UI.Notifications.ToastNotificationManager]::CreateToastNotifier('RoJoin').Show($t)",
    );
    r
}

/// How often friends are looked at, how long a session goes on without being seen, and
/// how many games are watched.
pub proof fn law_limits_of_watching()
    ensures
        POLL == 60,
        SESSION_GAP == 180,
        MAX_TRACKED == 12,
{
}

/// The numbers among the ids, in their order.
pub proof fn law_numbers_among_ids(ids: Seq<String>, id: String)
    ensures
        numeric_ids(Seq::empty()).len() == 0,
        numeric_ids(ids.push(id)) == (match read_i64(id@) {
            Some(n) => numeric_ids(ids).push(n),
            None => numeric_ids(ids),
        }),
{
    assert(ids.push(id).drop_last() =~= ids);
}

proof fn lemma_noticed(before: Map<i64, bool>, list: Seq<Presence>, id: i64)
    ensures
        (forall|i: int| 0 <= i < list.len() ==> (#[trigger] list[i]).user_id != id) ==> noticed(
            before,
            list,
        ).dom().contains(id) == before.dom().contains(id) && (before.dom().contains(id) ==> noticed(
            before,
            list,
        )[id] == before[id]),
    decreases list.len(),
{
    if list.len() > 0 {
        lemma_noticed(before, list.drop_last(), id);
        if forall|i: int| 0 <= i < list.len() ==> (#[trigger] list[i]).user_id != id {
            assert forall|i: int| 0 <= i < list.drop_last().len() implies (
            #[trigger] list.drop_last()[i]).user_id != id by {
                assert(list.drop_last()[i] == list[i]);
            }
            assert(list[list.len() - 1].user_id != id);
        }
    }
}

/// Somebody is announced exactly when they are in a game now and were seen before,
/// not in one; what is remembered of them then is whether they are in a game now.
pub proof fn law_who_is_announced(before: Map<i64, bool>, list: Seq<Presence>)
    requires
        list.len() <= usize::MAX,
        forall|i: int, j: int|
            0 <= i < j < list.len() ==> (#[trigger] list[i]).user_id != (#[trigger] list[j]).user_id,
    ensures
        forall|i: int|
            0 <= i < list.len() ==> (started(before, list).contains(i as usize) <==> (
            #[trigger] list[i]).kind == PresenceKind::InGame && before.dom().contains(
                list[i].user_id,
            ) && !before[list[i].user_id]),
        forall|i: int|
            0 <= i < list.len() ==> noticed(before, list).dom().contains(
                (#[trigger] list[i]).user_id,
            ) && noticed(before, list)[list[i].user_id] == (list[i].kind == PresenceKind::InGame),
        forall|k: int|
            0 <= k < started(before, list).len() ==> #[trigger] started(before, list)[k]
                < list.len(),
    decreases list.len(),
{
    if list.len() > 0 {
        let fewer = list.drop_last();
        let n = list.len() - 1;
        assert forall|i: int, j: int| 0 <= i < j < fewer.len() implies (#[trigger] fewer[i]).user_id
            != (#[trigger] fewer[j]).user_id by {
            assert(fewer[i] == list[i] && fewer[j] == list[j]);
        }
        law_who_is_announced(before, fewer);
        let earlier = started(before, fewer);
        let out = started(before, list);
        assert forall|i: int| 0 <= i < fewer.len() implies (#[trigger] fewer[i]).user_id
            != list[n].user_id by {
            assert(fewer[i] == list[i]);
            assert(list[i].user_id != list[n].user_id);
        }
        lemma_noticed(before, fewer, list[n].user_id);
        assert(list.last() == list[n]);
        assert forall|i: int| 0 <= i < list.len() implies (out.contains(i as usize) <==> (
        #[trigger] list[i]).kind == PresenceKind::InGame && before.dom().contains(list[i].user_id)
            && !before[list[i].user_id]) by {
            if i < n {
                assert(fewer[i] == list[i]);
                if earlier.contains(i as usize) {
                    let k = choose|k: int| 0 <= k < earlier.len() && earlier[k] == i as usize;
                    assert(out[k] == i as usize);
                }
                if out.contains(i as usize) {
                    let k = choose|k: int| 0 <= k < out.len() && out[k] == i as usize;
                    assert(k < earlier.len());
                    assert(earlier[k] == i as usize);
                }
            } else {
                if earlier.contains(n as usize) {
                    let k = choose|k: int| 0 <= k < earlier.len() && earlier[k] == n as usize;
                    assert(earlier[k] < fewer.len());
                }
                if out.len() > earlier.len() {
                    assert(out[earlier.len() as int] == n as usize);
                }
            }
        }
        assert forall|i: int| 0 <= i < list.len() implies noticed(before, list).dom().contains(
            (#[trigger] list[i]).user_id,
        ) && noticed(before, list)[list[i].user_id] == (list[i].kind == PresenceKind::InGame) by {
            if i < n {
                assert(fewer[i] == list[i]);
                assert(list[i].user_id != list[n].user_id);
            }
        }
        assert forall|k: int| 0 <= k < out.len() implies #[trigger] out[k] < list.len() by {
            if k < earlier.len() {
                assert(out[k] == earlier[k]);
            }
        }
    }
}

/// What is announced: who is playing, by display name where that is known and by
/// number otherwise, and what, where that is known.
pub proof fn law_what_is_announced_of_a_player(names: Seq<User>, p: Presence, k: int)
    requires
        0 <= k <= names.len(),
        forall|j: int| 0 <= j < k ==> (#[trigger] names[j]).id != p.user_id,
        k < names.len() ==> names[k].id == p.user_id,
    ensures
        ({
            let who = if k < names.len() {
                names[k].display_name@
            } else {
                "User "@ + decimal_int(p.user_id as int)
            };
            playing_news(names, p) == (if p.location@.len() == 0 {
                who + " is in a game"@
            } else {
                who + " is playing "@ + p.location@
            })
        }),
{
    lemma_name_known(names, p.user_id, k);
}

proof fn lemma_name_known(names: Seq<User>, id: i64, k: int)
    requires
        0 <= k <= names.len(),
        forall|j: int| 0 <= j < k ==> (#[trigger] names[j]).id != id,
        k < names.len() ==> names[k].id == id,
    ensures
        name_known(names, id) == (if k < names.len() {
            Some(names[k].display_name@)
        } else {
            None
        }),
    decreases k,
{
    if k > 0 {
        assert(names[0].id != id);
        assert forall|j: int| 0 <= j < k - 1 implies (#[trigger] names.skip(1)[j]).id != id by {
            assert(names.skip(1)[j] == names[j + 1]);
        }
        if k < names.len() {
            assert(names.skip(1)[k - 1] == names[k]);
        }
        lemma_name_known(names.skip(1), id, k - 1);
    }
}

/// Friend requests are announced when there are more than the last time, by how many;
/// the first look, and a smaller number, say nothing.
pub proof fn law_what_is_announced_of_requests(before: i64, count: i64)
    ensures
        request_news(None, count) is None,
        count <= before ==> request_news(Some(before), count) is None,
        count == before + 1 ==> request_news(Some(before), count)
            == Some("You have a new friend request"@),
        count > before + 1 ==> request_news(Some(before), count) == Some(
            "You have "@ + decimal_int(count - before) + " new friend requests"@,
        ),
{
}

/// The user's own playtime is recorded, once the account is known, and that of the
/// pinned friends behind it where that is wanted; nobody is recorded as their own
/// friend.
pub proof fn law_whose_playtime_is_recorded(me: i64, pinned: Seq<i64>, track_friends: bool)
    ensures
        me != 0 ==> recorded_ids(me, pinned, false) == seq![me],
        me == 0 ==> recorded_ids(me, pinned, false).len() == 0,
        me != 0 ==> recorded_ids(me, pinned, true) == seq![me] + pinned.filter(|id: i64| id != me),
        me == 0 ==> recorded_ids(me, pinned, true) == pinned.filter(|id: i64| id != 0),
{
    lemma_ids_without(pinned, me);
    if me == 0 {
        assert(recorded_ids(me, pinned, true) =~= pinned.filter(|id: i64| id != me));
        assert((|id: i64| id != me) =~= (|id: i64| id != 0));
    }
}

proof fn lemma_ids_without(ids: Seq<i64>, id: i64)
    ensures
        ids_without(ids, id) == ids.filter(|x: i64| x != id),
    decreases ids.len(),
{
    reveal(Seq::filter);
    if ids.len() > 0 {
        lemma_ids_without(ids.drop_last(), id);
    }
    assert(ids_without(ids, id) =~= ids.filter(|x: i64| x != id));
}

/// What is recorded of somebody in a game: a friend under their number and the user
/// under none, the game where it is known, and its root place, or else the place they
/// are in. Somebody who is not in a game is not recorded.
pub proof fn law_what_is_recorded(p: Presence, me: i64, client_running: bool, unknown: i64)
    ensures
        p.kind != PresenceKind::InGame ==> observation_of(p, me, client_running, unknown) is None,
        p.kind == PresenceKind::InGame && (p.user_id != me || client_running) ==> (observation_of(
            p,
            me,
            client_running,
            unknown,
        ) matches Some(o) && {
            &&& p.user_id == me ==> o.friend is None
            &&& p.user_id != me ==> o.friend == Some(p.user_id)
            &&& p.universe_id matches Some(u) ==> o.universe_id == u
            &&& p.universe_id is None ==> o.universe_id == unknown
            &&& p.root_place_id matches Some(r) ==> o.root_place_id == r
            &&& p.root_place_id is None ==> (p.place_id matches Some(q) ==> o.root_place_id == q)
            &&& p.root_place_id is None && p.place_id is None ==> o.root_place_id == 0
        }),
{
}

/// The games that are watched are the favourites and then those that were looked at,
/// each once, and twelve of them at most.
pub proof fn law_which_games_are_watched(favorites: Seq<(i64, i64)>, looked_at: Seq<(i64, i64)>)
    ensures
        games_watched(favorites, looked_at).len() <= 12,
        favorites.len() <= 12 ==> favorites.is_prefix_of(games_watched(favorites, looked_at)),
        with_games(favorites, looked_at).len() <= 12 ==> games_watched(favorites, looked_at)
            == with_games(favorites, looked_at),
        with_games(favorites, looked_at).len() > 12 ==> games_watched(favorites, looked_at)
            == with_games(favorites, looked_at).take(12),
        forall|i: int|
            0 <= i < looked_at.len() ==> has_place(
                with_games(favorites, looked_at),
                (#[trigger] looked_at[i]).0,
            ),
{
    lemma_with_games(favorites, looked_at);
    let all = with_games(favorites, looked_at);
    if favorites.len() <= 12 {
        assert(favorites =~= games_watched(favorites, looked_at).subrange(
            0,
            favorites.len() as int,
        ));
    }
}

proof fn lemma_with_games(have: Seq<(i64, i64)>, more: Seq<(i64, i64)>)
    ensures
        have.len() <= with_games(have, more).len(),
        forall|i: int| 0 <= i < have.len() ==> #[trigger] with_games(have, more)[i] == have[i],
        forall|i: int|
            0 <= i < more.len() ==> has_place(with_games(have, more), (#[trigger] more[i]).0),
    decreases more.len(),
{
    if more.len() > 0 {
        let fewer = more.drop_last();
        lemma_with_games(have, fewer);
        let before = with_games(have, fewer);
        let out = with_games(have, more);
        assert forall|i: int| 0 <= i < more.len() implies has_place(out, (#[trigger] more[i]).0) by {
            if i < more.len() - 1 {
                assert(fewer[i] == more[i]);
                let k = choose|k: int| 0 <= k < before.len() && (#[trigger] before[k]).0 == more[i].0;
                assert(out[k] == before[k]);
            } else if !has_place(before, more.last().0) {
                assert(out[before.len() as int].0 == more[i].0);
            }
        }
    }
}

/// A game is sampled that has no sample yet, or whose last one is as old as the gap.
pub proof fn law_which_games_are_due(
    games: Seq<(i64, i64)>,
    g: (i64, i64),
    last: Seq<Option<i64>>,
    now: i64,
    gap: i64,
)
    requires
        last.len() == games.len() + 1,
    ensures
        games_due(games.push(g), last, now, gap) == (match last[games.len() as int] {
            Some(at) => if now - at >= gap {
                games_due(games, last, now, gap).push(g)
            } else {
                games_due(games, last, now, gap)
            },
            None => games_due(games, last, now, gap).push(g),
        }),
{
    assert(games.push(g).drop_last() =~= games);
}

/// A sample says what the game's page says, under its root place: the numbers of
/// players and visits, and its votes, which are none where they are not known.
pub proof fn law_what_a_sample_says(d: GameDetail, votes: Seq<Votes>, now: i64, k: int)
    requires
        0 <= k <= votes.len(),
        forall|j: int| 0 <= j < k ==> (#[trigger] votes[j]).id != d.id,
        k < votes.len() ==> votes[k].id == d.id,
    ensures
        d.root_place_id == 0 ==> sample_for(d, votes, now) is None,
        d.root_place_id != 0 ==> (sample_for(d, votes, now) matches Some(s) && {
            &&& s.0 == d.root_place_id
            &&& s.1.at == now
            &&& s.1.universe_id == d.id
            &&& s.1.playing == d.playing
            &&& s.1.visits == d.visits
            &&& k < votes.len() ==> s.1.upvotes == votes[k].up_votes && s.1.downvotes
                == votes[k].down_votes
            &&& k == votes.len() ==> s.1.upvotes == 0 && s.1.downvotes == 0
        }),
{
    lemma_votes_found(votes, d.id, k);
}

/// The votes of a game are the first that are given for it.
pub proof fn lemma_votes_found(votes: Seq<Votes>, id: i64, k: int)
    requires
        0 <= k <= votes.len(),
        forall|j: int| 0 <= j < k ==> (#[trigger] votes[j]).id != id,
        k < votes.len() ==> votes[k].id == id,
    ensures
        votes_for(votes, id) == (if k < votes.len() {
            Some(votes[k])
        } else {
            None
        }),
    decreases k,
{
    if k > 0 {
        assert(votes[0].id != id);
        assert forall|j: int| 0 <= j < k - 1 implies (#[trigger] votes.skip(1)[j]).id != id by {
            assert(votes.skip(1)[j] == votes[j + 1]);
        }
        if k < votes.len() {
            assert(votes.skip(1)[k - 1] == votes[k]);
        }
        lemma_votes_found(votes.skip(1), id, k - 1);
    }
}

/// How a text is written for XML: its five special characters by name, and everything
/// else as it is.
pub proof fn law_xml_names(s: Seq<char>, c: char)
    ensures
        xml_text(Seq::empty()).len() == 0,
        xml_text(s.push(c)) == xml_text(s) + (if c == '&' {
            "&amp;"@
        } else if c == '<' {
            "&lt;"@
        } else if c == '>' {
            "&gt;"@
        } else if c == '"' {
            "&quot;"@
        } else if c == '\'' {
            "&apos;"@
        } else {
            seq![c]
        }),
{
    assert(s.push(c).drop_last() =~= s);
}

} // verus!
