//! The service's own home feed, for its recently-played list.
//!
//! Recency from the service reflects everything the account played, not just
//! what was launched from here.

use crate::json::{json_quote, quoted};
use crate::text::{cat3, same};
use vstd::arithmetic::power::pow;
use vstd::prelude::*;
use vstd::string::*;

verus! {

pub const OMNI: &'static str = "https://apis.roblox.com/discovery-api/omni-recommendation";

/// The "Continue" sort. It is matched on its number: its name is display text
/// and comes back localised.
pub const CONTINUE_TOPIC_ID: i64 = 100_000_003;

#[derive(Debug, Default)]
pub struct Feed {
    pub sorts: Vec<Sort>,
}

#[derive(Debug, Default)]
pub struct Sort {
    pub topic_id: i64,
    pub recommendation_list: Vec<Recommendation>,
}

#[derive(Debug, Default)]
pub struct Recommendation {
    pub content_type: String,
    pub content_id: i64,
}

/// The row is a game that can be opened.
pub open spec fn is_playable(r: Recommendation) -> bool {
    r.content_type@ == "Game"@ && r.content_id != 0
}

/// The games of a list, in its order.
pub open spec fn playable_ids(list: Seq<Recommendation>) -> Seq<i64>
    decreases list.len(),
{
    if list.len() == 0 {
        Seq::empty()
    } else {
        let earlier = playable_ids(list.drop_last());
        if is_playable(list.last()) {
            earlier.push(list.last().content_id)
        } else {
            earlier
        }
    }
}

/// Where the first "Continue" sort is.
pub open spec fn continue_at(sorts: Seq<Sort>, i: int) -> Option<int>
    decreases sorts.len() - i,
{
    if i < 0 || i >= sorts.len() {
        None
    } else if sorts[i].topic_id == CONTINUE_TOPIC_ID {
        Some(i)
    } else {
        continue_at(sorts, i + 1)
    }
}

/// No more than the first `n`.
pub open spec fn first_ids(s: Seq<i64>, n: nat) -> Seq<i64> {
    if s.len() <= n {
        s
    } else {
        s.take(n as int)
    }
}

/// The universes played most recently, newest first.
pub open spec fn recent_of(feed: Feed, limit: nat) -> Seq<i64> {
    match continue_at(feed.sorts@, 0) {
        Some(i) => first_ids(playable_ids(feed.sorts@[i].recommendation_list@), limit),
        None => Seq::empty(),
    }
}

proof fn lemma_playable_prefix(list: Seq<Recommendation>, i: int)
    requires
        0 <= i <= list.len(),
    ensures
        playable_ids(list.take(i)).len() <= playable_ids(list).len(),
        playable_ids(list.take(i)) == playable_ids(list).take(
            playable_ids(list.take(i)).len() as int,
        ),
    decreases list.len() - i,
{
    if i < list.len() {
        lemma_playable_prefix(list, i + 1);
        assert(list.take(i + 1).drop_last() =~= list.take(i));
        let a = playable_ids(list.take(i));
        let b = playable_ids(list.take(i + 1));
        assert(a =~= b.take(a.len() as int));
        assert(a =~= playable_ids(list).take(a.len() as int));
    } else {
        assert(list.take(i) =~= list);
        assert(playable_ids(list).take(playable_ids(list).len() as int) =~= playable_ids(list));
    }
}

/// The universes the account played most recently, newest first. None at all is
/// a normal answer: a new account has nothing to continue.
pub fn continue_universes(feed: &Feed, limit: usize) -> (out: Vec<i64>)
    ensures
        out@ == recent_of(*feed, limit as nat),
{
    let mut out: Vec<i64> = Vec::new();
    let mut s: usize = 0;
    while s < feed.sorts.len() && feed.sorts[s].topic_id != CONTINUE_TOPIC_ID
        invariant
            s <= feed.sorts.len(),
            continue_at(feed.sorts@, 0) == continue_at(feed.sorts@, s as int),
        decreases feed.sorts.len() - s,
    {
        s = s + 1;
    }
    if s == feed.sorts.len() {
        return out;
    }
    let list = &feed.sorts[s].recommendation_list;
    let mut i: usize = 0;
    assert(list@.take(0) =~= Seq::<Recommendation>::empty());
    while i < list.len() && out.len() < limit
        invariant
            i <= list.len(),
            out.len() <= limit,
            out@ == playable_ids(list@.take(i as int)),
        decreases list.len() - i,
    {
        assert(list@.take(i as int + 1).drop_last() =~= list@.take(i as int));
        if same(list[i].content_type.as_str(), "Game") && list[i].content_id != 0 {
            out.push(list[i].content_id);
        }
        i = i + 1;
    }
    proof {
        lemma_playable_prefix(list@, i as int);
        assert(list@.take(list@.len() as int) =~= list@);
        let all = playable_ids(list@);
        assert(all.take(all.len() as int) =~= all);
    }
    out
}

/// One hexadecimal digit in lower case.
pub open spec fn hex_lower(d: int) -> char {
    if d < 10 {
        (('0' as u32) + d) as char
    } else {
        (('a' as u32) + d - 10) as char
    }
}

/// The last `width` hexadecimal digits of a number, in lower case.
pub open spec fn hex_padded(n: nat, width: nat) -> Seq<char>
    decreases width,
{
    if width == 0 {
        Seq::empty()
    } else {
        hex_padded(n / 16, (width - 1) as nat).push(hex_lower((n % 16) as int))
    }
}

fn hex_digit(d: u8) -> (c: char)
    requires
        d < 16,
    ensures
        c == hex_lower(d as int),
{
    if d < 10 {
        (48u8 + d) as char
    } else {
        (87u8 + d) as char
    }
}

fn push_hex(s: &mut String, n: u64, width: usize)
    ensures
        final(s)@ == old(s)@ + hex_padded(n as nat, width as nat),
    decreases width,
{
    if width > 0 {
        push_hex(s, n / 16, width - 1);
        s.push(hex_digit((n % 16) as u8));
    }
    assert(s@ =~= old(s)@ + hex_padded(n as nat, width as nat));
}

/// The seventeen highest bits of a clock reading, which a rotation to the left by
/// seventeen brings to the bottom.
pub open spec fn top_bits(n: nat) -> nat {
    n / 0x8000_0000_0000_0000_0000_0000_0000
}

/// A session id made from a clock reading in nanoseconds: shaped like a GUID of
/// the fourth version.
pub open spec fn session_text(n: nat) -> Seq<char> {
    hex_padded(n % 0x1_0000_0000, 8) + "-"@ + hex_padded(n / 0x1_0000_0000 % 0x1_0000, 4) + "-4"@
        + hex_padded(n / 0x1_0000_0000_0000 % 0x1000, 3) + "-8"@ + hex_padded(
        n / 0x1000_0000_0000_0000 % 0x1000,
        3,
    ) + "-"@ + hex_padded((n * 0x2_0000 + top_bits(n)) % 0x1_0000_0000_0000, 12)
}

/// A session id for the feed, from a clock reading in nanoseconds. One value for
/// the life of the application is enough: it identifies a session, not a user.
pub fn session_id(nanos: u128) -> (r: String)
    ensures
        r@ == session_text(nanos as nat),
{
    let n: u128 = nanos;
    let mut s = String::new();
    push_hex(&mut s, (n % 0x1_0000_0000) as u64, 8);
    s.append("-");
    push_hex(&mut s, (n / 0x1_0000_0000 % 0x1_0000) as u64, 4);
    s.append("-4");
    push_hex(&mut s, (n / 0x1_0000_0000_0000 % 0x1000) as u64, 3);
    s.append("-8");
    push_hex(&mut s, (n / 0x1000_0000_0000_0000 % 0x1000) as u64, 3);
    s.append("-");
    let low: u128 = n % 0x8000_0000;
    let high: u128 = n / 0x8000_0000_0000_0000_0000_0000_0000;
    let turned: u128 = low * 0x2_0000 + high;
    proof {
        lemma_turned(n as nat);
    }
    push_hex(&mut s, (turned % 0x1_0000_0000_0000) as u64, 12);
    assert(s@ =~= session_text(nanos as nat));
    s
}

proof fn lemma_turned(n: nat)
    ensures
        (n * 0x2_0000 + top_bits(n)) % 0x1_0000_0000_0000 == ((n % 0x8000_0000) * 0x2_0000
            + top_bits(n)) % 0x1_0000_0000_0000,
{
    let q = n / 0x8000_0000;
    let r = n % 0x8000_0000;
    let t = top_bits(n);
    assert(n == q * 0x8000_0000 + r);
    assert(n * 0x2_0000 + t == (r * 0x2_0000 + t) + q * 0x1_0000_0000_0000);
    vstd::arithmetic::div_mod::lemma_mod_multiples_vanish(
        q as int,
        (r * 0x2_0000 + t) as int,
        0x1_0000_0000_0000,
    );
}

proof fn lemma_hex_len(n: nat, width: nat)
    ensures
        hex_padded(n, width).len() == width,
    decreases width,
{
    if width > 0 {
        lemma_hex_len(n / 16, (width - 1) as nat);
    }
}

/// Every session id has the shape of a GUID: thirty-six characters, with dashes
/// after the eighth, the twelfth, the sixteenth and the twentieth digit.
pub proof fn law_session_ids_are_guid_shaped(n: nat)
    ensures
        session_text(n).len() == 36,
        session_text(n)[8] == '-',
        session_text(n)[13] == '-',
        session_text(n)[14] == '4',
        session_text(n)[18] == '-',
        session_text(n)[19] == '8',
        session_text(n)[23] == '-',
{
    reveal_strlit("-");
    reveal_strlit("-4");
    reveal_strlit("-8");
    lemma_hex_len(n % 0x1_0000_0000, 8);
    lemma_hex_len(n / 0x1_0000_0000 % 0x1_0000, 4);
    lemma_hex_len(n / 0x1_0000_0000_0000 % 0x1000, 3);
    lemma_hex_len(n / 0x1000_0000_0000_0000 % 0x1000, 3);
    lemma_hex_len((n * 0x2_0000 + top_bits(n)) % 0x1_0000_0000_0000, 12);
}

/// The body of a request for the home feed, for one session.
pub fn feed_body(session: &str) -> (body: String)
    ensures
        body@ == "{\"pageType\":\"Home\",\"sessionId\":"@ + quoted(session@)
            + ",\"supportedTreatmentTypes\":[\"SortlessGrid\",\"CarouselComponent\",\"AvatarCarousel\",\"FriendCarousel\",\"InterestTitle\"]}"@,
{
    cat3(
        "{\"pageType\":\"Home\",\"sessionId\":",
        json_quote(session).as_str(),
        ",\"supportedTreatmentTypes\":[\"SortlessGrid\",\"CarouselComponent\",\"AvatarCarousel\",\"FriendCarousel\",\"InterestTitle\"]}",
    )
}

/// The games of a list are its rows of the kind `Game` that have a universe, in the
/// order of the list.
pub proof fn law_games_of_a_list(list: Seq<Recommendation>)
    ensures
        playable_ids(list) == list.filter(
            |r: Recommendation| r.content_type@ == "Game"@ && r.content_id != 0,
        ).map_values(|r: Recommendation| r.content_id),
    decreases list.len(),
{
    let keep = |r: Recommendation| r.content_type@ == "Game"@ && r.content_id != 0;
    reveal(Seq::filter);
    if list.len() > 0 {
        law_games_of_a_list(list.drop_last());
    }
    assert(playable_ids(list) =~= list.filter(keep).map_values(
        |r: Recommendation| r.content_id,
    ));
}

/// What was played last is read from the first sort with the number of the "Continue"
/// row, as many of its games as asked for; without such a sort there is nothing.
pub proof fn law_recent_games(feed: Feed, limit: nat, k: int)
    requires
        0 <= k <= feed.sorts@.len(),
        forall|j: int| 0 <= j < k ==> (#[trigger] feed.sorts@[j]).topic_id != 100_000_003,
        k < feed.sorts@.len() ==> feed.sorts@[k].topic_id == 100_000_003,
    ensures
        k == feed.sorts@.len() ==> recent_of(feed, limit).len() == 0,
        k < feed.sorts@.len() ==> {
            let all = playable_ids(feed.sorts@[k].recommendation_list@);
            &&& all.len() <= limit ==> recent_of(feed, limit) == all
            &&& all.len() > limit ==> recent_of(feed, limit) == all.take(limit as int)
        },
{
    lemma_continue_at(feed.sorts@, 0, k);
}

proof fn lemma_continue_at(sorts: Seq<Sort>, i: int, k: int)
    requires
        0 <= i <= k <= sorts.len(),
        forall|j: int| i <= j < k ==> (#[trigger] sorts[j]).topic_id != 100_000_003,
        k < sorts.len() ==> sorts[k].topic_id == 100_000_003,
    ensures
        continue_at(sorts, i) == (if k < sorts.len() {
            Some(k)
        } else {
            None
        }),
    decreases k - i,
{
    if i < k {
        assert(sorts[i].topic_id != 100_000_003);
        lemma_continue_at(sorts, i + 1, k);
    }
}

/// The value of one hexadecimal digit in lower case.
pub open spec fn hex_worth(c: char) -> nat {
    if c <= '9' {
        (c as u32 - '0' as u32) as nat
    } else {
        (c as u32 - 'a' as u32 + 10) as nat
    }
}

/// The number that a row of hexadecimal digits denotes.
pub open spec fn hex_read(s: Seq<char>) -> nat
    decreases s.len(),
{
    if s.len() == 0 {
        0
    } else {
        hex_read(s.drop_last()) * 16 + hex_worth(s.last())
    }
}

/// Digits that are enough for a number read back as it, and each of them is `0` to
/// `9` or `a` to `f`.
pub proof fn law_hex_reads_back(n: nat, width: nat)
    ensures
        n < pow(16, width) ==> hex_read(hex_padded(n, width)) == n,
        forall|i: int|
            0 <= i < hex_padded(n, width).len() ==> '0' <= #[trigger] hex_padded(n, width)[i] <= '9'
                || 'a' <= hex_padded(n, width)[i] <= 'f',
    decreases width,
{
    reveal(pow);
    if width > 0 {
        let w = (width - 1) as nat;
        law_hex_reads_back(n / 16, w);
        let s = hex_padded(n, width);
        assert(s.drop_last() =~= hex_padded(n / 16, w));
        assert(s.last() == hex_lower((n % 16) as int));
        assert forall|i: int| 0 <= i < s.len() implies '0' <= #[trigger] s[i] <= '9' || 'a' <= s[i]
            <= 'f' by {
            if i < s.len() - 1 {
                assert(s[i] == hex_padded(n / 16, w)[i]);
            }
        }
    }
}

/// Where the home feed is asked for.
pub proof fn law_feed_service()
    ensures
        OMNI@ == "https://apis.roblox.com/discovery-api/omni-recommendation"@,
{
}

} // verus!
