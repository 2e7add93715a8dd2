//! Where pictures are.
//!
//! Always in batches: pictures are the most frequent call there is, and one
//! request per visible tile is the fastest way to get an account throttled. A
//! picture that is still being rendered is left out, so it is asked for again
//! later rather than kept broken.

use crate::json::{json_quote, quoted};
use crate::number::{decimal, law_decimal_reads_back, nat_text, read_nat};
use crate::roblox::games::{join_ids, joined};
use crate::roblox::models::Thumbnail;
use crate::text::{cat2, cat3, cat4, cat5, same};
use std::collections::HashMap;
use vstd::prelude::*;

verus! {

pub const THUMBS: &'static str = "https://thumbnails.roblox.com/v1";

/// The most ids one request may carry.
pub const BATCH: usize = 100;

/// How long to wait before each look at a picture that is being redrawn, in
/// milliseconds.
pub const WAITS_MS: [u64; 5] = [0, 700, 1500, 2500, 4000];

/// The kinds of pictures that are looked up by id.
#[derive(Debug, Clone, Copy, PartialEq, Eq, Structural)]
pub enum Picture {
    GameArt,
    GameIcon,
    Headshot,
    Avatar,
    GroupIcon,
    Outfit,
    Badge,
    GamePass,
    Asset,
}

pub open spec fn picture_path(p: Picture) -> Seq<char> {
    match p {
        Picture::GameArt => "/games/multiget/thumbnails?universeIds="@,
        Picture::GameIcon => "/games/icons?universeIds="@,
        Picture::Headshot => "/users/avatar-headshot?userIds="@,
        Picture::Avatar => "/users/avatar?userIds="@,
        Picture::GroupIcon => "/groups/icons?groupIds="@,
        Picture::Outfit => "/users/outfits?userOutfitIds="@,
        Picture::Badge => "/badges/icons?badgeIds="@,
        Picture::GamePass => "/game-passes?gamePassIds="@,
        Picture::Asset => "/assets?assetIds="@,
    }
}

pub open spec fn picture_form(p: Picture) -> Seq<char> {
    match p {
        Picture::GameArt => "&size=768x432&format=Png&isCircular=false"@,
        Picture::GameIcon => "&size=512x512&format=Png&isCircular=false"@,
        Picture::Headshot => "&size=150x150&format=Png&isCircular=false"@,
        Picture::Avatar => "&size=420x420&format=Png&isCircular=false"@,
        Picture::GroupIcon => "&size=420x420&format=Png&isCircular=false"@,
        Picture::Outfit => "&size=150x150&format=Png&isCircular=false"@,
        Picture::Badge => "&size=150x150&format=Png&isCircular=false"@,
        Picture::GamePass => "&size=150x150&format=Png&isCircular=false"@,
        Picture::Asset => "&size=420x420&format=Png&isCircular=false"@,
    }
}

/// The request for a batch of pictures.
pub fn pictures_url(p: Picture, ids: &Vec<i64>) -> (url: String)
    ensures
        url@ == THUMBS@ + picture_path(p) + joined(ids@) + picture_form(p),
{
    let path = match p {
        Picture::GameArt => "/games/multiget/thumbnails?universeIds=",
        Picture::GameIcon => "/games/icons?universeIds=",
        Picture::Headshot => "/users/avatar-headshot?userIds=",
        Picture::Avatar => "/users/avatar?userIds=",
        Picture::GroupIcon => "/groups/icons?groupIds=",
        Picture::Outfit => "/users/outfits?userOutfitIds=",
        Picture::Badge => "/badges/icons?badgeIds=",
        Picture::GamePass => "/game-passes?gamePassIds=",
        Picture::Asset => "/assets?assetIds=",
    };
    let form = match p {
        Picture::GameArt => "&size=768x432&format=Png&isCircular=false",
        Picture::GameIcon => "&size=512x512&format=Png&isCircular=false",
        Picture::Headshot => "&size=150x150&format=Png&isCircular=false",
        Picture::Avatar => "&size=420x420&format=Png&isCircular=false",
        Picture::GroupIcon => "&size=420x420&format=Png&isCircular=false",
        Picture::Outfit => "&size=150x150&format=Png&isCircular=false",
        Picture::Badge => "&size=150x150&format=Png&isCircular=false",
        Picture::GamePass => "&size=150x150&format=Png&isCircular=false",
        Picture::Asset => "&size=420x420&format=Png&isCircular=false",
    };
    cat4(THUMBS, path, join(ids).as_str(), form)
}

/// The ids with commas between them.
pub fn join(ids: &Vec<i64>) -> (r: String)
    ensures
        r@ == joined(ids@),
{
    join_ids(ids)
}

/// The addresses by id, after the ready ones of a list were added in order.
pub open spec fn with_ready(
    before: Map<i64, Seq<char>>,
    list: Seq<Thumbnail>,
) -> Map<i64, Seq<char>>
    decreases list.len(),
{
    if list.len() == 0 {
        before
    } else {
        let earlier = with_ready(before, list.drop_last());
        match list.last().ready() {
            Some(u) => earlier.insert(list.last().target_id, u),
            None => earlier,
        }
    }
}

pub open spec fn addresses(m: Map<i64, String>) -> Map<i64, Seq<char>> {
    m.map_values(|s: String| s@)
}

/// Add the pictures of a batch that are ready.
pub fn collect_ready(out: &mut HashMap<i64, String>, list: &Vec<Thumbnail>)
    ensures
        addresses(final(out)@) == with_ready(addresses(old(out)@), list@),
{
    broadcast use vstd::std_specs::hash::group_hash_axioms;

    let ghost before = addresses(out@);
    let mut i: usize = 0;
    assert(list@.take(0) =~= Seq::<Thumbnail>::empty());
    while i < list.len()
        invariant
            i <= list.len(),
            addresses(out@) == with_ready(before, list@.take(i as int)),
        decreases list.len() - i,
    {
        assert(list@.take(i as int + 1).drop_last() =~= list@.take(i as int));
        assert(list@.take(i as int + 1).last() == list@[i as int]);
        match list[i].ready_url() {
            Some(u) => {
                let ghost mid = out@;
                let s = u.to_owned();
                out.insert(list[i].target_id, s);
                assert(addresses(out@) =~= addresses(mid).insert(list@[i as int].target_id, s@));
            },
            None => {},
        }
        i = i + 1;
    }
    assert(list@.take(list@.len() as int) =~= list@);
}

/// The pictures of one game.
#[derive(Debug)]
pub struct GameThumbGroup {
    pub universe_id: i64,
    pub thumbnails: Vec<Thumbnail>,
}

/// The first picture of a list that is ready.
pub open spec fn first_ready(list: Seq<Thumbnail>) -> Option<Seq<char>>
    decreases list.len(),
{
    if list.len() == 0 {
        None
    } else if list[0].ready() is Some {
        list[0].ready()
    } else {
        first_ready(list.skip(1))
    }
}

pub open spec fn with_art(
    before: Map<i64, Seq<char>>,
    groups: Seq<GameThumbGroup>,
) -> Map<i64, Seq<char>>
    decreases groups.len(),
{
    if groups.len() == 0 {
        before
    } else {
        let earlier = with_art(before, groups.drop_last());
        match first_ready(groups.last().thumbnails@) {
            Some(u) => earlier.insert(groups.last().universe_id, u),
            None => earlier,
        }
    }
}

/// The first picture of a list that is ready.
pub fn first_ready_url(list: &Vec<Thumbnail>) -> (r: Option<String>)
    ensures
        crate::text::opt_text(r) == first_ready(list@),
{
    let mut i: usize = 0;
    assert(list@.skip(0) =~= list@);
    while i < list.len()
        invariant
            i <= list.len(),
            first_ready(list@) == first_ready(list@.skip(i as int)),
        decreases list.len() - i,
    {
        assert(list@.skip(i as int)[0] == list@[i as int]);
        assert(list@.skip(i as int).skip(1) =~= list@.skip(i as int + 1));
        match list[i].ready_url() {
            Some(u) => {
                return Some(u.to_owned());
            },
            None => {},
        }
        i = i + 1;
    }
    None
}

/// Add the wide art of the games of a batch, by universe id: the first picture
/// of each that is ready.
pub fn collect_art(out: &mut HashMap<i64, String>, groups: &Vec<GameThumbGroup>)
    ensures
        addresses(final(out)@) == with_art(addresses(old(out)@), groups@),
{
    broadcast use vstd::std_specs::hash::group_hash_axioms;

    let ghost before = addresses(out@);
    let mut i: usize = 0;
    assert(groups@.take(0) =~= Seq::<GameThumbGroup>::empty());
    while i < groups.len()
        invariant
            i <= groups.len(),
            addresses(out@) == with_art(before, groups@.take(i as int)),
        decreases groups.len() - i,
    {
        assert(groups@.take(i as int + 1).drop_last() =~= groups@.take(i as int));
        assert(groups@.take(i as int + 1).last() == groups@[i as int]);
        match first_ready_url(&groups[i].thumbnails) {
            Some(s) => {
                let ghost mid = out@;
                let ghost t = s@;
                out.insert(groups[i].universe_id, s);
                assert(addresses(out@) =~= addresses(mid).insert(
                    groups@[i as int].universe_id,
                    t,
                ));
            },
            None => {},
        }
        i = i + 1;
    }
    assert(groups@.take(groups@.len() as int) =~= groups@);
}

/// What to do about a picture that is being redrawn.
#[derive(Debug)]
pub enum Look {
    /// It is there.
    Found(String),
    /// Look again after so many milliseconds.
    Wait(u64),
    /// It has taken too long.
    GiveUp,
}

/// What to do about an avatar after `looks` looks, the last of which found these
/// pictures. A change of clothes has the avatar redrawn, and until that is done
/// there is no picture: a single look would find nothing.
pub fn avatar_when_ready(looks: usize, pictures: &HashMap<i64, String>, user_id: i64) -> (r: Look)
    ensures
        if pictures@.contains_key(user_id) {
            r matches Look::Found(url) && url@ == pictures@[user_id]@
        } else if looks < 5 {
            r matches Look::Wait(ms) && ms == WAITS_MS@[looks as int]
        } else {
            r is GiveUp
        },
{
    broadcast use vstd::std_specs::hash::group_hash_axioms;

    match pictures.get(&user_id) {
        Some(url) => Look::Found(url.clone()),
        None => if looks < 5 {
            Look::Wait(WAITS_MS[looks])
        } else {
            Look::GiveUp
        },
    }
}

/// A picture that is not ready is not kept: every address kept from a batch is
/// of a picture in it that was ready.
pub proof fn law_only_ready_pictures_are_kept(list: Seq<Thumbnail>, id: i64)
    requires
        with_ready(Map::empty(), list).dom().contains(id),
    ensures
        exists|i: int|
            0 <= i < list.len() && (#[trigger] list[i]).target_id == id && list[i].ready() == Some(
                with_ready(Map::empty(), list)[id],
            ),
    decreases list.len(),
{
    if list.len() > 0 {
        let earlier = with_ready(Map::empty(), list.drop_last());
        if list.last().ready() is Some && list.last().target_id == id {
            assert(list[list.len() - 1].target_id == id);
        } else {
            law_only_ready_pictures_are_kept(list.drop_last(), id);
            let i = choose|i: int|
                0 <= i < list.drop_last().len() && (#[trigger] list.drop_last()[i]).target_id == id
                    && list.drop_last()[i].ready() == Some(earlier[id]);
            assert(list[i] == list.drop_last()[i]);
        }
    }
}

/// A server exposes tokens in place of user ids. One answer to a batch of them.
#[derive(Debug)]
pub struct TokenItem {
    pub request_id: String,
    pub state: String,
    pub image_url: Option<String>,
}

/// Where a batch of tokens is sent.
pub fn batch_url() -> (url: String)
    ensures
        url@ == THUMBS@ + "/batch"@,
{
    cat2(THUMBS, "/batch")
}

/// The id that a token's request carries: its place in the whole list.
pub fn token_request_id(chunk: usize, at: usize) -> (r: String)
    requires
        chunk * BATCH + at <= u64::MAX,
        chunk * BATCH + at <= usize::MAX,
    ensures
        r@ == decimal((chunk * BATCH + at) as nat),
{
    nat_text((chunk * BATCH + at) as u64)
}

/// The place in the list that an answer is for, where it has one among `n`.
pub open spec fn slot_of(item: TokenItem, n: nat) -> Option<int> {
    match read_nat(item.request_id@) {
        Some(k) => if item.state@ == "Completed"@ && k < n {
            Some(k as int)
        } else {
            None
        },
        None => None,
    }
}

/// Put the answers to a batch where they belong.
pub fn place_answers(out: &mut Vec<Option<String>>, items: Vec<TokenItem>)
    ensures
        final(out)@ == placed(old(out)@, items@),
{
    let ghost all = items@;
    let ghost before = out@;
    let mut left = crate::order::flipped(items);
    let ghost mut done: int = 0;
    assert(all.take(0) =~= Seq::<TokenItem>::empty());
    while left.len() > 0
        invariant
            left.len() + done == all.len(),
            0 <= done,
            forall|k: int| 0 <= k < left.len() ==> #[trigger] left@[k] == all[all.len() - 1 - k],
            out@ == placed(before, all.take(done)),
            out.len() == before.len(),
        decreases left.len(),
    {
        assert(left@[left.len() - 1] == all[done]);
        assert(all.take(done + 1).drop_last() =~= all.take(done));
        assert(all.take(done + 1).last() == all[done]);
        proof {
            lemma_placed_len(before, all.take(done));
        }
        match left.pop() {
            Some(item) => {
                if same(item.state.as_str(), "Completed") {
                    match crate::number::parse_index(item.request_id.as_str(), out.len()) {
                        Some(k) => {
                            out.set(k, item.image_url);
                        },
                        None => {},
                    }
                }
            },
            None => {},
        }
        proof {
            done = done + 1;
        }
    }
    assert(all.take(all.len() as int) =~= all);
}

/// The list after the answers were put in their places, in order.
pub open spec fn placed(
    before: Seq<Option<String>>,
    items: Seq<TokenItem>,
) -> Seq<Option<String>>
    decreases items.len(),
{
    if items.len() == 0 {
        before
    } else {
        let earlier = placed(before, items.drop_last());
        match slot_of(items.last(), before.len()) {
            Some(k) => earlier.update(k, items.last().image_url),
            None => earlier,
        }
    }
}

proof fn lemma_placed_len(before: Seq<Option<String>>, items: Seq<TokenItem>)
    ensures
        placed(before, items).len() == before.len(),
    decreases items.len(),
{
    if items.len() > 0 {
        lemma_placed_len(before, items.drop_last());
    }
}

/// An answer without a place of its own changes nothing, and no answer makes the
/// list longer or shorter.
pub proof fn law_stray_answers_are_dropped(before: Seq<Option<String>>, items: Seq<TokenItem>)
    ensures
        placed(before, items).len() == before.len(),
        (forall|i: int| 0 <= i < items.len() ==> slot_of(#[trigger] items[i], before.len()) is None)
            ==> placed(before, items) == before,
    decreases items.len(),
{
    if items.len() > 0 {
        law_stray_answers_are_dropped(before, items.drop_last());
        if forall|i: int| 0 <= i < items.len() ==> slot_of(#[trigger] items[i], before.len()) is None {
            assert(slot_of(items[items.len() - 1], before.len()) is None);
            assert forall|i: int| 0 <= i < items.drop_last().len() implies slot_of(
                #[trigger] items.drop_last()[i],
                before.len(),
            ) is None by {
                assert(items.drop_last()[i] == items[i]);
            }
        }
    }
}

/// One entry of a batch of tokens.
pub open spec fn token_entry(id: nat, token: Seq<char>) -> Seq<char> {
    "{\"format\":\"png\",\"requestId\":\""@ + decimal(id)
        + "\",\"size\":\"150x150\",\"targetId\":0,\"token\":"@ + quoted(token)
        + ",\"type\":\"AvatarHeadShot\"}"@
}

/// The entries of a batch whose first token has the place `from` in the whole
/// list.
pub open spec fn token_entries(tokens: Seq<String>, from: nat) -> Seq<char>
    decreases tokens.len(),
{
    if tokens.len() == 0 {
        Seq::empty()
    } else if tokens.len() == 1 {
        token_entry(from, tokens[0]@)
    } else {
        token_entries(tokens.drop_last(), from) + ","@ + token_entry(
            (from + tokens.len() - 1) as nat,
            tokens.last()@,
        )
    }
}

/// The body of a request for the head shots behind the `chunk`-th batch of
/// tokens.
pub fn tokens_body(chunk: usize, tokens: &Vec<String>) -> (body: String)
    requires
        chunk * BATCH + tokens.len() <= u64::MAX,
        chunk * BATCH + tokens.len() <= usize::MAX,
    ensures
        body@ == "["@ + token_entries(tokens@, (chunk * BATCH) as nat) + "]"@,
{
    let ghost from = (chunk * BATCH) as nat;
    let mut s = String::new();
    let mut i: usize = 0;
    assert(tokens@.take(0) =~= Seq::<String>::empty());
    while i < tokens.len()
        invariant
            i <= tokens.len(),
            chunk * BATCH + tokens.len() <= u64::MAX,
            chunk * BATCH + tokens.len() <= usize::MAX,
            from == chunk * BATCH,
            s@ == token_entries(tokens@.take(i as int), from),
        decreases tokens.len() - i,
    {
        let ghost before = s@;
        assert(tokens@.take(i as int + 1).drop_last() =~= tokens@.take(i as int));
        assert(tokens@.take(i as int + 1).last() == tokens@[i as int]);
        if i > 0 {
            s.append(",");
        }
        let entry = cat5(
            "{\"format\":\"png\",\"requestId\":\"",
            token_request_id(chunk, i).as_str(),
            "\",\"size\":\"150x150\",\"targetId\":0,\"token\":",
            json_quote(tokens[i].as_str()).as_str(),
            ",\"type\":\"AvatarHeadShot\"}",
        );
        assert(entry@ == token_entry((from + i) as nat, tokens@[i as int]@));
        s.append(entry.as_str());
        proof {
            if i == 0 {
                assert(before =~= Seq::<char>::empty());
                assert(s@ =~= entry@);
            }
        }
        i = i + 1;
    }
    assert(tokens@.take(tokens@.len() as int) =~= tokens@);
    cat3("[", s.as_str(), "]")
}

/// Each kind of picture is asked for under its own address, by ids of its own kind,
/// and in the size it is shown in.
pub proof fn law_pictures_are_asked_for_by_kind(p: Picture, ids: Seq<i64>)
    ensures
        THUMBS@ + picture_path(p) + joined(ids) + picture_form(p) == match p {
            Picture::GameArt => "https://thumbnails.roblox.com/v1/games/multiget/thumbnails?universeIds="@ + joined(ids)
                + "&size=768x432&format=Png&isCircular=false"@,
            Picture::GameIcon => "https://thumbnails.roblox.com/v1/games/icons?universeIds="@ + joined(ids)
                + "&size=512x512&format=Png&isCircular=false"@,
            Picture::Headshot => "https://thumbnails.roblox.com/v1/users/avatar-headshot?userIds="@ + joined(ids)
                + "&size=150x150&format=Png&isCircular=false"@,
            Picture::Avatar => "https://thumbnails.roblox.com/v1/users/avatar?userIds="@ + joined(ids)
                + "&size=420x420&format=Png&isCircular=false"@,
            Picture::GroupIcon => "https://thumbnails.roblox.com/v1/groups/icons?groupIds="@ + joined(ids)
                + "&size=420x420&format=Png&isCircular=false"@,
            Picture::Outfit => "https://thumbnails.roblox.com/v1/users/outfits?userOutfitIds="@ + joined(ids)
                + "&size=150x150&format=Png&isCircular=false"@,
            Picture::Badge => "https://thumbnails.roblox.com/v1/badges/icons?badgeIds="@ + joined(ids)
                + "&size=150x150&format=Png&isCircular=false"@,
            Picture::GamePass => "https://thumbnails.roblox.com/v1/game-passes?gamePassIds="@ + joined(ids)
                + "&size=150x150&format=Png&isCircular=false"@,
            Picture::Asset => "https://thumbnails.roblox.com/v1/assets?assetIds="@ + joined(ids)
                + "&size=420x420&format=Png&isCircular=false"@,
        },
{
    reveal_strlit("https://thumbnails.roblox.com/v1");
    reveal_strlit("/games/multiget/thumbnails?universeIds=");
    reveal_strlit("/games/icons?universeIds=");
    reveal_strlit("/users/avatar-headshot?userIds=");
    reveal_strlit("/users/avatar?userIds=");
    reveal_strlit("/groups/icons?groupIds=");
    reveal_strlit("/users/outfits?userOutfitIds=");
    reveal_strlit("/badges/icons?badgeIds=");
    reveal_strlit("/game-passes?gamePassIds=");
    reveal_strlit("/assets?assetIds=");
    reveal_strlit("https://thumbnails.roblox.com/v1/games/multiget/thumbnails?universeIds=");
    reveal_strlit("https://thumbnails.roblox.com/v1/games/icons?universeIds=");
    reveal_strlit("https://thumbnails.roblox.com/v1/users/avatar-headshot?userIds=");
    reveal_strlit("https://thumbnails.roblox.com/v1/users/avatar?userIds=");
    reveal_strlit("https://thumbnails.roblox.com/v1/groups/icons?groupIds=");
    reveal_strlit("https://thumbnails.roblox.com/v1/users/outfits?userOutfitIds=");
    reveal_strlit("https://thumbnails.roblox.com/v1/badges/icons?badgeIds=");
    reveal_strlit("https://thumbnails.roblox.com/v1/game-passes?gamePassIds=");
    reveal_strlit("https://thumbnails.roblox.com/v1/assets?assetIds=");
    assert(THUMBS@ + "/games/multiget/thumbnails?universeIds="@ =~= "https://thumbnails.roblox.com/v1/games/multiget/thumbnails?universeIds="@);
    assert(THUMBS@ + "/games/icons?universeIds="@ =~= "https://thumbnails.roblox.com/v1/games/icons?universeIds="@);
    assert(THUMBS@ + "/users/avatar-headshot?userIds="@ =~= "https://thumbnails.roblox.com/v1/users/avatar-headshot?userIds="@);
    assert(THUMBS@ + "/users/avatar?userIds="@ =~= "https://thumbnails.roblox.com/v1/users/avatar?userIds="@);
    assert(THUMBS@ + "/groups/icons?groupIds="@ =~= "https://thumbnails.roblox.com/v1/groups/icons?groupIds="@);
    assert(THUMBS@ + "/users/outfits?userOutfitIds="@ =~= "https://thumbnails.roblox.com/v1/users/outfits?userOutfitIds="@);
    assert(THUMBS@ + "/badges/icons?badgeIds="@ =~= "https://thumbnails.roblox.com/v1/badges/icons?badgeIds="@);
    assert(THUMBS@ + "/game-passes?gamePassIds="@ =~= "https://thumbnails.roblox.com/v1/game-passes?gamePassIds="@);
    assert(THUMBS@ + "/assets?assetIds="@ =~= "https://thumbnails.roblox.com/v1/assets?assetIds="@);
}

/// The request for a picture waits longer before each look.
pub proof fn law_looks_are_spaced(i: int)
    requires
        0 <= i < 5,
    ensures
        WAITS_MS@ == seq![0u64, 700u64, 1500u64, 2500u64, 4000u64],
        i > 0 ==> WAITS_MS@[i - 1] < WAITS_MS@[i],
        BATCH == 100,
{
    assert(WAITS_MS@ =~= seq![0u64, 700u64, 1500u64, 2500u64, 4000u64]);
}

/// A picture that is ready is kept under its target, the last one of several, and
/// what was known of a target without one stays.
pub proof fn law_the_last_ready_picture_is_kept(
    before: Map<i64, Seq<char>>,
    list: Seq<Thumbnail>,
    id: i64,
)
    ensures
        forall|k: int|
            0 <= k < list.len() && (#[trigger] list[k]).target_id == id && list[k].ready() is Some
                && (forall|j: int|
                k < j < list.len() ==> (#[trigger] list[j]).target_id != id || list[j].ready() is None)
                ==> with_ready(before, list).dom().contains(id) && with_ready(before, list)[id]
                == list[k].ready()->0,
        (forall|k: int|
            0 <= k < list.len() ==> (#[trigger] list[k]).target_id != id || list[k].ready() is None)
            ==> with_ready(before, list).dom().contains(id) == before.dom().contains(id) && (
        before.dom().contains(id) ==> with_ready(before, list)[id] == before[id]),
    decreases list.len(),
{
    if list.len() > 0 {
        let fewer = list.drop_last();
        law_the_last_ready_picture_is_kept(before, fewer, id);
        let n = list.len() - 1;
        assert(list.last() == list[n]);
        assert forall|k: int|
            0 <= k < list.len() && (#[trigger] list[k]).target_id == id && list[k].ready() is Some
                && (forall|j: int|
                k < j < list.len() ==> (#[trigger] list[j]).target_id != id || list[j].ready() is None)
            implies with_ready(before, list).dom().contains(id) && with_ready(before, list)[id]
            == list[k].ready()->0 by {
            if k < n {
                assert(fewer[k] == list[k]);
                assert forall|j: int| k < j < fewer.len() implies (#[trigger] fewer[j]).target_id
                    != id || fewer[j].ready() is None by {
                    assert(fewer[j] == list[j]);
                }
                assert(list[n].target_id != id || list[n].ready() is None);
            }
        }
        if forall|k: int|
            0 <= k < list.len() ==> (#[trigger] list[k]).target_id != id || list[k].ready() is None {
            assert forall|k: int| 0 <= k < fewer.len() implies (#[trigger] fewer[k]).target_id != id
                || fewer[k].ready() is None by {
                assert(fewer[k] == list[k]);
            }
            assert(list[n].target_id != id || list[n].ready() is None);
        }
    }
}

/// The art of a game is the first of its pictures that is ready.
pub proof fn law_the_first_ready_picture_is_the_art(list: Seq<Thumbnail>, k: int)
    requires
        0 <= k <= list.len(),
        forall|j: int| 0 <= j < k ==> (#[trigger] list[j]).ready() is None,
        k < list.len() ==> list[k].ready() is Some,
    ensures
        first_ready(list) == (if k < list.len() {
            list[k].ready()
        } else {
            None
        }),
    decreases k,
{
    if k > 0 {
        assert(list[0].ready() is None);
        assert forall|j: int| 0 <= j < k - 1 implies (#[trigger] list.skip(1)[j]).ready() is None by {
            assert(list.skip(1)[j] == list[j + 1]);
        }
        if k < list.len() {
            assert(list.skip(1)[k - 1] == list[k]);
        }
        law_the_first_ready_picture_is_the_art(list.skip(1), k - 1);
    }
}

/// The art of a game goes under its universe, and a game without any changes nothing.
pub proof fn law_art_goes_under_its_universe(
    before: Map<i64, Seq<char>>,
    groups: Seq<GameThumbGroup>,
    g: GameThumbGroup,
)
    ensures
        match first_ready(g.thumbnails@) {
            Some(u) => with_art(before, groups.push(g)) == with_art(before, groups).insert(
                g.universe_id,
                u,
            ),
            None => with_art(before, groups.push(g)) == with_art(before, groups),
        },
        with_art(before, Seq::empty()) == before,
{
    assert(groups.push(g).drop_last() =~= groups);
}

/// An answer goes to the place that its request named, once it is completed, and the
/// last of several counts.
pub proof fn law_answers_go_to_their_places(
    before: Seq<Option<String>>,
    items: Seq<TokenItem>,
    at: int,
    k: int,
)
    requires
        0 <= at < before.len(),
        0 <= k < items.len(),
        items[k].request_id@ == decimal(at as nat),
        items[k].state@ == "Completed"@,
        forall|j: int| k < j < items.len() ==> (#[trigger] items[j]).request_id@ != decimal(at as nat)
            || items[j].state@ != "Completed"@,
        forall|j: int|
            0 <= j < items.len() ==> exists|n: nat|
                (#[trigger] items[j]).request_id@ == #[trigger] decimal(n),
    ensures
        placed(before, items)[at] == items[k].image_url,
    decreases items.len(),
{
    let n = items.len() - 1;
    let fewer = items.drop_last();
    lemma_placed_len(before, fewer);
    assert(items.last() == items[n]);
    if k < n {
        assert forall|j: int| k < j < fewer.len() implies (#[trigger] fewer[j]).request_id@
            != decimal(at as nat) || fewer[j].state@ != "Completed"@ by {
            assert(fewer[j] == items[j]);
        }
        assert forall|j: int| 0 <= j < fewer.len() implies exists|n: nat|
            (#[trigger] fewer[j]).request_id@ == #[trigger] decimal(n) by {
            assert(fewer[j] == items[j]);
        }
        law_answers_go_to_their_places(before, fewer, at, k);
        assert(items[n].request_id@ != decimal(at as nat) || items[n].state@ != "Completed"@);
        let m = choose|m: nat| items[n].request_id@ == #[trigger] decimal(m);
        law_decimal_reads_back(m as int);
        law_decimal_reads_back(at);
    } else {
        law_decimal_reads_back(at);
    }
}

/// What is asked for behind a token: a head shot of 150 pixels under the token's
/// place in the list. Further tokens follow behind a comma.
pub proof fn law_tokens_are_asked_for(tokens: Seq<String>, token: String, from: nat)
    ensures
        token_entries(tokens.push(token), from) == (if tokens.len() == 0 {
            Seq::empty()
        } else {
            token_entries(tokens, from) + ","@
        }) + "{\"format\":\"png\",\"requestId\":\""@ + decimal(from + tokens.len())
            + "\",\"size\":\"150x150\",\"targetId\":0,\"token\":"@ + quoted(token@)
            + ",\"type\":\"AvatarHeadShot\"}"@,
{
    let all = tokens.push(token);
    assert(all.drop_last() =~= tokens);
    assert(all.last() == token);
    assert(token_entries(all, from) =~= (if tokens.len() == 0 {
        Seq::empty()
    } else {
        token_entries(tokens, from) + ","@
    }) + token_entry(from + tokens.len(), token@));
    assert(token_entries(all, from) =~= (if tokens.len() == 0 {
        Seq::empty()
    } else {
        token_entries(tokens, from) + ","@
    }) + "{\"format\":\"png\",\"requestId\":\""@ + decimal(from + tokens.len())
        + "\",\"size\":\"150x150\",\"targetId\":0,\"token\":"@ + quoted(token@)
        + ",\"type\":\"AvatarHeadShot\"}"@);
}

} // verus!
