//! Shared response types.
//!
//! Ids are 64-bit throughout: place, universe, user and group ids all exceed 32
//! bits. A key that is present but null is an `Option`, read with a default.

use crate::ratio::{percent_of, percent_spec};
use crate::text::same;
use vstd::prelude::*;

verus! {

/// The ubiquitous `{ "data": [...] }` envelope.
#[derive(Debug, Clone)]
pub struct DataList<T> {
    pub data: Vec<T>,
}

impl<T> Default for DataList<T> {
    fn default() -> (r: Self)
        ensures
            r.data@ == Seq::<T>::empty(),
    {
        DataList { data: Vec::new() }
    }
}

/// The paginated envelope: `{ data, nextPageCursor }`.
#[derive(Debug, Clone)]
pub struct Page<T> {
    pub data: Vec<T>,
    pub next_page_cursor: Option<String>,
}

impl<T> Default for Page<T> {
    fn default() -> (r: Self)
        ensures
            r.data@ == Seq::<T>::empty(),
            r.next_page_cursor is None,
    {
        Page { data: Vec::new(), next_page_cursor: None }
    }
}

#[derive(Debug, Clone, Default)]
pub struct GameDetail {
    /// The universe id.
    pub id: i64,
    pub root_place_id: i64,
    pub name: String,
    pub description: Option<String>,
    pub creator: Creator,
    pub price: Option<i64>,
    pub playing: i64,
    pub visits: i64,
    pub max_players: i32,
    pub created: String,
    pub updated: String,
    pub genre: Option<String>,
    pub favorited_count: i64,
    pub is_favorited_by_user: bool,
}

#[derive(Debug, Clone, Default)]
pub struct Creator {
    pub id: i64,
    pub name: String,
    /// `User` or `Group`.
    pub kind: String,
    pub has_verified_badge: bool,
}

#[derive(Debug, Clone, Default)]
pub struct Votes {
    pub id: i64,
    pub up_votes: i64,
    pub down_votes: i64,
}

/// The share of positive votes in percent, or nothing when nobody has voted.
pub open spec fn vote_percent(up: int, down: int) -> Option<i32> {
    if up + down > 0 {
        Some(percent_spec(up, up + down))
    } else {
        None
    }
}

/// The share of positive votes in percent, or nothing when nobody has voted.
pub fn share_of_votes(up: i64, down: i64) -> (r: Option<i32>)
    requires
        i64::MIN <= up + down <= i64::MAX,
    ensures
        r == vote_percent(up as int, down as int),
{
    let total: i64 = up + down;
    if total > 0 {
        Some(percent_of(up, total))
    } else {
        None
    }
}

impl Votes {
    /// The approval percentage, or `None` when nobody has voted: "0%" for an
    /// unvoted game would mislead.
    pub fn percent(&self) -> (r: Option<i32>)
        requires
            i64::MIN <= self.up_votes + self.down_votes <= i64::MAX,
        ensures
            r == vote_percent(self.up_votes as int, self.down_votes as int),
    {
        share_of_votes(self.up_votes, self.down_votes)
    }
}

/// A place inside a universe.
#[derive(Debug, Clone, Default)]
pub struct Place {
    pub id: i64,
    pub universe_id: i64,
    pub name: String,
    pub description: Option<String>,
}

#[derive(Debug, Clone, Default)]
pub struct Server {
    pub id: String,
    pub max_players: i32,
    pub playing: i32,
    pub ping: Option<i32>,
    /// The frame rate, as the bits of a double.
    pub fps: Option<u64>,
    /// Tokens for the head shots of players in the server, when supplied.
    pub player_tokens: Option<Vec<String>>,
}

#[derive(Debug, Clone, Default)]
pub struct MediaItem {
    pub id: i64,
    pub asset_type: String,
    pub image_id: Option<i64>,
    pub video_hash: Option<String>,
    pub alt_text: Option<String>,
}

#[derive(Debug, Clone, Default)]
pub struct GamePass {
    pub id: i64,
    pub name: String,
    pub price: Option<i64>,
}

#[derive(Debug, Clone, Default)]
pub struct Badge {
    pub id: i64,
    pub name: String,
    pub description: Option<String>,
    pub enabled: bool,
}

#[derive(Debug, Clone, Default)]
pub struct GameSearchResult {
    pub universe_id: i64,
    pub root_place_id: i64,
    pub name: String,
    pub creator_name: String,
    pub player_count: i64,
    pub total_up_votes: i64,
    pub total_down_votes: i64,
}

#[derive(Debug, Clone, Default)]
pub struct UserSearchResult {
    pub id: i64,
    pub name: String,
    pub display_name: String,
    pub has_verified_badge: bool,
}

#[derive(Debug, Clone, Default)]
pub struct GroupSearchResult {
    pub id: i64,
    pub name: String,
    pub member_count: i64,
    pub has_verified_badge: bool,
}

#[derive(Debug, Clone, Default)]
pub struct User {
    pub id: i64,
    pub name: String,
    pub display_name: String,
    pub description: Option<String>,
    pub created: Option<String>,
    pub has_verified_badge: bool,
}

#[derive(Debug, Clone, Default)]
pub struct AuthedUser {
    pub id: i64,
    pub name: String,
    pub display_name: String,
}

#[derive(Debug, Clone, Default)]
pub struct Thumbnail {
    pub target_id: i64,
    pub state: String,
    pub image_url: Option<String>,
}

impl Thumbnail {
    /// The address of a picture that has been rendered.
    pub open spec fn ready(&self) -> Option<Seq<char>> {
        if self.state@ == "Completed"@ {
            match self.image_url {
                Some(u) => Some(u@),
                None => None,
            }
        } else {
            None
        }
    }

    /// The address of the picture, once it is ready. While the service renders
    /// it, the state is `Pending` and there is no address.
    pub fn ready_url(&self) -> (r: Option<&str>)
        ensures
            match r {
                Some(u) => self.ready() == Some(u@),
                None => self.ready() is None,
            },
    {
        if same(self.state.as_str(), "Completed") {
            match &self.image_url {
                Some(u) => Some(u.as_str()),
                None => None,
            }
        } else {
            None
        }
    }
}

/// A picture has an address exactly when the service has finished it and gives one.
pub proof fn law_pictures_are_ready_when_completed(t: Thumbnail)
    ensures
        t.state@ == "Completed"@ ==> match t.image_url {
            Some(u) => t.ready() == Some(u@),
            None => t.ready() is None,
        },
        t.state@ != "Completed"@ ==> t.ready() is None,
{
}

} // verus!
