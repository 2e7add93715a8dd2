//! Groups: membership, detail, ranks, and joining or leaving.

use crate::number::{decimal, decimal_int, int_text, nat_text};
use crate::order::{lemma_permutation_hits, rearranged, sorted_order, SortKey};
use crate::roblox::models::UserSearchResult;
use crate::roblox::{allowed_limit, is_page_limit, page_limit};
use crate::text::{cat2, cat3, cat4, cat5};
use vstd::prelude::*;

verus! {

pub const GROUPS: &'static str = "https://groups.roblox.com/v1";

#[derive(Debug, Clone, Default)]
pub struct Group {
    pub id: i64,
    pub name: String,
    pub description: Option<String>,
    pub member_count: i64,
    pub owner: Option<GroupOwner>,
    pub shout: Option<Shout>,
    pub public_entry_allowed: bool,
    pub has_verified_badge: bool,
}

#[derive(Debug, Clone, Default)]
pub struct GroupOwner {
    pub user_id: i64,
    pub username: String,
    pub display_name: String,
    pub has_verified_badge: bool,
}

#[derive(Debug, Clone, Default)]
pub struct Shout {
    pub body: String,
    pub poster: Option<GroupOwner>,
    pub updated: Option<String>,
}

#[derive(Debug, Clone, Default)]
pub struct Role {
    pub id: i64,
    pub name: String,
    pub rank: i32,
    /// Only the group's own roles listing carries this; in a membership record
    /// it is zero.
    pub member_count: i64,
}

#[derive(Debug, Clone, Default)]
pub struct Membership {
    pub group: Group,
    pub role: Role,
}

/// The groups a user belongs to, with their role in each.
pub fn of_user_url(user_id: i64) -> (url: String)
    ensures
        url@ == GROUPS@ + "/users/"@ + decimal_int(user_id as int) + "/groups/roles"@,
{
    cat4(GROUPS, "/users/", int_text(user_id).as_str(), "/groups/roles")
}

pub fn group_url(group_id: i64) -> (url: String)
    ensures
        url@ == GROUPS@ + "/groups/"@ + decimal_int(group_id as int),
{
    cat3(GROUPS, "/groups/", int_text(group_id).as_str())
}

/// The write that joins a group.
pub fn join_url(group_id: i64) -> (url: String)
    ensures
        url@ == GROUPS@ + "/groups/"@ + decimal_int(group_id as int) + "/users"@,
{
    cat4(GROUPS, "/groups/", int_text(group_id).as_str(), "/users")
}

/// The membership that leaving a group deletes.
pub fn leave_url(group_id: i64, user_id: i64) -> (url: String)
    ensures
        url@ == GROUPS@ + "/groups/"@ + decimal_int(group_id as int) + "/users/"@ + decimal_int(
            user_id as int,
        ),
{
    cat5(
        GROUPS,
        "/groups/",
        int_text(group_id).as_str(),
        "/users/",
        int_text(user_id).as_str(),
    )
}

pub fn roles_url(group_id: i64) -> (url: String)
    ensures
        url@ == GROUPS@ + "/groups/"@ + decimal_int(group_id as int) + "/roles"@,
{
    cat4(GROUPS, "/groups/", int_text(group_id).as_str(), "/roles")
}

/// The members holding one role. Walking the ladder from the top gives a list
/// that really is ordered by rank.
pub fn role_members_url(group_id: i64, role_id: i64, limit: u32) -> (url: String)
    ensures
        exists|n: u32|
            #![trigger allowed_limit(n)]
            is_page_limit(limit, n) && url@ == GROUPS@ + "/groups/"@ + decimal_int(group_id as int)
                + "/roles/"@ + decimal_int(role_id as int) + ("/users?limit="@ + decimal(n as nat)
                + "&sortOrder=Asc"@),
{
    let n: u32 = page_limit(limit);
    assert(allowed_limit(n));
    let head = cat5(
        GROUPS,
        "/groups/",
        int_text(group_id).as_str(),
        "/roles/",
        int_text(role_id).as_str(),
    );
    cat2(
        head.as_str(),
        cat3("/users?limit=", nat_text(n as u64).as_str(), "&sortOrder=Asc").as_str(),
    )
}

/// `out` is the roles by descending rank; `order` says where each came from, and
/// roles of one rank keep their order.
pub open spec fn ladder_is(roles: Seq<Role>, out: Seq<Role>, order: Seq<usize>) -> bool {
    &&& crate::order::is_permutation(order, roles.len())
    &&& out.len() == roles.len()
    &&& forall|i: int| 0 <= i < out.len() ==> #[trigger] out[i] == roles[order[i] as int]
    &&& forall|i: int, j: int|
        0 <= i < j < out.len() ==> (#[trigger] out[i]).rank >= (#[trigger] out[j]).rank && (
        out[i].rank == out[j].rank ==> order[i] < order[j])
}

/// The group's rank ladder, highest rank first.
pub fn roles(list: Vec<Role>) -> (out: Vec<Role>)
    ensures
        exists|order: Seq<usize>| #[trigger] ladder_is(list@, out@, order),
{
    let mut keys: Vec<SortKey> = Vec::new();
    let mut i: usize = 0;
    while i < list.len()
        invariant
            i <= list.len(),
            keys.len() == i,
            forall|k: int|
                0 <= k < i ==> (#[trigger] keys@[k]).first == -(list@[k].rank as int)
                    && keys@[k].second == 0 && keys@[k].name@.len() == 0,
        decreases list.len() - i,
    {
        keys.push(SortKey { first: -(list[i].rank as i64), second: 0, name: String::new() });
        i = i + 1;
    }
    let order = sorted_order(&keys);
    let ghost input = list@;
    let out = rearranged(list, &order);
    proof {
        assert forall|i: int, j: int| 0 <= i < j < out.len() implies (#[trigger] out@[i]).rank >= (
        #[trigger] out@[j]).rank && (out@[i].rank == out@[j].rank ==> order@[i] < order@[j]) by {
            assert(crate::order::precedes(keys@, order@[i], order@[j]));
            assert(out@[i] == input[order@[i] as int]);
            assert(out@[j] == input[order@[j] as int]);
            assert(keys@[order@[i] as int].name@.len() == 0);
            assert(keys@[order@[j] as int].name@.len() == 0);
        }
        assert(ladder_is(input, out@, order@));
    }
    out
}

/// A member as the listing sends it.
#[derive(Debug, Default)]
pub struct MemberRow {
    pub user_id: i64,
    pub username: String,
    pub display_name: String,
    pub has_verified_badge: bool,
}

pub fn member(row: MemberRow) -> (u: UserSearchResult)
    ensures
        u.id == row.user_id,
        u.name == row.username,
        u.display_name == row.display_name,
        u.has_verified_badge == row.has_verified_badge,
{
    UserSearchResult {
        id: row.user_id,
        name: row.username,
        display_name: row.display_name,
        has_verified_badge: row.has_verified_badge,
    }
}

/// The ladder starts with the highest rank and goes down; every role is on it, and
/// roles of one rank stay in the order they came in.
pub proof fn law_the_ladder_goes_down(roles: Seq<Role>, out: Seq<Role>, order: Seq<usize>)
    requires
        ladder_is(roles, out, order),
        roles.len() <= usize::MAX,
    ensures
        out.len() == roles.len(),
        forall|i: int, j: int|
            0 <= i < j < out.len() ==> (#[trigger] out[i]).rank >= (#[trigger] out[j]).rank,
        forall|i: int| 0 <= i < roles.len() ==> out.contains(#[trigger] roles[i]),
        forall|i: int, j: int|
            #![trigger out[i], out[j]]
            0 <= i < j < out.len() && out[i].rank == out[j].rank ==> exists|a: int, b: int|
                #![trigger roles[a], roles[b]]
                0 <= a < b < roles.len() && roles[a] == out[i] && roles[b] == out[j],
{
    assert forall|i: int| 0 <= i < roles.len() implies out.contains(#[trigger] roles[i]) by {
        lemma_permutation_hits(order, roles.len(), i as usize);
        let p = choose|p: int| 0 <= p < order.len() && order[p] == i as usize;
        assert(out[p] == roles[i]);
    }
    assert forall|i: int, j: int|
        #![trigger out[i], out[j]]
        0 <= i < j < out.len() && out[i].rank == out[j].rank implies exists|a: int, b: int|
        #![trigger roles[a], roles[b]]
        0 <= a < b < roles.len() && roles[a] == out[i] && roles[b] == out[j] by {
        let a = order[i] as int;
        let b = order[j] as int;
        assert(roles[a] == out[i] && roles[b] == out[j]);
    }
}

/// Where groups are asked about.
pub proof fn law_group_service()
    ensures
        GROUPS@ == "https://groups.roblox.com/v1"@,
{
}

} // verus!
