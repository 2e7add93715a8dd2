//! User lookups.
//!
//! Resolving names one at a time is what gets an account throttled, so lookups
//! go out in batches.

use crate::clock::{date_of, elapsed_seconds, in_calendar, present, seconds_after, Moment};
use crate::number::{decimal_int, int_text};
use crate::roblox::games::{join_ids, joined};
use crate::text::{cat2, cat3, cat4};
use vstd::prelude::*;

verus! {

pub const USERS: &'static str = "https://users.roblox.com/v1";

/// The most ids one lookup may carry.
pub const BATCH: usize = 100;

/// Who is this cookie? Also the liveness check for a stored session.
pub fn authenticated_url() -> (url: String)
    ensures
        url@ == USERS@ + "/users/authenticated"@,
{
    cat2(USERS, "/users/authenticated")
}

pub fn user_url(user_id: i64) -> (url: String)
    ensures
        url@ == USERS@ + "/users/"@ + decimal_int(user_id as int),
{
    cat3(USERS, "/users/", int_text(user_id).as_str())
}

/// Where a batch of ids is posted.
pub fn batch_url() -> (url: String)
    ensures
        url@ == USERS@ + "/users"@,
{
    cat2(USERS, "/users")
}

/// Former user names.
pub fn previous_usernames_url(user_id: i64) -> (url: String)
    ensures
        url@ == USERS@ + "/users/"@ + decimal_int(user_id as int)
            + "/username-history?limit=25&sortOrder=Desc"@,
{
    cat4(
        USERS,
        "/users/",
        int_text(user_id).as_str(),
        "/username-history?limit=25&sortOrder=Desc",
    )
}

/// Whole years, of 365 days, in a number of seconds, cut towards zero.
pub open spec fn whole_years(secs: int) -> int {
    if secs >= 0 {
        secs / 86_400 / 365
    } else {
        -((-secs) / 86_400 / 365)
    }
}

pub fn years_of(secs: i64) -> (r: i64)
    ensures
        r == whole_years(secs as int),
{
    if secs >= 0 {
        secs / 86_400 / 365
    } else {
        let n: u64 = if secs == i64::MIN {
            0x8000_0000_0000_0000u64
        } else {
            (-secs) as u64
        };
        -((n / 86_400 / 365) as i64)
    }
}

/// The age at `now` of an account made at an RFC 3339 time.
pub open spec fn age_at(created: Seq<char>, now: Moment) -> Option<i64> {
    match seconds_after(created, now) {
        Some(secs) => Some(whole_years(secs as int) as i64),
        None => None,
    }
}

pub fn account_age_years_at(created: &str, now: Moment) -> (r: Option<i64>)
    ensures
        r == age_at(created@, now),
        r is Some <==> date_of(created@) is Some && in_calendar(now),
{
    match elapsed_seconds(created, now) {
        Some(secs) => Some(years_of(secs)),
        None => None,
    }
}

/// Account age in whole years.
pub fn account_age_years(created: &str) -> (r: Option<i64>)
    ensures
        exists|now: Moment|
            in_calendar(now) && now.secs >= 0 && r == #[trigger] age_at(created@, now),
        r is Some <==> date_of(created@) is Some,
{
    let now = present();
    account_age_years_at(created, now)
}

/// The body of a request for a batch of users. Banned ones are wanted too: they
/// may be friends.
pub fn batch_body(batch: &Vec<i64>) -> (body: String)
    ensures
        body@ == "{\"excludeBannedUsers\":false,\"userIds\":["@ + joined(batch@) + "]}"@,
{
    cat3("{\"excludeBannedUsers\":false,\"userIds\":[", join_ids(batch).as_str(), "]}")
}

/// A year is 365 days: an account is as many years old as it has had whole ones.
pub proof fn law_whole_years(secs: int)
    ensures
        secs >= 0 ==> whole_years(secs) * 31_536_000 <= secs < (whole_years(secs) + 1) * 31_536_000,
        secs <= 0 ==> whole_years(secs) == -whole_years(-secs),
{
    if secs >= 0 {
        assert(secs / 86_400 / 365 * 31_536_000 <= secs < (secs / 86_400 / 365 + 1) * 31_536_000)
            by (nonlinear_arith)
            requires
                secs >= 0,
        ;
    }
}

/// Where users are looked up, and how many at a time.
pub proof fn law_user_service()
    ensures
        USERS@ == "https://users.roblox.com/v1"@,
        BATCH == 100,
{
}

} // verus!
