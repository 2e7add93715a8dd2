//! Friend requests that wait for an answer.

use crate::desktop::adapters::{item_is, DetailItem};
use crate::desktop::lists::add_text;
use crate::desktop::lists::{lemma_lists, with_text};
use crate::number::{decimal_int, int_text, parse_i64, read_i64};
use crate::roblox::error::Error;
use crate::roblox::models::User;
use crate::text::{cat2, is_listed, lists, same, texts};
use vstd::prelude::*;

verus! {

/// The requests on screen, and those that were answered. The service goes on
/// reporting an answered request for a while, so they are left out of every list
/// that comes.
pub struct Requests {
    pub rows: Vec<DetailItem>,
    pub handled: Vec<String>,
    /// An answer is on its way. The service limits these hard, so there is one
    /// at a time.
    pub busy: bool,
    pub status: String,
}

/// What is to be sent.
#[derive(Debug, Clone, Copy, PartialEq, Eq, Structural)]
pub enum Reply {
    Accept(i64),
    Decline(i64),
}

/// The users whose requests were not answered yet.
pub open spec fn unanswered(users: Seq<User>, handled: Seq<String>) -> Seq<int>
    decreases users.len(),
{
    if users.len() == 0 {
        Seq::empty()
    } else {
        let before = unanswered(users.drop_last(), handled);
        if lists(handled, decimal_int(users.last().id as int)) {
            before
        } else {
            before.push(users.len() - 1)
        }
    }
}

pub open spec fn request_row(r: DetailItem, u: User) -> bool {
    item_is(r, decimal_int(u.id as int), u.display_name@, u.name@, 8)
}

/// The rows without that of an id.
pub open spec fn rows_without(rows: Seq<DetailItem>, id: Seq<char>) -> Seq<DetailItem>
    decreases rows.len(),
{
    if rows.len() == 0 {
        Seq::empty()
    } else {
        let before = rows_without(rows.drop_last(), id);
        if rows.last().id@ == id {
            before
        } else {
            before.push(rows.last())
        }
    }
}

fn request_rows(users: &Vec<User>, handled: &Vec<String>) -> (rows: Vec<DetailItem>)
    ensures
        rows.len() == unanswered(users@, handled@).len(),
        forall|k: int|
            0 <= k < rows.len() ==> request_row(
                #[trigger] rows@[k],
                users@[unanswered(users@, handled@)[k]],
            ),
{
    let mut rows: Vec<DetailItem> = Vec::new();
    let mut i: usize = 0;
    assert(users@.take(0) =~= Seq::<User>::empty());
    while i < users.len()
        invariant
            i <= users.len(),
            rows.len() == unanswered(users@.take(i as int), handled@).len(),
            forall|k: int|
                0 <= k < rows.len() ==> request_row(
                    #[trigger] rows@[k],
                    users@[unanswered(users@.take(i as int), handled@)[k]],
                ),
        decreases users.len() - i,
    {
        assert(users@.take(i as int + 1).drop_last() =~= users@.take(i as int));
        assert(users@.take(i as int + 1).last() == users@[i as int]);
        let u = &users[i];
        let id = int_text(u.id);
        if !is_listed(handled, id.as_str()) {
            rows.push(
                DetailItem {
                    id,
                    name: u.display_name.clone(),
                    subtitle: u.name.clone(),
                    kind: 8,
                },
            );
        }
        i = i + 1;
    }
    assert(users@.take(users@.len() as int) =~= users@);
    rows
}

impl Requests {
    pub fn new(handled: Vec<String>) -> (r: Requests)
        ensures
            r.rows@.len() == 0,
            r.handled == handled,
            !r.busy,
            r.status@.len() == 0,
    {
        Requests { rows: Vec::new(), handled, busy: false, status: String::new() }
    }

    /// The requests have come.
    pub fn loaded(&mut self, users: &Vec<User>)
        ensures
            final(self).handled == old(self).handled,
            final(self).busy == old(self).busy,
            final(self).status == old(self).status,
            ({
                let shown = unanswered(users@, old(self).handled@);
                &&& final(self).rows.len() == shown.len()
                &&& forall|k: int|
                    0 <= k < shown.len() ==> request_row(
                        #[trigger] final(self).rows@[k],
                        users@[shown[k]],
                    )
            }),
    {
        let rows = request_rows(users, &self.handled);
        self.rows = rows;
    }

    /// How many requests are shown.
    pub fn count(&self) -> (n: usize)
        ensures
            n == self.rows.len(),
    {
        self.rows.len()
    }

    /// Answer a request, unless an answer is on its way already.
    pub fn respond(&mut self, id: &str, accept: bool) -> (r: Option<Reply>)
        ensures
            final(self).rows == old(self).rows,
            final(self).handled == old(self).handled,
            match read_i64(id@) {
                None => r is None && *final(self) == *old(self),
                Some(user) => if old(self).busy {
                    &&& r is None
                    &&& final(self).busy
                    &&& final(self).status@ == "One at a time — still working on the last one."@
                } else {
                    &&& r == Some(if accept { Reply::Accept(user) } else { Reply::Decline(user) })
                    &&& final(self).busy
                    &&& final(self).status@ == (if accept { "Accepting…"@ } else { "Declining…"@ })
                },
            },
    {
        match parse_i64(id) {
            None => None,
            Some(user) => {
                if self.busy {
                    self.status = "One at a time — still working on the last one.".to_owned();
                    return None;
                }
                self.busy = true;
                if accept {
                    self.status = "Accepting…".to_owned();
                    Some(Reply::Accept(user))
                } else {
                    self.status = "Declining…".to_owned();
                    Some(Reply::Decline(user))
                }
            },
        }
    }

    /// Remember that a request was answered, and take it off the list.
    pub fn handle(&mut self, user_id: i64)
        ensures
            final(self).busy == old(self).busy,
            final(self).status == old(self).status,
            texts(final(self).handled@) == with_text(
                texts(old(self).handled@),
                decimal_int(user_id as int),
            ),
            final(self).rows@ == rows_without(old(self).rows@, decimal_int(user_id as int)),
    {
        let id = int_text(user_id);
        add_text(&mut self.handled, id.as_str());
        let ghost before = self.rows@;
        let mut from: Vec<DetailItem> = Vec::new();
        std::mem::swap(&mut self.rows, &mut from);
        let mut kept: Vec<DetailItem> = Vec::new();
        let mut i: usize = 0;
        let n: usize = from.len();
        assert(before.take(0) =~= Seq::<DetailItem>::empty());
        assert(before.skip(0) =~= from@);
        let ghost middle = *self;
        while i < n
            invariant
                i <= n == before.len(),
                from@ == before.skip(i as int),
                kept@ == rows_without(before.take(i as int), id@),
                *self == middle,
            decreases n - i,
        {
            assert(before.take(i as int + 1).drop_last() =~= before.take(i as int));
            assert(before.take(i as int + 1).last() == before[i as int]);
            assert(before.skip(i as int)[0] == before[i as int]);
            let row = from.remove(0);
            assert(from@ =~= before.skip(i as int + 1));
            if !same(row.id.as_str(), id.as_str()) {
                kept.push(row);
            }
            i = i + 1;
        }
        assert(before.take(before.len() as int) =~= before);
        self.rows = kept;
    }

    /// The answer was sent, or was not. True where the friends are to be loaded
    /// again.
    pub fn responded(&mut self, user_id: i64, result: &std::result::Result<(), Error>) -> (reload:
        bool)
        ensures
            !final(self).busy,
            reload == (*result is Ok),
            match *result {
                Ok(_) => {
                    &&& final(self).status@.len() == 0
                    &&& texts(final(self).handled@) == with_text(
                        texts(old(self).handled@),
                        decimal_int(user_id as int),
                    )
                    &&& final(self).rows@ == rows_without(
                        old(self).rows@,
                        decimal_int(user_id as int),
                    )
                },
                Err(e) => {
                    &&& final(self).rows == old(self).rows
                    &&& final(self).handled == old(self).handled
                    &&& final(self).status@ == (if e is RateLimited {
                        "Roblox is rate-limiting friend requests. Wait a moment and try again."@
                    } else {
                        "Could not do that: "@ + e.words()
                    })
                },
            },
    {
        self.busy = false;
        match result {
            Ok(_) => {
                self.status = String::new();
                self.handle(user_id);
                true
            },
            Err(Error::RateLimited) => {
                self.status =
                "Roblox is rate-limiting friend requests. Wait a moment and try again.".to_owned();
                false
            },
            Err(e) => {
                self.status = cat2("Could not do that: ", e.message().as_str());
                false
            },
        }
    }
}

proof fn lemma_unanswered(users: Seq<User>, handled: Seq<String>, k: int)
    requires
        0 <= k < unanswered(users, handled).len(),
    ensures
        0 <= unanswered(users, handled)[k] < users.len(),
        !lists(handled, decimal_int(users[unanswered(users, handled)[k]].id as int)),
    decreases users.len(),
{
    if users.len() > 0 {
        let before = unanswered(users.drop_last(), handled);
        if k < before.len() {
            lemma_unanswered(users.drop_last(), handled, k);
        }
    }
}

/// A request that was answered does not come back, whatever the service sends.
pub proof fn law_answered_requests_stay_away(
    users: Seq<User>,
    handled: Seq<String>,
    after: Seq<String>,
    user_id: i64,
    k: int,
)
    requires
        texts(after) == with_text(texts(handled), decimal_int(user_id as int)),
        0 <= k < unanswered(users, after).len(),
    ensures
        users[unanswered(users, after)[k]].id != user_id,
{
    lemma_unanswered(users, after, k);
    let id = decimal_int(user_id as int);
    lemma_lists(after, id);
    let list = texts(handled);
    if !list.contains(id) {
        assert(list.push(id)[list.len() as int] == id);
    }
}

/// The requests that are shown are those that were not answered, all of them and in
/// the order in which they came.
pub proof fn law_unanswered_requests_are_shown(users: Seq<User>, handled: Seq<String>)
    ensures
        forall|i: int|
            0 <= i < users.len() ==> (unanswered(users, handled).contains(i) <==> !lists(
                handled,
                decimal_int((#[trigger] users[i]).id as int),
            )),
        forall|a: int, b: int|
            0 <= a < b < unanswered(users, handled).len() ==> #[trigger] unanswered(
                users,
                handled,
            )[a] < #[trigger] unanswered(users, handled)[b],
        forall|k: int|
            0 <= k < unanswered(users, handled).len() ==> 0 <= #[trigger] unanswered(
                users,
                handled,
            )[k] < users.len(),
    decreases users.len(),
{
    if users.len() > 0 {
        let fewer = users.drop_last();
        law_unanswered_requests_are_shown(fewer, handled);
        let before = unanswered(fewer, handled);
        let out = unanswered(users, handled);
        let n = users.len() - 1;
        assert forall|i: int| 0 <= i < users.len() implies (out.contains(i) <==> !lists(
            handled,
            decimal_int((#[trigger] users[i]).id as int),
        )) by {
            if i < n {
                assert(fewer[i] == users[i]);
                if before.contains(i) {
                    let k = choose|k: int| 0 <= k < before.len() && before[k] == i;
                    assert(out[k] == i);
                }
                if out.contains(i) {
                    let k = choose|k: int| 0 <= k < out.len() && out[k] == i;
                    assert(before[k] == i);
                }
            } else {
                if !lists(handled, decimal_int(users[n].id as int)) {
                    assert(out[before.len() as int] == n);
                } else if out.contains(i) {
                    let k = choose|k: int| 0 <= k < before.len() && before[k] == i;
                    assert(before[k] < n);
                }
            }
        }
    }
}

/// A request shows who asks: their display name, and their user name below it.
pub proof fn law_what_a_request_says(r: DetailItem, u: User)
    requires
        request_row(r, u),
    ensures
        r.id@ == decimal_int(u.id as int),
        r.name@ == u.display_name@,
        r.subtitle@ == u.name@,
        r.kind == 8,
{
}

/// An answer takes the rows of that request away and leaves the others as they are.
pub proof fn law_answered_rows_go(rows: Seq<DetailItem>, id: Seq<char>)
    ensures
        rows_without(rows, id) == rows.filter(|r: DetailItem| r.id@ != id),
    decreases rows.len(),
{
    reveal(Seq::filter);
    if rows.len() > 0 {
        law_answered_rows_go(rows.drop_last(), id);
    }
    assert(rows_without(rows, id) =~= rows.filter(|r: DetailItem| r.id@ != id));
}

} // verus!
