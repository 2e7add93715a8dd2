//! The avatar editor: what is worn, what can be worn, and what is on its way to
//! the service.

use crate::clock::{is_now_stamp, now_stamp};
use crate::desktop::adapters::{item_is, DetailItem};
use crate::number::{
    decimal_int, int_text, law_decimal_reads_back, parse_i64, read_i64, read_int,
};
use crate::roblox::avatar::{
    asset_ids, remove, wear, worn_with, worn_without, Avatar, InventoryItem, Outfit,
    CATEGORY_NAMES,
};
use crate::roblox::friends::holds;
use crate::text::{cat2, same};
use vstd::prelude::*;

verus! {

/// An item of the wardrobe.
pub struct WearItem {
    pub id: String,
    pub name: String,
    pub category: String,
    pub worn: bool,
}

/// How long our own write is trusted over what the service reports, in
/// milliseconds. A read straight after a change can still show the list before.
pub const TRUST_MS: u64 = 15_000;

/// The avatar editor.
pub struct Wardrobe {
    /// What is worn. The service takes the whole list with every change.
    pub worn: Vec<i64>,
    /// A change of the list is on its way. There is one at a time: two would race.
    pub writing: bool,
    /// Something is on its way, as it is shown.
    pub busy: bool,
    /// The list that was written last, and when.
    pub last_write: Option<(u64, Vec<i64>)>,
    pub items: Vec<WearItem>,
    pub worn_rows: Vec<DetailItem>,
    pub is_r15: bool,
}

/// A change of the list: to be sent, and what it was before.
pub struct Change {
    pub before: Vec<i64>,
    pub after: Vec<i64>,
}

/// The id is that of something worn.
pub open spec fn is_worn(id: Seq<char>, worn: Seq<i64>) -> bool {
    match read_i64(id) {
        Some(n) => worn.contains(n),
        None => false,
    }
}

fn names_worn(id: &str, worn: &Vec<i64>) -> (r: bool)
    ensures
        r == is_worn(id@, worn@),
{
    match parse_i64(id) {
        Some(n) => holds(worn, n),
        None => false,
    }
}

/// The items, each marked as worn or not.
pub open spec fn marked(items: Seq<WearItem>, worn: Seq<i64>) -> Seq<WearItem> {
    items.map_values(|i: WearItem| WearItem { worn: is_worn(i.id@, worn), ..i })
}

/// Mark the items that are worn.
pub fn apply_worn_flags(items: &mut Vec<WearItem>, worn: &Vec<i64>)
    ensures
        final(items)@ == marked(old(items)@, worn@),
{
    let ghost before = items@;
    let mut i: usize = 0;
    while i < items.len()
        invariant
            i <= items.len(),
            items.len() == before.len(),
            forall|k: int|
                0 <= k < i ==> #[trigger] items@[k] == (WearItem {
                    worn: is_worn(before[k].id@, worn@),
                    ..before[k]
                }),
            forall|k: int| i <= k < before.len() ==> #[trigger] items@[k] == before[k],
        decreases items.len() - i,
    {
        let on = names_worn(items[i].id.as_str(), worn);
        items[i].worn = on;
        i = i + 1;
    }
    assert(items@ =~= marked(before, worn@));
}

/// A line: its id, its name, what stands below, and its kind.
pub type Line = (Seq<char>, Seq<char>, Seq<char>, i32);

pub open spec fn lines(rows: Seq<DetailItem>) -> Seq<Line> {
    rows.map_values(|r: DetailItem| (r.id@, r.name@, r.subtitle@, r.kind))
}

/// The lines of what is still worn.
pub open spec fn still_worn(rows: Seq<Line>, worn: Seq<i64>) -> Seq<Line>
    decreases rows.len(),
{
    if rows.len() == 0 {
        Seq::empty()
    } else {
        let before = still_worn(rows.drop_last(), worn);
        if is_worn(rows.last().0, worn) {
            before.push(rows.last())
        } else {
            before
        }
    }
}

/// There is a line of this id.
pub open spec fn has_line(rows: Seq<Line>, id: Seq<char>) -> bool {
    exists|i: int| 0 <= i < rows.len() && (#[trigger] rows[i]).0 == id
}

/// The first item of an id.
pub open spec fn item_named(items: Seq<WearItem>, id: Seq<char>) -> Option<WearItem>
    decreases items.len(),
{
    if items.len() == 0 {
        None
    } else if items[0].id@ == id {
        Some(items[0])
    } else {
        item_named(items.skip(1), id)
    }
}

/// The lines with one for each of the first `n` things worn, as far as the
/// wardrobe shows them.
pub open spec fn with_worn(rows: Seq<Line>, items: Seq<WearItem>, worn: Seq<i64>, n: nat) -> Seq<
    Line,
>
    decreases n,
{
    if n == 0 {
        rows
    } else {
        let before = with_worn(rows, items, worn, (n - 1) as nat);
        let id = decimal_int(worn[n - 1] as int);
        if has_line(before, id) {
            before
        } else {
            match item_named(items, id) {
                Some(i) => before.push((id, i.name@, i.category@, 7)),
                None => before,
            }
        }
    }
}

/// The lines of what is worn: those that were there and still are, then what was
/// put on.
pub open spec fn synced(rows: Seq<Line>, items: Seq<WearItem>, worn: Seq<i64>) -> Seq<Line> {
    with_worn(still_worn(rows, worn), items, worn, worn.len())
}

fn is_shown(rows: &Vec<DetailItem>, id: &str) -> (r: bool)
    ensures
        r == has_line(lines(rows@), id@),
{
    let mut i: usize = 0;
    while i < rows.len()
        invariant
            i <= rows.len(),
            forall|k: int| 0 <= k < i ==> (#[trigger] lines(rows@)[k]).0 != id@,
        decreases rows.len() - i,
    {
        if same(rows[i].id.as_str(), id) {
            assert(lines(rows@)[i as int].0 == id@);
            return true;
        }
        i = i + 1;
    }
    false
}

fn find_item(items: &Vec<WearItem>, id: &str) -> (r: Option<usize>)
    ensures
        match r {
            Some(i) => i < items.len() && item_named(items@, id@) == Some(items@[i as int]),
            None => item_named(items@, id@) is None,
        },
{
    let mut i: usize = 0;
    assert(items@.skip(0) =~= items@);
    while i < items.len()
        invariant
            i <= items.len(),
            item_named(items@, id@) == item_named(items@.skip(i as int), id@),
        decreases items.len() - i,
    {
        assert(items@.skip(i as int)[0] == items@[i as int]);
        assert(items@.skip(i as int).skip(1) =~= items@.skip(i as int + 1));
        if same(items[i].id.as_str(), id) {
            return Some(i);
        }
        i = i + 1;
    }
    None
}

/// Bring the list of what is worn in line with a change. What was put on takes
/// its name from the wardrobe, so that nothing has to be fetched again.
pub fn sync_worn_list(rows: &mut Vec<DetailItem>, items: &Vec<WearItem>, worn: &Vec<i64>)
    ensures
        lines(final(rows)@) == synced(lines(old(rows)@), items@, worn@),
{
    let ghost before = lines(rows@);
    let mut kept: Vec<DetailItem> = Vec::new();
    let mut i: usize = 0;
    assert(before.take(0) =~= Seq::<Line>::empty());
    assert(lines(kept@) =~= Seq::<Line>::empty());
    while i < rows.len()
        invariant
            i <= rows.len(),
            before == lines(rows@),
            lines(kept@) == still_worn(before.take(i as int), worn@),
        decreases rows.len() - i,
    {
        assert(before.take(i as int + 1).drop_last() =~= before.take(i as int));
        assert(before.take(i as int + 1).last() == before[i as int]);
        let r = &rows[i];
        let ghost so_far = kept@;
        if names_worn(r.id.as_str(), worn) {
            kept.push(
                DetailItem {
                    id: r.id.clone(),
                    name: r.name.clone(),
                    subtitle: r.subtitle.clone(),
                    kind: r.kind,
                },
            );
            assert(lines(kept@) =~= lines(so_far).push(before[i as int]));
        }
        i = i + 1;
    }
    assert(before.take(before.len() as int) =~= before);
    let ghost base = lines(kept@);
    let mut n: usize = 0;
    while n < worn.len()
        invariant
            n <= worn.len(),
            lines(kept@) == with_worn(base, items@, worn@, n as nat),
        decreases worn.len() - n,
    {
        let id = int_text(worn[n]);
        if !is_shown(&kept, id.as_str()) {
            match find_item(items, id.as_str()) {
                Some(at) => {
                    let ghost so_far = kept@;
                    let ghost key = id@;
                    kept.push(
                        DetailItem {
                            id,
                            name: items[at].name.clone(),
                            subtitle: items[at].category.clone(),
                            kind: 7,
                        },
                    );
                    assert(lines(kept@) =~= lines(so_far).push(
                        (key, items@[at as int].name@, items@[at as int].category@, 7),
                    ));
                },
                None => {},
            }
        }
        n = n + 1;
    }
    *rows = kept;
}

/// What is worn after an item was pressed.
pub open spec fn worn_toggled(worn: Seq<i64>, id: i64) -> Seq<i64> {
    if worn.contains(id) {
        worn_without(worn, id)
    } else {
        worn_with(worn, id)
    }
}

/// What is worn by a read of the service: our own recent write beats one that
/// contradicts it.
pub open spec fn reconciled(server: Seq<i64>, last: Option<(u64, Vec<i64>)>, now: u64) -> Seq<i64> {
    match last {
        Some(w) => if now - w.0 < TRUST_MS {
            w.1@
        } else {
            server
        },
        None => server,
    }
}

impl Wardrobe {
    pub fn new() -> (w: Wardrobe)
        ensures
            w.worn@.len() == 0,
            !w.writing,
            !w.busy,
            w.last_write is None,
            w.items@.len() == 0,
            w.worn_rows@.len() == 0,
            w.is_r15,
    {
        Wardrobe {
            worn: Vec::new(),
            writing: false,
            busy: false,
            last_write: None,
            items: Vec::new(),
            worn_rows: Vec::new(),
            is_r15: true,
        }
    }

    /// Show a list as worn.
    pub open spec fn shows(&self, before: Wardrobe, worn: Seq<i64>) -> bool {
        &&& self.worn@ == worn
        &&& self.items@ == marked(before.items@, worn)
        &&& lines(self.worn_rows@) == synced(lines(before.worn_rows@), self.items@, worn)
        &&& self.is_r15 == before.is_r15
    }

    fn show(&mut self, worn: &Vec<i64>)
        ensures
            final(self).shows(*old(self), worn@),
            final(self).writing == old(self).writing,
            final(self).busy == old(self).busy,
            final(self).last_write == old(self).last_write,
    {
        let list = worn.clone();
        assert(list@ =~= worn@);
        self.worn = list;
        apply_worn_flags(&mut self.items, worn);
        sync_worn_list(&mut self.worn_rows, &self.items, worn);
    }

    /// Put an item on or take it off. Gives the change that is to be sent;
    /// nothing where the id cannot be read or a change is on its way.
    pub fn toggle(&mut self, id: &str) -> (r: Option<Change>)
        ensures
            match (r, read_i64(id@)) {
                (Some(c), Some(n)) => {
                    &&& !old(self).writing
                    &&& c.before@ == old(self).worn@
                    &&& c.after@ == worn_toggled(old(self).worn@, n)
                    &&& final(self).shows(*old(self), c.after@)
                    &&& final(self).writing
                    &&& final(self).busy
                    &&& final(self).last_write == old(self).last_write
                },
                (Some(_), None) => false,
                (None, Some(_)) => old(self).writing && *final(self) == *old(self),
                (None, None) => *final(self) == *old(self),
            },
    {
        match parse_i64(id) {
            Some(n) => {
                if self.writing {
                    return None;
                }
                self.writing = true;
                let before = self.worn.clone();
                assert(before@ =~= self.worn@);
                let after = if holds(&before, n) {
                    remove(&before, n)
                } else {
                    wear(&before, n)
                };
                self.show(&after);
                self.busy = true;
                Some(Change { before, after })
            },
            None => None,
        }
    }

    /// A change was sent, or was not: keep it, or put back what was worn before.
    pub fn toggled(&mut self, change: Change, sent: bool, now: u64)
        ensures
            !final(self).writing,
            !final(self).busy,
            sent ==> {
                &&& final(self).last_write == Some((now, change.after))
                &&& final(self).worn == old(self).worn
                &&& final(self).items == old(self).items
                &&& final(self).worn_rows == old(self).worn_rows
                &&& final(self).is_r15 == old(self).is_r15
            },
            !sent ==> final(self).shows(*old(self), change.before@) && final(self).last_write
                == old(self).last_write,
    {
        self.busy = false;
        self.writing = false;
        if sent {
            self.last_write = Some((now, change.after));
        } else {
            self.show(&change.before);
        }
    }

    /// An outfit or a saved outfit is on its way.
    pub fn begin(&mut self)
        ensures
            *final(self) == (Wardrobe { busy: true, ..*old(self) }),
    {
        self.busy = true;
    }

    /// An outfit was put on, with what is worn then, or was not.
    pub fn outfit_worn(&mut self, ids: Option<&Vec<i64>>, now: u64)
        ensures
            !final(self).busy,
            final(self).writing == old(self).writing,
            final(self).worn_rows == old(self).worn_rows,
            final(self).is_r15 == old(self).is_r15,
            match ids {
                Some(list) => {
                    &&& final(self).worn@ == list@
                    &&& final(self).items@ == marked(old(self).items@, list@)
                    &&& final(self).last_write matches Some(w) && w.0 == now && w.1@ == list@
                },
                None => {
                    &&& final(self).worn == old(self).worn
                    &&& final(self).items == old(self).items
                    &&& final(self).last_write == old(self).last_write
                },
            },
    {
        self.busy = false;
        match ids {
            Some(list) => {
                let worn = list.clone();
                assert(worn@ =~= list@);
                let written = list.clone();
                assert(written@ =~= list@);
                self.worn = worn;
                self.last_write = Some((now, written));
                apply_worn_flags(&mut self.items, list);
            },
            None => {},
        }
    }

    /// An outfit was saved, or was not.
    pub fn outfit_saved(&mut self)
        ensures
            *final(self) == (Wardrobe { busy: false, ..*old(self) }),
    {
        self.busy = false;
    }

    /// Choose a kind of body. False where it is that kind already.
    pub fn set_type(&mut self, r15: bool) -> (send: bool)
        ensures
            send == (old(self).is_r15 != r15),
            *final(self) == (if send {
                Wardrobe { is_r15: r15, busy: true, ..*old(self) }
            } else {
                *old(self)
            }),
    {
        if self.is_r15 == r15 {
            return false;
        }
        self.is_r15 = r15;
        self.busy = true;
        true
    }

    /// The kind of body was sent, or was not: then it is put back.
    pub fn type_set(&mut self, r15: bool, sent: bool)
        ensures
            *final(self) == (Wardrobe {
                busy: false,
                is_r15: if sent {
                    old(self).is_r15
                } else {
                    !r15
                },
                ..*old(self)
            }),
    {
        self.busy = false;
        if !sent {
            self.is_r15 = !r15;
        }
    }

    /// The avatar has come.
    pub fn loaded(&mut self, av: &Avatar, now: u64)
        ensures
            final(self).worn@ == reconciled(asset_ids(av.assets@), old(self).last_write, now),
            final(self).items@ == marked(old(self).items@, final(self).worn@),
            final(self).is_r15 == (av.player_avatar_type@ != "R6"@),
            final(self).worn_rows.len() == av.assets.len(),
            forall|i: int|
                0 <= i < av.assets.len() ==> item_is(
                    #[trigger] final(self).worn_rows@[i],
                    decimal_int(av.assets@[i].id as int),
                    av.assets@[i].name@,
                    av.assets@[i].asset_type.name@,
                    7,
                ),
            final(self).writing == old(self).writing,
            final(self).busy == old(self).busy,
            final(self).last_write == old(self).last_write,
    {
        let mut worn = av.worn_ids();
        match &self.last_write {
            Some(w) => {
                if now < w.0 || now - w.0 < TRUST_MS {
                    worn = w.1.clone();
                    assert(worn@ =~= w.1@);
                }
            },
            None => {},
        }
        self.is_r15 = !same(av.player_avatar_type.as_str(), "R6");
        let mut rows: Vec<DetailItem> = Vec::new();
        let mut i: usize = 0;
        while i < av.assets.len()
            invariant
                i <= av.assets.len(),
                rows.len() == i,
                forall|k: int|
                    0 <= k < i ==> item_is(
                        #[trigger] rows@[k],
                        decimal_int(av.assets@[k].id as int),
                        av.assets@[k].name@,
                        av.assets@[k].asset_type.name@,
                        7,
                    ),
            decreases av.assets.len() - i,
        {
            let a = &av.assets[i];
            rows.push(
                DetailItem {
                    id: int_text(a.id),
                    name: a.name.clone(),
                    subtitle: a.asset_type.name.clone(),
                    kind: 7,
                },
            );
            i = i + 1;
        }
        self.worn_rows = rows;
        apply_worn_flags(&mut self.items, &worn);
        self.worn = worn;
    }

    /// The items of a category have come. `worn` is what was worn when they were
    /// asked for.
    pub fn items_loaded(&mut self, list: &Vec<InventoryItem>, worn: &Vec<i64>)
        ensures
            final(self).items.len() == list.len(),
            forall|i: int|
                0 <= i < list.len() ==> {
                    let item = #[trigger] final(self).items@[i];
                    &&& item.id@ == decimal_int(list@[i].asset_id as int)
                    &&& item.name@ == list@[i].asset_name@
                    &&& item.category@.len() == 0
                    &&& item.worn == worn@.contains(list@[i].asset_id)
                },
            final(self).worn == old(self).worn,
            final(self).worn_rows == old(self).worn_rows,
            final(self).writing == old(self).writing,
            final(self).busy == old(self).busy,
            final(self).last_write == old(self).last_write,
            final(self).is_r15 == old(self).is_r15,
    {
        let mut items: Vec<WearItem> = Vec::new();
        let mut i: usize = 0;
        while i < list.len()
            invariant
                i <= list.len(),
                items.len() == i,
                forall|k: int|
                    0 <= k < i ==> {
                        let item = #[trigger] items@[k];
                        &&& item.id@ == decimal_int(list@[k].asset_id as int)
                        &&& item.name@ == list@[k].asset_name@
                        &&& item.category@.len() == 0
                        &&& item.worn == worn@.contains(list@[k].asset_id)
                    },
            decreases list.len() - i,
        {
            items.push(
                WearItem {
                    id: int_text(list[i].asset_id),
                    name: list[i].asset_name.clone(),
                    category: String::new(),
                    worn: holds(worn, list[i].asset_id),
                },
            );
            i = i + 1;
        }
        self.items = items;
    }
}

/// The category at a place of the list; a negative place stands for the first.
pub fn category_at(index: i32) -> (r: Option<&'static str>)
    ensures
        match r {
            Some(name) => index < 13 && name@ == CATEGORY_NAMES@[if index < 0 {
                0
            } else {
                index as int
            }]@,
            None => index >= 13,
        },
{
    let i: usize = if index < 0 {
        0
    } else {
        index as usize
    };
    if i < 13 {
        Some(CATEGORY_NAMES[i])
    } else {
        None
    }
}

/// The outfits as lines.
pub fn outfit_rows(list: &Vec<Outfit>) -> (rows: Vec<DetailItem>)
    ensures
        rows.len() == list.len(),
        forall|i: int|
            0 <= i < rows.len() ==> item_is(
                #[trigger] rows@[i],
                decimal_int(list@[i].id as int),
                list@[i].name@,
                Seq::empty(),
                9,
            ),
{
    let mut rows: Vec<DetailItem> = Vec::new();
    let mut i: usize = 0;
    while i < list.len()
        invariant
            i <= list.len(),
            rows.len() == i,
            forall|k: int|
                0 <= k < i ==> item_is(
                    #[trigger] rows@[k],
                    decimal_int(list@[k].id as int),
                    list@[k].name@,
                    Seq::empty(),
                    9,
                ),
        decreases list.len() - i,
    {
        let row = DetailItem {
            id: int_text(list[i].id),
            name: list[i].name.clone(),
            subtitle: String::new(),
            kind: 9,
        };
        assert(row.subtitle@ =~= Seq::<char>::empty());
        rows.push(row);
        i = i + 1;
    }
    rows
}

/// The name of an outfit that is saved at a moment.
pub fn outfit_name(stamp: &str) -> (r: String)
    ensures
        r@ == "RoJoin "@ + stamp@,
{
    cat2("RoJoin ", stamp)
}

/// The name of an outfit that is saved now.
pub fn new_outfit_name() -> (r: String)
    ensures
        exists|stamp: Seq<char>| is_now_stamp(stamp) && r@ == #[trigger] ("RoJoin "@ + stamp),
{
    let stamp = now_stamp();
    outfit_name(stamp.as_str())
}

/// Putting something on and taking it off again leaves what is worn as it was;
/// and what is pressed is worn afterwards exactly where it was not before.
pub proof fn law_pressing_twice_changes_nothing(worn: Seq<i64>, id: i64)
    ensures
        worn_toggled(worn, id).contains(id) == !worn.contains(id),
        !worn.contains(id) ==> worn_toggled(worn_toggled(worn, id), id) == worn,
{
    crate::roblox::avatar::law_wear_and_remove(worn, id);
}

/// For as long as our own write is trusted, a read that lags behind does not
/// bring back what was taken off.
pub proof fn law_stale_reads_are_ignored(server: Seq<i64>, at: u64, ours: Vec<i64>, now: u64)
    requires
        at <= now < at + TRUST_MS,
    ensures
        reconciled(server, Some((at, ours)), now) == ours@,
{
}

/// An item is marked as worn exactly where its id is on the list of what is worn, and
/// nothing else of it changes.
pub proof fn law_what_is_worn_is_marked(items: Seq<WearItem>, worn: Seq<i64>, i: int)
    requires
        0 <= i < items.len(),
    ensures
        marked(items, worn).len() == items.len(),
        marked(items, worn)[i].worn <==> exists|k: int|
            0 <= k < worn.len() && read_int(items[i].id@) == Some(#[trigger] worn[k] as int),
        marked(items, worn)[i].id == items[i].id,
        marked(items, worn)[i].name == items[i].name,
        marked(items, worn)[i].category == items[i].category,
{
    if is_worn(items[i].id@, worn) {
        let n = read_i64(items[i].id@)->0;
        let k = choose|k: int| 0 <= k < worn.len() && worn[k] == n;
        assert(read_int(items[i].id@) == Some(worn[k] as int));
    }
    if exists|k: int|
        0 <= k < worn.len() && read_int(items[i].id@) == Some(#[trigger] worn[k] as int) {
        let k = choose|k: int|
            0 <= k < worn.len() && read_int(items[i].id@) == Some(#[trigger] worn[k] as int);
        assert(worn.contains(worn[k]));
    }
}

/// The lines of what is still worn are those lines that are, in their order.
pub proof fn law_lines_that_stay(rows: Seq<Line>, worn: Seq<i64>)
    ensures
        still_worn(rows, worn) == rows.filter(|r: Line| is_worn(r.0, worn)),
    decreases rows.len(),
{
    reveal(Seq::filter);
    if rows.len() > 0 {
        law_lines_that_stay(rows.drop_last(), worn);
    }
    assert(still_worn(rows, worn) =~= rows.filter(|r: Line| is_worn(r.0, worn)));
}

proof fn lemma_with_worn(rows: Seq<Line>, items: Seq<WearItem>, worn: Seq<i64>, n: nat)
    requires
        n <= worn.len(),
        forall|i: int| 0 <= i < rows.len() ==> is_worn((#[trigger] rows[i]).0, worn),
    ensures
        ({
            let out = with_worn(rows, items, worn, n);
            &&& rows.len() <= out.len()
            &&& forall|i: int| 0 <= i < rows.len() ==> #[trigger] out[i] == rows[i]
            &&& forall|i: int| 0 <= i < out.len() ==> is_worn((#[trigger] out[i]).0, worn)
            &&& forall|k: int|
                0 <= k < n && item_named(items, decimal_int(#[trigger] worn[k] as int)) is Some
                    ==> has_line(out, decimal_int(worn[k] as int))
        }),
    decreases n,
{
    if n > 0 {
        let m = (n - 1) as nat;
        lemma_with_worn(rows, items, worn, m);
        let before = with_worn(rows, items, worn, m);
        let out = with_worn(rows, items, worn, n);
        let id = decimal_int(worn[m as int] as int);
        law_decimal_reads_back(worn[m as int] as int);
        assert(worn.contains(worn[m as int]));
        assert(is_worn(id, worn));
        assert forall|k: int|
            0 <= k < n && item_named(items, decimal_int(#[trigger] worn[k] as int)) is Some implies has_line(
            out,
            decimal_int(worn[k] as int),
        ) by {
            if k < m {
                assert(has_line(before, decimal_int(worn[k] as int)));
                let i = choose|i: int|
                    0 <= i < before.len() && (#[trigger] before[i]).0 == decimal_int(worn[k] as int);
                assert(out[i] == before[i]);
            } else if !has_line(before, id) {
                assert(out[before.len() as int].0 == id);
            }
        }
    }
}

/// After a change the list shows what is worn: every line is of something worn, and
/// whatever is worn and in the wardrobe has a line.
pub proof fn law_the_list_shows_what_is_worn(rows: Seq<Line>, items: Seq<WearItem>, worn: Seq<i64>)
    ensures
        forall|i: int|
            0 <= i < synced(rows, items, worn).len() ==> is_worn(
                (#[trigger] synced(rows, items, worn)[i]).0,
                worn,
            ),
        forall|k: int|
            0 <= k < worn.len() && item_named(items, decimal_int(#[trigger] worn[k] as int)) is Some
                ==> has_line(synced(rows, items, worn), decimal_int(worn[k] as int)),
{
    lemma_still_worn(rows, worn);
    lemma_with_worn(still_worn(rows, worn), items, worn, worn.len());
}

proof fn lemma_still_worn(rows: Seq<Line>, worn: Seq<i64>)
    ensures
        forall|i: int|
            0 <= i < still_worn(rows, worn).len() ==> is_worn(
                (#[trigger] still_worn(rows, worn)[i]).0,
                worn,
            ),
    decreases rows.len(),
{
    if rows.len() > 0 {
        lemma_still_worn(rows.drop_last(), worn);
        let before = still_worn(rows.drop_last(), worn);
        let out = still_worn(rows, worn);
        assert forall|i: int| 0 <= i < out.len() implies is_worn((#[trigger] out[i]).0, worn) by {
            if i < before.len() {
                assert(out[i] == before[i]);
            }
        }
    }
}

/// What is put on goes to the end of the list, with its name and its category.
pub proof fn law_what_is_put_on_is_shown(rows: Seq<Line>, items: Seq<WearItem>, worn: Seq<i64>, n: nat)
    requires
        n < worn.len(),
    ensures
        ({
            let before = with_worn(rows, items, worn, n);
            let id = decimal_int(worn[n as int] as int);
            item_named(items, id) matches Some(item) ==> with_worn(rows, items, worn, n + 1) == (
            if has_line(before, id) {
                before
            } else {
                before.push((id, item.name@, item.category@, 7))
            })
        }),
{
}

/// An item is found by its id, the first of several.
pub proof fn law_items_are_found_by_id(items: Seq<WearItem>, id: Seq<char>, k: int)
    requires
        0 <= k <= items.len(),
        forall|j: int| 0 <= j < k ==> (#[trigger] items[j]).id@ != id,
        k < items.len() ==> items[k].id@ == id,
    ensures
        item_named(items, id) == (if k < items.len() {
            Some(items[k])
        } else {
            None
        }),
    decreases k,
{
    if k > 0 {
        assert(items[0].id@ != id);
        assert forall|j: int| 0 <= j < k - 1 implies (#[trigger] items.skip(1)[j]).id@ != id by {
            assert(items.skip(1)[j] == items[j + 1]);
        }
        if k < items.len() {
            assert(items.skip(1)[k - 1] == items[k]);
        }
        law_items_are_found_by_id(items.skip(1), id, k - 1);
    }
}

/// Our own write is trusted for fifteen seconds; after that, and without one, what the
/// service says counts.
pub proof fn law_old_writes_give_way(server: Seq<i64>, at: u64, ours: Vec<i64>, now: u64)
    ensures
        at <= now < at + 15_000 ==> reconciled(server, Some((at, ours)), now) == ours@,
        now >= at + 15_000 ==> reconciled(server, Some((at, ours)), now) == server,
        reconciled(server, None, now) == server,
{
}

/// Showing a list as worn changes what is marked and what is listed, and neither the
/// items nor the kind of body.
pub proof fn law_showing_keeps_the_items(after: Wardrobe, before: Wardrobe, worn: Seq<i64>)
    requires
        after.shows(before, worn),
    ensures
        after.worn@ == worn,
        after.is_r15 == before.is_r15,
        after.items@.len() == before.items@.len(),
        forall|i: int|
            0 <= i < before.items@.len() ==> (#[trigger] after.items@[i]).id == before.items@[i].id
                && after.items@[i].name == before.items@[i].name && after.items@[i].worn == is_worn(
                before.items@[i].id@,
                worn,
            ),
        forall|i: int|
            0 <= i < lines(after.worn_rows@).len() ==> is_worn(
                (#[trigger] lines(after.worn_rows@)[i]).0,
                worn,
            ),
{
    law_the_list_shows_what_is_worn(lines(before.worn_rows@), after.items@, worn);
}

} // verus!
