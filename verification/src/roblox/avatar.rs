//! Avatar and inventory: editing what the user already owns. Nothing here
//! browses or buys.
//!
//! Wearing and removing are the same call with a different list:
//! `v2/avatar/set-wearing-assets` takes the complete list of worn asset ids.

use crate::number::{decimal, decimal_int, int_text, nat_text};
use crate::roblox::error::Error;
use crate::roblox::friends::holds;
use crate::roblox::{allowed_limit, is_page_limit, page_limit};
use crate::text::{cat2, cat3, cat4, cat5, same};
use vstd::prelude::*;
use vstd::string::*;

verus! {

pub const AVATAR: &'static str = "https://avatar.roblox.com";

pub const INVENTORY: &'static str = "https://inventory.roblox.com";

/// The categories that are offered, grouped the way a person thinks about them.
pub const CATEGORY_NAMES: [&'static str; 13] = [
    "Hats",
    "Hair",
    "Face",
    "Neck",
    "Shoulder",
    "Front",
    "Back",
    "Waist",
    "Shirts",
    "Pants",
    "T-Shirts",
    "Gear",
    "Emotes",
];

/// The asset types behind a category; none for a name that is no category.
pub open spec fn types_of(category: Seq<char>) -> Seq<u32> {
    if category == "Hats"@ {
        seq![8u32]
    } else if category == "Hair"@ {
        seq![41u32]
    } else if category == "Face"@ {
        seq![18u32, 42u32]
    } else if category == "Neck"@ {
        seq![43u32]
    } else if category == "Shoulder"@ {
        seq![44u32]
    } else if category == "Front"@ {
        seq![45u32]
    } else if category == "Back"@ {
        seq![46u32]
    } else if category == "Waist"@ {
        seq![47u32]
    } else if category == "Shirts"@ {
        seq![11u32]
    } else if category == "Pants"@ {
        seq![12u32]
    } else if category == "T-Shirts"@ {
        seq![2u32]
    } else if category == "Gear"@ {
        seq![19u32]
    } else if category == "Emotes"@ {
        seq![61u32]
    } else {
        Seq::empty()
    }
}

/// The asset types behind a category.
pub fn category_types(category: &str) -> (types: Vec<u32>)
    ensures
        types@ == types_of(category@),
        category@ == "Hats"@ ==> types@ == seq![8u32],
        category@ == "Hair"@ ==> types@ == seq![41u32],
        category@ == "Face"@ ==> types@ == seq![18u32, 42u32],
        category@ == "Neck"@ ==> types@ == seq![43u32],
        category@ == "Shoulder"@ ==> types@ == seq![44u32],
        category@ == "Front"@ ==> types@ == seq![45u32],
        category@ == "Back"@ ==> types@ == seq![46u32],
        category@ == "Waist"@ ==> types@ == seq![47u32],
        category@ == "Shirts"@ ==> types@ == seq![11u32],
        category@ == "Pants"@ ==> types@ == seq![12u32],
        category@ == "T-Shirts"@ ==> types@ == seq![2u32],
        category@ == "Gear"@ ==> types@ == seq![19u32],
        category@ == "Emotes"@ ==> types@ == seq![61u32],
{
    proof {
        law_categories_show_their_types(category@, category@);
    }
    let types: Vec<u32> = if same(category, "Hats") {
        vec![8]
    } else if same(category, "Hair") {
        vec![41]
    } else if same(category, "Face") {
        vec![18, 42]
    } else if same(category, "Neck") {
        vec![43]
    } else if same(category, "Shoulder") {
        vec![44]
    } else if same(category, "Front") {
        vec![45]
    } else if same(category, "Back") {
        vec![46]
    } else if same(category, "Waist") {
        vec![47]
    } else if same(category, "Shirts") {
        vec![11]
    } else if same(category, "Pants") {
        vec![12]
    } else if same(category, "T-Shirts") {
        vec![2]
    } else if same(category, "Gear") {
        vec![19]
    } else if same(category, "Emotes") {
        vec![61]
    } else {
        vec![]
    };
    assert(types@ =~= types_of(category@));
    types
}

/// The name is one of those that are offered.
pub open spec fn names_category(category: Seq<char>) -> bool {
    exists|i: int| 0 <= i < 13 && category == (#[trigger] CATEGORY_NAMES@[i])@
}

/// The asset types of the catalogue: which of them each category shows, that a name
/// that is no category shows none, and that no type is in two categories.
pub proof fn law_categories_show_their_types(category: Seq<char>, other: Seq<char>)
    ensures
        category == "Hats"@ ==> types_of(category) == seq![8u32],
        category == "Hair"@ ==> types_of(category) == seq![41u32],
        category == "Face"@ ==> types_of(category) == seq![18u32, 42u32],
        category == "Neck"@ ==> types_of(category) == seq![43u32],
        category == "Shoulder"@ ==> types_of(category) == seq![44u32],
        category == "Front"@ ==> types_of(category) == seq![45u32],
        category == "Back"@ ==> types_of(category) == seq![46u32],
        category == "Waist"@ ==> types_of(category) == seq![47u32],
        category == "Shirts"@ ==> types_of(category) == seq![11u32],
        category == "Pants"@ ==> types_of(category) == seq![12u32],
        category == "T-Shirts"@ ==> types_of(category) == seq![2u32],
        category == "Gear"@ ==> types_of(category) == seq![19u32],
        category == "Emotes"@ ==> types_of(category) == seq![61u32],
        types_of(category).len() > 0 <==> names_category(category),
        category != other ==> forall|t: u32|
            types_of(category).contains(t) ==> !types_of(other).contains(t),
{
    reveal_strlit("Hats");
    reveal_strlit("Hair");
    reveal_strlit("Face");
    reveal_strlit("Neck");
    reveal_strlit("Shoulder");
    reveal_strlit("Front");
    reveal_strlit("Back");
    reveal_strlit("Waist");
    reveal_strlit("Shirts");
    reveal_strlit("Pants");
    reveal_strlit("T-Shirts");
    reveal_strlit("Gear");
    reveal_strlit("Emotes");
    assert("Hats"@[2] == 't' && "Hair"@[2] == 'i');
    assert("Hats"@.len() == 4 && "Hats"@[0] == 'H');
    assert("Hair"@.len() == 4 && "Hair"@[0] == 'H');
    assert("Face"@.len() == 4 && "Face"@[0] == 'F');
    assert("Neck"@.len() == 4 && "Neck"@[0] == 'N');
    assert("Shoulder"@.len() == 8 && "Shoulder"@[0] == 'S');
    assert("Front"@.len() == 5 && "Front"@[0] == 'F');
    assert("Back"@.len() == 4 && "Back"@[0] == 'B');
    assert("Waist"@.len() == 5 && "Waist"@[0] == 'W');
    assert("Shirts"@.len() == 6 && "Shirts"@[0] == 'S');
    assert("Pants"@.len() == 5 && "Pants"@[0] == 'P');
    assert("T-Shirts"@.len() == 8 && "T-Shirts"@[0] == 'T');
    assert("Gear"@.len() == 4 && "Gear"@[0] == 'G');
    assert("Emotes"@.len() == 6 && "Emotes"@[0] == 'E');
}

#[derive(Debug, Clone, Default)]
pub struct Avatar {
    pub player_avatar_type: String,
    pub scales: Scales,
    pub body_colors: BodyColors,
    pub assets: Vec<WornAsset>,
}

pub open spec fn asset_ids(assets: Seq<WornAsset>) -> Seq<i64> {
    assets.map_values(|a: WornAsset| a.id)
}

impl Avatar {
    pub fn worn_ids(&self) -> (ids: Vec<i64>)
        ensures
            ids@ == asset_ids(self.assets@),
    {
        let mut ids: Vec<i64> = Vec::new();
        let mut i: usize = 0;
        while i < self.assets.len()
            invariant
                i <= self.assets.len(),
                ids.len() == i,
                forall|k: int| 0 <= k < i ==> #[trigger] ids@[k] == self.assets@[k].id,
            decreases self.assets.len() - i,
        {
            ids.push(self.assets[i].id);
            i = i + 1;
        }
        assert(ids@ =~= asset_ids(self.assets@));
        ids
    }

    pub fn is_worn(&self, asset_id: i64) -> (r: bool)
        ensures
            r == asset_ids(self.assets@).contains(asset_id),
    {
        holds(&self.worn_ids(), asset_id)
    }
}

/// Body proportions, each as the bits of a double.
#[derive(Debug, Clone, Copy, PartialEq, Eq)]
pub struct Scales {
    pub height: u64,
    pub width: u64,
    pub head: u64,
    pub depth: u64,
    pub proportion: u64,
    pub body_type: u64,
}

/// The bits of the double 1.
pub const ONE_BITS: u64 = 0x3ff0_0000_0000_0000;

impl Default for Scales {
    /// The service's neutral proportions.
    fn default() -> (s: Self)
        ensures
            s.height == ONE_BITS,
            s.width == ONE_BITS,
            s.head == ONE_BITS,
            s.depth == ONE_BITS,
            s.proportion == 0,
            s.body_type == 0,
    {
        Scales {
            height: ONE_BITS,
            width: ONE_BITS,
            head: ONE_BITS,
            depth: ONE_BITS,
            proportion: 0,
            body_type: 0,
        }
    }
}

#[derive(Debug, Clone, Copy, Default, PartialEq, Eq)]
pub struct BodyColors {
    pub head_color_id: i32,
    pub torso_color_id: i32,
    pub right_arm_color_id: i32,
    pub left_arm_color_id: i32,
    pub right_leg_color_id: i32,
    pub left_leg_color_id: i32,
}

#[derive(Debug, Clone, Default)]
pub struct WornAsset {
    pub id: i64,
    pub name: String,
    pub asset_type: AssetType,
}

#[derive(Debug, Clone, Default)]
pub struct AssetType {
    pub id: u32,
    pub name: String,
}

#[derive(Debug, Clone, Default)]
pub struct InventoryItem {
    pub user_asset_id: i64,
    pub asset_id: i64,
    pub asset_name: String,
    pub serial_number: Option<i64>,
}

#[derive(Debug, Clone, Default)]
pub struct Outfit {
    pub id: i64,
    pub name: String,
    pub is_editable: bool,
}

/// Anyone's avatar.
pub fn of_user_url(user_id: i64) -> (url: String)
    ensures
        url@ == AVATAR@ + "/v1/users/"@ + decimal_int(user_id as int) + "/avatar"@,
{
    cat4(AVATAR, "/v1/users/", int_text(user_id).as_str(), "/avatar")
}

/// The signed-in user's avatar.
pub fn mine_url() -> (url: String)
    ensures
        url@ == AVATAR@ + "/v1/avatar"@,
{
    cat2(AVATAR, "/v1/avatar")
}

/// Owned items of one asset type.
pub fn inventory_url(user_id: i64, asset_type: u32, limit: u32) -> (url: String)
    ensures
        exists|n: u32|
            #![trigger allowed_limit(n)]
            is_page_limit(limit, n) && url@ == INVENTORY@ + "/v2/users/"@ + decimal_int(
                user_id as int,
            ) + "/inventory/"@ + decimal(asset_type as nat) + ("?limit="@ + decimal(n as nat)
                + "&sortOrder=Desc"@),
{
    let n: u32 = page_limit(limit);
    assert(allowed_limit(n));
    let head = cat5(
        INVENTORY,
        "/v2/users/",
        int_text(user_id).as_str(),
        "/inventory/",
        nat_text(asset_type as u64).as_str(),
    );
    cat2(
        head.as_str(),
        cat3("?limit=", nat_text(n as u64).as_str(), "&sortOrder=Desc").as_str(),
    )
}

pub fn outfits_url(user_id: i64, per_page: u32) -> (url: String)
    ensures
        url@ == AVATAR@ + "/v1/users/"@ + decimal_int(user_id as int)
            + "/outfits?page=1&itemsPerPage="@ + decimal(per_page as nat),
{
    cat5(
        AVATAR,
        "/v1/users/",
        int_text(user_id).as_str(),
        "/outfits?page=1&itemsPerPage=",
        nat_text(per_page as u64).as_str(),
    )
}

/// An outfit's contents. Wearing one means reading its assets and setting them.
pub fn outfit_details_url(outfit_id: i64) -> (url: String)
    ensures
        url@ == AVATAR@ + "/v1/outfits/"@ + decimal_int(outfit_id as int) + "/details"@,
{
    cat4(AVATAR, "/v1/outfits/", int_text(outfit_id).as_str(), "/details")
}

/// The writes that change an avatar.
#[derive(Debug, Clone, Copy, PartialEq, Eq, Structural)]
pub enum AvatarWrite {
    Wearing,
    BodyColors,
    Scales,
    BodyKind,
    SaveOutfit,
}

pub open spec fn write_path(w: AvatarWrite) -> Seq<char> {
    match w {
        AvatarWrite::Wearing => "/v2/avatar/set-wearing-assets"@,
        AvatarWrite::BodyColors => "/v1/avatar/set-body-colors"@,
        AvatarWrite::Scales => "/v1/avatar/set-scales"@,
        AvatarWrite::BodyKind => "/v1/avatar/set-player-avatar-type"@,
        AvatarWrite::SaveOutfit => "/v2/outfits/create"@,
    }
}

pub fn write_url(w: AvatarWrite) -> (url: String)
    ensures
        url@ == AVATAR@ + write_path(w),
{
    let path = match w {
        AvatarWrite::Wearing => "/v2/avatar/set-wearing-assets",
        AvatarWrite::BodyColors => "/v1/avatar/set-body-colors",
        AvatarWrite::Scales => "/v1/avatar/set-scales",
        AvatarWrite::BodyKind => "/v1/avatar/set-player-avatar-type",
        AvatarWrite::SaveOutfit => "/v2/outfits/create",
    };
    cat2(AVATAR, path)
}

/// The name of a body kind.
pub fn body_kind(r15: bool) -> (r: &'static str)
    ensures
        r@ == (if r15 { "R15"@ } else { "R6"@ }),
{
    if r15 {
        "R15"
    } else {
        "R6"
    }
}

/// Items, and behind them those of a further list whose asset is not there yet.
pub open spec fn with_items(
    have: Seq<InventoryItem>,
    more: Seq<InventoryItem>,
) -> Seq<InventoryItem>
    decreases more.len(),
{
    if more.len() == 0 {
        have
    } else {
        let before = with_items(have, more.drop_last());
        if owns(before, more.last().asset_id) {
            before
        } else {
            before.push(more.last())
        }
    }
}

pub open spec fn owns(items: Seq<InventoryItem>, asset_id: i64) -> bool {
    exists|i: int| 0 <= i < items.len() && (#[trigger] items[i]).asset_id == asset_id
}

fn is_owned(items: &Vec<InventoryItem>, asset_id: i64) -> (r: bool)
    ensures
        r == owns(items@, asset_id),
{
    let mut i: usize = 0;
    while i < items.len()
        invariant
            i <= items.len(),
            forall|k: int| 0 <= k < i ==> (#[trigger] items@[k]).asset_id != asset_id,
        decreases items.len() - i,
    {
        if items[i].asset_id == asset_id {
            return true;
        }
        i = i + 1;
    }
    false
}

/// Add the items of one asset type to those of a category, without repeats.
pub fn add_items(have: &mut Vec<InventoryItem>, more: Vec<InventoryItem>)
    ensures
        final(have)@ == with_items(old(have)@, more@),
{
    let ghost all = more@;
    let ghost before = have@;
    let mut left = crate::order::flipped(more);
    let ghost mut done: int = 0;
    assert(all.take(0) =~= Seq::<InventoryItem>::empty());
    while left.len() > 0
        invariant
            left.len() + done == all.len(),
            0 <= done,
            forall|k: int| 0 <= k < left.len() ==> #[trigger] left@[k] == all[all.len() - 1 - k],
            have@ == with_items(before, all.take(done)),
        decreases left.len(),
    {
        assert(left@[left.len() - 1] == all[done]);
        assert(all.take(done + 1).drop_last() =~= all.take(done));
        assert(all.take(done + 1).last() == all[done]);
        match left.pop() {
            Some(item) => {
                if !is_owned(have, item.asset_id) {
                    have.push(item);
                }
            },
            None => {},
        }
        proof {
            done = done + 1;
        }
    }
    assert(all.take(all.len() as int) =~= all);
}

/// No asset is listed twice in a category.
pub open spec fn assets_differ(items: Seq<InventoryItem>) -> bool {
    forall|i: int, j: int|
        0 <= i < j < items.len() ==> (#[trigger] items[i]).asset_id != (#[trigger] items[j]).asset_id
}

/// A category lists each asset once, and every asset of either list.
pub proof fn law_category_lists_each_asset_once(
    have: Seq<InventoryItem>,
    more: Seq<InventoryItem>,
)
    requires
        assets_differ(have),
    ensures
        assets_differ(with_items(have, more)),
        forall|i: int| 0 <= i < have.len() ==> owns(with_items(have, more), (#[trigger] have[i]).asset_id),
        forall|i: int| 0 <= i < more.len() ==> owns(with_items(have, more), (#[trigger] more[i]).asset_id),
    decreases more.len(),
{
    let out = with_items(have, more);
    if more.len() > 0 {
        law_category_lists_each_asset_once(have, more.drop_last());
        let before = with_items(have, more.drop_last());
        assert forall|i: int| 0 <= i < have.len() implies owns(out, (#[trigger] have[i]).asset_id) by {
            let k = choose|k: int|
                0 <= k < before.len() && (#[trigger] before[k]).asset_id == have[i].asset_id;
            assert(out[k] == before[k]);
        }
        assert forall|i: int| 0 <= i < more.len() implies owns(out, (#[trigger] more[i]).asset_id) by {
            if i < more.len() - 1 {
                assert(more.drop_last()[i] == more[i]);
                let k = choose|k: int|
                    0 <= k < before.len() && (#[trigger] before[k]).asset_id == more[i].asset_id;
                assert(out[k] == before[k]);
            } else if !owns(before, more.last().asset_id) {
                assert(out[before.len() as int] == more[i]);
            }
        }
    } else {
        assert forall|i: int| 0 <= i < have.len() implies owns(out, (#[trigger] have[i]).asset_id) by {
            assert(out[i] == have[i]);
        }
    }
}

/// The list of worn assets as the service wants it: `{"assets":[{"id":1}]}`.
pub open spec fn worn_json(ids: Seq<i64>) -> Seq<char> {
    "{\"assets\":["@ + worn_entries(ids) + "]}"@
}

pub open spec fn worn_entries(ids: Seq<i64>) -> Seq<char>
    decreases ids.len(),
{
    if ids.len() == 0 {
        Seq::empty()
    } else if ids.len() == 1 {
        "{\"id\":"@ + decimal_int(ids[0] as int) + "}"@
    } else {
        worn_entries(ids.drop_last()) + ",{\"id\":"@ + decimal_int(ids.last() as int) + "}"@
    }
}

/// The request body for the complete list of worn assets, in the order given.
/// An empty wardrobe is an empty list, not a missing one.
pub fn wear_body(asset_ids: &Vec<i64>) -> (r: String)
    ensures
        r@ == worn_json(asset_ids@),
{
    let mut s = String::new();
    let mut i: usize = 0;
    assert(asset_ids@.take(0) =~= Seq::<i64>::empty());
    while i < asset_ids.len()
        invariant
            i <= asset_ids.len(),
            s@ == worn_entries(asset_ids@.take(i as int)),
        decreases asset_ids.len() - i,
    {
        let ghost before = s@;
        assert(asset_ids@.take(i as int + 1).drop_last() =~= asset_ids@.take(i as int));
        assert(asset_ids@.take(i as int + 1).last() == asset_ids@[i as int]);
        if i == 0 {
            s.append("{\"id\":");
        } else {
            s.append(",{\"id\":");
        }
        s.append(int_text(asset_ids[i]).as_str());
        s.append("}");
        proof {
            if i == 0 {
                assert(before =~= Seq::<char>::empty());
                assert(s@ =~= "{\"id\":"@ + decimal_int(asset_ids@[0] as int) + "}"@);
            }
        }
        i = i + 1;
    }
    assert(asset_ids@.take(asset_ids@.len() as int) =~= asset_ids@);
    cat3("{\"assets\":[", s.as_str(), "]}")
}

/// What the service made of a list of worn assets. An answer does not mean it
/// worked: failures are reported in the body.
pub fn set_wearing(success: bool, refused: usize) -> (r: std::result::Result<(), Error>)
    ensures
        match r {
            Ok(()) => success,
            Err(Error::Api(e)) => !success && e@ == (if refused == 0 {
                "Roblox would not accept that outfit"@
            } else {
                "Roblox refused "@ + decimal(refused as nat) + " of those items"@
            }),
            Err(_) => false,
        },
{
    if success {
        return Ok(());
    }
    if refused == 0 {
        Err(Error::Api("Roblox would not accept that outfit".to_owned()))
    } else {
        Err(
            Error::Api(
                cat3("Roblox refused ", nat_text(refused as u64).as_str(), " of those items"),
            ),
        )
    }
}

/// What is worn after putting an asset on.
pub open spec fn worn_with(current: Seq<i64>, id: i64) -> Seq<i64> {
    if current.contains(id) {
        current
    } else {
        current.push(id)
    }
}

/// What is worn after taking an asset off.
pub open spec fn worn_without(current: Seq<i64>, id: i64) -> Seq<i64>
    decreases current.len(),
{
    if current.len() == 0 {
        Seq::empty()
    } else {
        let before = worn_without(current.drop_last(), id);
        if current.last() == id {
            before
        } else {
            before.push(current.last())
        }
    }
}

/// The list with an asset put on.
pub fn wear(current: &Vec<i64>, asset_id: i64) -> (next: Vec<i64>)
    ensures
        next@ == worn_with(current@, asset_id),
{
    let mut next = current.clone();
    assert(next@ =~= current@);
    if !holds(&next, asset_id) {
        next.push(asset_id);
    }
    next
}

/// The list with an asset taken off.
pub fn remove(current: &Vec<i64>, asset_id: i64) -> (next: Vec<i64>)
    ensures
        next@ == worn_without(current@, asset_id),
{
    let mut next: Vec<i64> = Vec::new();
    let mut i: usize = 0;
    assert(current@.take(0) =~= Seq::<i64>::empty());
    while i < current.len()
        invariant
            i <= current.len(),
            next@ == worn_without(current@.take(i as int), asset_id),
        decreases current.len() - i,
    {
        assert(current@.take(i as int + 1).drop_last() =~= current@.take(i as int));
        if current[i] != asset_id {
            next.push(current[i]);
        }
        i = i + 1;
    }
    assert(current@.take(current@.len() as int) =~= current@);
    next
}

proof fn lemma_without_absent(current: Seq<i64>, id: i64)
    requires
        !current.contains(id),
    ensures
        worn_without(current, id) == current,
    decreases current.len(),
{
    if current.len() > 0 {
        assert(current.last() == current[current.len() - 1]);
        assert forall|k: int| 0 <= k < current.drop_last().len() implies current.drop_last()[k]
            != id by {
            assert(current[k] != id);
        }
        lemma_without_absent(current.drop_last(), id);
        assert(current =~= current.drop_last().push(current.last()));
    }
}

proof fn lemma_without_removes(current: Seq<i64>, id: i64)
    ensures
        !worn_without(current, id).contains(id),
    decreases current.len(),
{
    if current.len() > 0 {
        lemma_without_removes(current.drop_last(), id);
    }
}

/// Putting an asset on wears it, taking it off does not, and putting on what was
/// not worn and taking it off again changes nothing.
pub proof fn law_wear_and_remove(current: Seq<i64>, id: i64)
    ensures
        worn_with(current, id).contains(id),
        !worn_without(current, id).contains(id),
        !current.contains(id) ==> worn_without(worn_with(current, id), id) == current,
        !current.contains(id) ==> worn_without(current, id) == current,
{
    lemma_without_removes(current, id);
    if !current.contains(id) {
        let next = current.push(id);
        assert(next[next.len() - 1] == id);
        assert(next.drop_last() =~= current);
        lemma_without_absent(current, id);
    }
}

/// The colours of a body as JSON, the parts by name.
pub open spec fn colors_json(c: BodyColors) -> Seq<char> {
    "{\"headColorId\":"@ + decimal_int(c.head_color_id as int) + ",\"leftArmColorId\":"@
        + decimal_int(c.left_arm_color_id as int) + ",\"leftLegColorId\":"@ + decimal_int(
        c.left_leg_color_id as int,
    ) + ",\"rightArmColorId\":"@ + decimal_int(c.right_arm_color_id as int)
        + ",\"rightLegColorId\":"@ + decimal_int(c.right_leg_color_id as int)
        + ",\"torsoColorId\":"@ + decimal_int(c.torso_color_id as int) + "}"@
}

/// The body that changes the colours of the body.
pub fn colors_body(c: &BodyColors) -> (r: String)
    ensures
        r@ == colors_json(*c),
{
    let mut s = cat2("{\"headColorId\":", int_text(c.head_color_id as i64).as_str());
    s.append(",\"leftArmColorId\":");
    s.append(int_text(c.left_arm_color_id as i64).as_str());
    s.append(",\"leftLegColorId\":");
    s.append(int_text(c.left_leg_color_id as i64).as_str());
    s.append(",\"rightArmColorId\":");
    s.append(int_text(c.right_arm_color_id as i64).as_str());
    s.append(",\"rightLegColorId\":");
    s.append(int_text(c.right_leg_color_id as i64).as_str());
    s.append(",\"torsoColorId\":");
    s.append(int_text(c.torso_color_id as i64).as_str());
    s.append("}");
    s
}

/// The body that changes the body kind.
pub fn kind_body(r15: bool) -> (body: String)
    ensures
        body@ == (if r15 {
            "{\"playerAvatarType\":\"R15\"}"@
        } else {
            "{\"playerAvatarType\":\"R6\"}"@
        }),
{
    if r15 {
        "{\"playerAvatarType\":\"R15\"}".to_owned()
    } else {
        "{\"playerAvatarType\":\"R6\"}".to_owned()
    }
}

/// Each change of an avatar is a write of its own.
pub proof fn law_changes_go_where_they_belong(w: AvatarWrite)
    ensures
        match w {
            AvatarWrite::Wearing => AVATAR@ + write_path(w) == "https://avatar.roblox.com/v2/avatar/set-wearing-assets"@,
            AvatarWrite::BodyColors => AVATAR@ + write_path(w) == "https://avatar.roblox.com/v1/avatar/set-body-colors"@,
            AvatarWrite::Scales => AVATAR@ + write_path(w) == "https://avatar.roblox.com/v1/avatar/set-scales"@,
            AvatarWrite::BodyKind => AVATAR@ + write_path(w) == "https://avatar.roblox.com/v1/avatar/set-player-avatar-type"@,
            AvatarWrite::SaveOutfit => AVATAR@ + write_path(w) == "https://avatar.roblox.com/v2/outfits/create"@,
        },
        INVENTORY@ == "https://inventory.roblox.com"@,
        ONE_BITS == 4_607_182_418_800_017_408,
{
    reveal_strlit("https://avatar.roblox.com");
    reveal_strlit("/v2/avatar/set-wearing-assets");
    reveal_strlit("https://avatar.roblox.com/v2/avatar/set-wearing-assets");
    assert(AVATAR@ + "/v2/avatar/set-wearing-assets"@ =~= "https://avatar.roblox.com/v2/avatar/set-wearing-assets"@);
    reveal_strlit("/v1/avatar/set-body-colors");
    reveal_strlit("https://avatar.roblox.com/v1/avatar/set-body-colors");
    assert(AVATAR@ + "/v1/avatar/set-body-colors"@ =~= "https://avatar.roblox.com/v1/avatar/set-body-colors"@);
    reveal_strlit("/v1/avatar/set-scales");
    reveal_strlit("https://avatar.roblox.com/v1/avatar/set-scales");
    assert(AVATAR@ + "/v1/avatar/set-scales"@ =~= "https://avatar.roblox.com/v1/avatar/set-scales"@);
    reveal_strlit("/v1/avatar/set-player-avatar-type");
    reveal_strlit("https://avatar.roblox.com/v1/avatar/set-player-avatar-type");
    assert(AVATAR@ + "/v1/avatar/set-player-avatar-type"@ =~= "https://avatar.roblox.com/v1/avatar/set-player-avatar-type"@);
    reveal_strlit("/v2/outfits/create");
    reveal_strlit("https://avatar.roblox.com/v2/outfits/create");
    assert(AVATAR@ + "/v2/outfits/create"@ =~= "https://avatar.roblox.com/v2/outfits/create"@);
}

/// What is worn is sent as a list of ids, one after the other, with commas between
/// them; nothing is sent as an empty list.
pub proof fn law_what_is_sent_of_what_is_worn(ids: Seq<i64>, id: i64)
    ensures
        worn_json(ids) == "{\"assets\":["@ + worn_entries(ids) + "]}"@,
        worn_entries(Seq::empty()).len() == 0,
        worn_entries(ids.push(id)) == (if ids.len() == 0 {
            Seq::empty()
        } else {
            worn_entries(ids) + seq![',']
        }) + "{\"id\":"@ + decimal_int(id as int) + "}"@,
{
    reveal_strlit(",{\"id\":");
    reveal_strlit("{\"id\":");
    assert(",{\"id\":"@ =~= seq![','] + "{\"id\":"@);
    let all = ids.push(id);
    assert(all.drop_last() =~= ids);
    assert(all.last() == id);
    assert(worn_entries(all) =~= (if ids.len() == 0 {
        Seq::empty()
    } else {
        worn_entries(ids) + seq![',']
    }) + "{\"id\":"@ + decimal_int(id as int) + "}"@);
}

/// Each part of the body is sent its own colour.
pub proof fn law_colours_go_to_their_parts(c: BodyColors)
    ensures
        colors_json(c) == "{\"headColorId\":"@ + decimal_int(c.head_color_id as int)
            + ",\"leftArmColorId\":"@ + decimal_int(c.left_arm_color_id as int)
            + ",\"leftLegColorId\":"@ + decimal_int(c.left_leg_color_id as int)
            + ",\"rightArmColorId\":"@ + decimal_int(c.right_arm_color_id as int)
            + ",\"rightLegColorId\":"@ + decimal_int(c.right_leg_color_id as int)
            + ",\"torsoColorId\":"@ + decimal_int(c.torso_color_id as int) + "}"@,
{
}

/// Putting something on keeps what is worn and adds to its end; taking something off
/// keeps the rest in its order.
pub proof fn law_the_rest_stays_on(current: Seq<i64>, id: i64)
    ensures
        current.is_prefix_of(worn_with(current, id)),
        current.contains(id) ==> worn_with(current, id) == current,
        !current.contains(id) ==> worn_with(current, id) == current.push(id),
        worn_without(current, id) == current.filter(|x: i64| x != id),
{
    assert(current =~= worn_with(current, id).subrange(0, current.len() as int));
    lemma_without_is_filter(current, id);
}

proof fn lemma_without_is_filter(current: Seq<i64>, id: i64)
    ensures
        worn_without(current, id) == current.filter(|x: i64| x != id),
    decreases current.len(),
{
    reveal(Seq::filter);
    if current.len() > 0 {
        lemma_without_is_filter(current.drop_last(), id);
    }
    assert(worn_without(current, id) =~= current.filter(|x: i64| x != id));
}

} // verus!
