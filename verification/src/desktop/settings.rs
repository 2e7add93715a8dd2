//! Finding a setting by what people call it.

use crate::desktop::adapters::{item_is, DetailItem};
use crate::number::{decimal_int, int_text};
use crate::text::{
    ascii_lower, ascii_lowercase, ascii_only, chars_of, contains_text, is_space, is_space_spec,
    lemma_trimmed, lowercase, occurs, range_text, texts, to_lower, trim, trim_end, trim_start,
    trimmed,
};
use vstd::prelude::*;

verus! {

/// How many settings there are.
pub const SETTINGS: usize = 33;

/// Every setting: the category it is in, its name, and what it does in the words
/// people reach for.
pub const SETTINGS_INDEX: [(i32, &'static str, &'static str); 33] = [
    (0, "Accounts", "switch account, remove account, add another account, sign in"),
    (1, "Graph on Home", "playtime chart, day by day, show hide"),
    (1, "Track pinned friends", "friend playtime, record what friends play"),
    (1, "Keep history for", "playtime retention, 30 days, 90 days, year, unlimited"),
    (1, "Keep running when closed", "tray, background, minimise to tray, keep tracking"),
    (1, "Start with my session", "autostart, launch at login, startup, boot"),
    (2, "Home sections", "friends, jump back in, pinned, recently played, favourites"),
    (2, "Hidden from recent", "restore removed games, unhide, show again"),
    (3, "Friend requests", "notify me about friend requests"),
    (3, "Watched friends", "notification subscriptions, bell, per friend"),
    (3, "Watched games", "notify when a friend plays this game"),
    (4, "Dark theme", "light theme, appearance, colours, palette"),
    (4, "Interface size", "scale, zoom, bigger text, smaller, ui scale"),
    (4, "Startup section", "which page opens first, landing page"),
    (5, "Macros enabled", "master switch for macros, hotkeys"),
    (5, "Only when Roblox is focused", "macro safety, focus gate, background"),
    (5, "Panic key", "stop all macros, emergency stop, release freeze"),
    (6, "Desktop shortcuts", "launch a game directly, icons, remove shortcut"),
    (7, "Confirm destructive actions", "ask before deleting, confirmation dialog"),
    (7, "Open Roblox links", "roblox:// handler, protocol, default app"),
    (8, "Server list size", "how many servers to fetch, page size"),
    (8, "Request timeout", "how long before giving up, network timeout"),
    (8, "Presence refresh", "how often friends update, polling interval"),
    (9, "FastFlags", "engine flags, fflags, presets, graphics tweaks"),
    (9, "Graphics mode", "renderer, vulkan, opengl, optimisation"),
    (10, "Thumbnail cache", "image memory, cache size"),
    (10, "Verbose logging", "debug log, log file, diagnostics"),
    (10, "Automatic updates", "check for updates, auto update, new version"),
    (11, "Version", "about, build, release notes"),
    (11, "Data folder", "where settings are stored, config location, log file"),
    (12, "Delete playtime history", "erase sessions, reset graph, danger"),
    (12, "Clear cached data", "thumbnails, usernames, flag list, danger"),
    (12, "Delete all data", "factory reset, wipe everything, start over, danger"),
];

/// The names of the categories.
pub const SETTINGS_CATEGORIES: [&'static str; 13] = [
    "Accounts",
    "Playtime",
    "Home",
    "Notifications",
    "Interface",
    "Macros",
    "Shortcuts",
    "System",
    "Network",
    "Roblox client",
    "Advanced",
    "About",
    "Danger zone",
];

/// How many characters stand before the first white space.
pub open spec fn word_length(s: Seq<char>) -> nat
    decreases s.len(),
{
    if s.len() == 0 || is_space_spec(s[0]) {
        0
    } else {
        1 + word_length(s.skip(1))
    }
}

/// The words of a text.
pub open spec fn words_of(s: Seq<char>) -> Seq<Seq<char>>
    decreases s.len(),
{
    if s.len() == 0 {
        Seq::empty()
    } else if is_space_spec(s[0]) {
        words_of(s.skip(1))
    } else {
        let k = word_length(s);
        if k <= 0 || k > s.len() {
            Seq::empty()
        } else {
            seq![s.take(k as int)] + words_of(s.skip(k as int))
        }
    }
}

proof fn lemma_word_length(s: Seq<char>, k: int)
    requires
        0 <= k <= s.len(),
        forall|i: int| 0 <= i < k ==> !is_space_spec(s[i]),
        k < s.len() ==> is_space_spec(s[k]),
    ensures
        word_length(s) == k,
    decreases s.len(),
{
    if k > 0 {
        assert(!is_space_spec(s[0]));
        assert forall|i: int| 0 <= i < k - 1 implies !is_space_spec(s.skip(1)[i]) by {
            assert(s.skip(1)[i] == s[i + 1]);
        }
        lemma_word_length(s.skip(1), k - 1);
    }
}

/// The words of a text.
pub fn split_words(s: &str) -> (words: Vec<String>)
    ensures
        texts(words@) == words_of(s@),
{
    let v = chars_of(s);
    let mut words: Vec<String> = Vec::new();
    let mut at: usize = 0;
    assert(v@.skip(0) =~= v@);
    assert(texts(words@) + words_of(v@) =~= words_of(v@));
    while at < v.len()
        invariant
            at <= v.len(),
            v@ == s@,
            texts(words@) + words_of(v@.skip(at as int)) == words_of(s@),
        decreases v.len() - at,
    {
        let ghost rest = v@.skip(at as int);
        assert(rest[0] == v@[at as int]);
        if is_space(v[at]) {
            assert(rest.skip(1) =~= v@.skip(at as int + 1));
            at = at + 1;
        } else {
            let mut end: usize = at;
            while end < v.len() && !is_space(v[end])
                invariant
                    at <= end <= v.len(),
                    rest == v@.skip(at as int),
                    forall|i: int| 0 <= i < end - at ==> !is_space_spec(rest[i]),
                decreases v.len() - end,
            {
                assert(rest[end - at] == v@[end as int]);
                end = end + 1;
            }
            proof {
                if end < v.len() {
                    assert(rest[end - at] == v@[end as int]);
                }
                lemma_word_length(rest, end - at);
                if end == at {
                    assert(is_space_spec(rest[0]));
                }
            }
            let word = range_text(&v, at, end);
            assert(word@ =~= rest.take(end - at));
            let ghost before = texts(words@);
            let ghost w = word@;
            words.push(word);
            assert(texts(words@) =~= before.push(w));
            assert(rest.skip(end - at) =~= v@.skip(end as int));
            assert(before + (seq![w] + words_of(v@.skip(end as int))) =~= texts(words@) + words_of(
                v@.skip(end as int),
            ));
            at = end;
        }
    }
    assert(v@.skip(at as int) =~= Seq::<char>::empty());
    assert(texts(words@) + Seq::<Seq<char>>::empty() =~= texts(words@));
    words
}

/// Every word stands in the name or in the description of a setting.
pub open spec fn all_found(words: Seq<Seq<char>>, name: Seq<char>, what: Seq<char>) -> bool {
    forall|i: int|
        0 <= i < words.len() ==> occurs(lowercase(name), #[trigger] words[i]) || occurs(
            lowercase(what),
            words[i],
        )
}

/// The words of a query, in lower case.
pub open spec fn low_words(query: Seq<char>) -> Seq<Seq<char>> {
    words_of(trimmed(query)).map_values(|w: Seq<char>| lowercase(w))
}

/// The setting answers a query.
pub open spec fn answers(i: int, query: Seq<char>) -> bool {
    all_found(low_words(query), SETTINGS_INDEX@[i].1@, SETTINGS_INDEX@[i].2@)
}

/// The settings below `n` that answer a query, in their order.
pub open spec fn hits(query: Seq<char>, n: nat) -> Seq<int>
    decreases n,
{
    if n == 0 {
        Seq::empty()
    } else {
        let earlier = hits(query, (n - 1) as nat);
        if answers(n - 1, query) {
            earlier.push(n - 1)
        } else {
            earlier
        }
    }
}

/// The settings that are found. Nothing is looked for, nothing is found.
pub open spec fn found(query: Seq<char>) -> Seq<int> {
    if trimmed(query).len() == 0 {
        Seq::empty()
    } else {
        hits(query, SETTINGS as nat)
    }
}

/// The row shows a setting: its name, its category, and where to jump to.
pub open spec fn shows_setting(r: DetailItem, i: int) -> bool {
    item_is(
        r,
        decimal_int(SETTINGS_INDEX@[i].0 as int),
        SETTINGS_INDEX@[i].1@,
        SETTINGS_CATEGORIES@[SETTINGS_INDEX@[i].0 as int]@,
        SETTINGS_INDEX@[i].0,
    )
}

/// Every setting is in a category that exists.
pub proof fn law_every_setting_has_a_category(i: int)
    requires
        0 <= i < SETTINGS,
    ensures
        0 <= SETTINGS_INDEX@[i].0 < 13,
{
    assert(SETTINGS_INDEX@[0].0 == 0);
    assert(SETTINGS_INDEX@[1].0 == 1);
    assert(SETTINGS_INDEX@[2].0 == 1);
    assert(SETTINGS_INDEX@[3].0 == 1);
    assert(SETTINGS_INDEX@[4].0 == 1);
    assert(SETTINGS_INDEX@[5].0 == 1);
    assert(SETTINGS_INDEX@[6].0 == 2);
    assert(SETTINGS_INDEX@[7].0 == 2);
    assert(SETTINGS_INDEX@[8].0 == 3);
    assert(SETTINGS_INDEX@[9].0 == 3);
    assert(SETTINGS_INDEX@[10].0 == 3);
    assert(SETTINGS_INDEX@[11].0 == 4);
    assert(SETTINGS_INDEX@[12].0 == 4);
    assert(SETTINGS_INDEX@[13].0 == 4);
    assert(SETTINGS_INDEX@[14].0 == 5);
    assert(SETTINGS_INDEX@[15].0 == 5);
    assert(SETTINGS_INDEX@[16].0 == 5);
    assert(SETTINGS_INDEX@[17].0 == 6);
    assert(SETTINGS_INDEX@[18].0 == 7);
    assert(SETTINGS_INDEX@[19].0 == 7);
    assert(SETTINGS_INDEX@[20].0 == 8);
    assert(SETTINGS_INDEX@[21].0 == 8);
    assert(SETTINGS_INDEX@[22].0 == 8);
    assert(SETTINGS_INDEX@[23].0 == 9);
    assert(SETTINGS_INDEX@[24].0 == 9);
    assert(SETTINGS_INDEX@[25].0 == 10);
    assert(SETTINGS_INDEX@[26].0 == 10);
    assert(SETTINGS_INDEX@[27].0 == 10);
    assert(SETTINGS_INDEX@[28].0 == 11);
    assert(SETTINGS_INDEX@[29].0 == 11);
    assert(SETTINGS_INDEX@[30].0 == 12);
    assert(SETTINGS_INDEX@[31].0 == 12);
    assert(SETTINGS_INDEX@[32].0 == 12);
}

/// Words in lower case.
fn lowered(words: &Vec<String>) -> (out: Vec<String>)
    ensures
        texts(out@) == texts(words@).map_values(|w: Seq<char>| lowercase(w)),
{
    let ghost all = texts(words@).map_values(|w: Seq<char>| lowercase(w));
    let mut out: Vec<String> = Vec::new();
    let mut i: usize = 0;
    assert(texts(out@) =~= all.take(0));
    while i < words.len()
        invariant
            i <= words.len(),
            all == texts(words@).map_values(|w: Seq<char>| lowercase(w)),
            texts(out@) == all.take(i as int),
        decreases words.len() - i,
    {
        let word = to_lower(words[i].as_str());
        let ghost before = texts(out@);
        let ghost w = word@;
        out.push(word);
        assert(texts(out@) =~= before.push(w));
        assert(w == all[i as int]);
        assert(before.push(w) =~= all.take(i as int + 1));
        i = i + 1;
    }
    assert(all.take(all.len() as int) =~= all);
    out
}

fn finds(words: &Vec<String>, name: &str, what: &str) -> (r: bool)
    ensures
        r == all_found(texts(words@), name@, what@),
{
    let low_name = to_lower(name);
    let low_what = to_lower(what);
    let ghost all = texts(words@);
    let mut i: usize = 0;
    while i < words.len()
        invariant
            i <= words.len(),
            all == texts(words@),
            low_name@ == lowercase(name@),
            low_what@ == lowercase(what@),
            forall|k: int|
                0 <= k < i ==> occurs(low_name@, #[trigger] all[k]) || occurs(low_what@, all[k]),
        decreases words.len() - i,
    {
        if !contains_text(low_name.as_str(), words[i].as_str()) && !contains_text(
            low_what.as_str(),
            words[i].as_str(),
        ) {
            assert(!occurs(low_name@, all[i as int]) && !occurs(low_what@, all[i as int]));
            return false;
        }
        i = i + 1;
    }
    true
}

/// The settings that answer a query. Names and descriptions are both looked at,
/// and every word must be found, so that more words find less.
pub fn search_settings(query: &str) -> (rows: Vec<DetailItem>)
    ensures
        rows.len() == found(query@).len(),
        forall|k: int|
            0 <= k < rows.len() ==> shows_setting(#[trigger] rows@[k], found(query@)[k]),
{
    let q = trim(query);
    let mut rows: Vec<DetailItem> = Vec::new();
    if q.as_str().is_empty() {
        return rows;
    }
    let words = lowered(&split_words(q.as_str()));
    let mut i: usize = 0;
    while i < SETTINGS
        invariant
            i <= SETTINGS,
            texts(words@) == low_words(query@),
            rows.len() == hits(query@, i as nat).len(),
            forall|k: int|
                0 <= k < rows.len() ==> shows_setting(#[trigger] rows@[k], hits(query@, i as nat)[k]),
        decreases SETTINGS - i,
    {
        let (cat, name, what) = SETTINGS_INDEX[i];
        if finds(&words, name, what) {
            proof {
                law_every_setting_has_a_category(i as int);
            }
            let cat: i32 = cat;
            rows.push(
                DetailItem {
                    id: int_text(cat as i64),
                    name: name.to_owned(),
                    subtitle: SETTINGS_CATEGORIES[cat as usize].to_owned(),
                    kind: cat,
                },
            );
        }
        i = i + 1;
    }
    rows
}

proof fn lemma_word_length_of(s: Seq<char>)
    ensures
        word_length(s) <= s.len(),
        forall|i: int| 0 <= i < word_length(s) ==> !is_space_spec(#[trigger] s[i]),
        word_length(s) < s.len() ==> is_space_spec(s[word_length(s) as int]),
    decreases s.len(),
{
    if s.len() > 0 && !is_space_spec(s[0]) {
        lemma_word_length_of(s.skip(1));
        assert forall|i: int| 0 <= i < word_length(s) implies !is_space_spec(#[trigger] s[i]) by {
            if i > 0 {
                assert(s[i] == s.skip(1)[i - 1]);
            }
        }
    }
}

/// White space parts words.
proof fn lemma_words_are_parted(a: Seq<char>, c: char, b: Seq<char>)
    requires
        is_space_spec(c),
    ensures
        words_of(a + seq![c] + b) == words_of(a) + words_of(b),
    decreases a.len(),
{
    let s = a + seq![c] + b;
    if a.len() == 0 {
        assert(s.skip(1) =~= b);
        assert(words_of(a) + words_of(b) =~= words_of(b));
    } else if is_space_spec(a[0]) {
        assert(s.skip(1) =~= a.skip(1) + seq![c] + b);
        lemma_words_are_parted(a.skip(1), c, b);
    } else {
        lemma_word_length_of(a);
        let k = word_length(a) as int;
        assert forall|i: int| 0 <= i < k implies !is_space_spec(s[i]) by {
            assert(s[i] == a[i]);
        }
        assert(s[k] == (if k < a.len() {
            a[k]
        } else {
            c
        }));
        lemma_word_length(s, k);
        assert(s.take(k) =~= a.take(k));
        assert(s.skip(k) =~= a.skip(k) + seq![c] + b);
        lemma_words_are_parted(a.skip(k), c, b);
        assert(words_of(s) =~= words_of(a) + words_of(b));
    }
}

proof fn lemma_words_trim_start(s: Seq<char>)
    ensures
        words_of(trim_start(s)) == words_of(s),
    decreases s.len(),
{
    if s.len() > 0 && is_space_spec(s[0]) {
        lemma_words_trim_start(s.skip(1));
    }
}

proof fn lemma_words_trim_end(s: Seq<char>)
    ensures
        words_of(trim_end(s)) == words_of(s),
    decreases s.len(),
{
    if s.len() > 0 && is_space_spec(s.last()) {
        let none = Seq::<char>::empty();
        lemma_words_trim_end(s.drop_last());
        lemma_words_are_parted(s.drop_last(), s.last(), none);
        assert(s =~= s.drop_last() + seq![s.last()] + none);
        assert(words_of(s.drop_last()) + words_of(none) =~= words_of(s.drop_last()));
    }
}

/// White space around a text holds no words.
proof fn lemma_words_trimmed(s: Seq<char>)
    ensures
        words_of(trimmed(s)) == words_of(s),
        trimmed(s).len() == 0 <==> words_of(s).len() == 0,
{
    lemma_words_trim_start(s);
    lemma_words_trim_end(trim_start(s));
    let t = trimmed(s);
    let ends = lemma_trimmed(s);
    if t.len() > 0 {
        lemma_word_length_of(t);
        assert(word_length(t) > 0);
        assert(words_of(t)[0] == t.take(word_length(t) as int));
    }
}

proof fn lemma_hits_narrow(shorter: Seq<char>, longer: Seq<char>, n: nat)
    requires
        n <= SETTINGS,
        forall|i: int| 0 <= i < SETTINGS && #[trigger] answers(i, longer) ==> answers(i, shorter),
    ensures
        hits(longer, n) == hits(shorter, n).filter(|i: int| answers(i, longer)),
        forall|k: int| 0 <= k < hits(shorter, n).len() ==> 0 <= #[trigger] hits(shorter, n)[k] < n,
    decreases n,
{
    reveal(Seq::filter);
    let p = |i: int| answers(i, longer);
    if n == 0 {
        assert(hits(longer, n) =~= hits(shorter, n).filter(p));
    } else {
        let m = (n - 1) as nat;
        lemma_hits_narrow(shorter, longer, m);
        let earlier = hits(shorter, m);
        if answers(n - 1, shorter) {
            assert(hits(shorter, n).drop_last() =~= earlier);
            assert(hits(shorter, n).last() == n - 1);
            assert(p(n - 1) == answers(n - 1, longer));
        }
        assert(hits(longer, n) =~= hits(shorter, n).filter(p));
    }
}

/// More words find less: what a query finds with words added to it is a part of
/// what it finds without them, in the same order.
pub proof fn law_more_words_narrow(query: Seq<char>, more: Seq<char>)
    requires
        trimmed(query).len() > 0,
    ensures
        found(query + seq![' '] + more) == found(query).filter(
            |i: int| answers(i, query + seq![' '] + more),
        ),
{
    let longer = query + seq![' '] + more;
    lemma_words_trimmed(query);
    lemma_words_trimmed(longer);
    lemma_words_are_parted(query, ' ', more);
    let fewer_words = low_words(query);
    let words = low_words(longer);
    assert forall|i: int| 0 <= i < SETTINGS && #[trigger] answers(i, longer) implies answers(
        i,
        query,
    ) by {
        let name = SETTINGS_INDEX@[i].1@;
        let what = SETTINGS_INDEX@[i].2@;
        assert forall|k: int| 0 <= k < fewer_words.len() implies occurs(
            lowercase(name),
            #[trigger] fewer_words[k],
        ) || occurs(lowercase(what), fewer_words[k]) by {
            assert(words[k] == fewer_words[k]);
        }
    }
    lemma_hits_narrow(query, longer, SETTINGS as nat);
}

proof fn lemma_lower_space(c: char)
    ensures
        is_space_spec(ascii_lower(c)) == is_space_spec(c),
{
    if 'A' <= c <= 'Z' {
        let u = c as u32;
        assert((u + 32) as char as u32 == u + 32);
    }
}

proof fn lemma_words_lowered(s: Seq<char>)
    ensures
        words_of(ascii_lowercase(s)) == words_of(s).map_values(|w: Seq<char>| ascii_lowercase(w)),
    decreases s.len(),
{
    let t = ascii_lowercase(s);
    let f = |w: Seq<char>| ascii_lowercase(w);
    if s.len() == 0 {
        assert(words_of(t) =~= words_of(s).map_values(f));
    } else {
        lemma_lower_space(s[0]);
        if is_space_spec(s[0]) {
            assert(t.skip(1) =~= ascii_lowercase(s.skip(1)));
            lemma_words_lowered(s.skip(1));
        } else {
            lemma_word_length_of(s);
            let k = word_length(s) as int;
            assert forall|i: int| 0 <= i < k implies !is_space_spec(t[i]) by {
                lemma_lower_space(s[i]);
                assert(!is_space_spec(s[i]));
            }
            if k < s.len() {
                lemma_lower_space(s[k]);
            }
            lemma_word_length(t, k);
            assert(t.take(k) =~= ascii_lowercase(s.take(k)));
            assert(t.skip(k) =~= ascii_lowercase(s.skip(k)));
            lemma_words_lowered(s.skip(k));
            assert(words_of(t) =~= words_of(s).map_values(f));
        }
    }
}

proof fn lemma_words_are_ascii(s: Seq<char>, i: int)
    requires
        ascii_only(s),
        0 <= i < words_of(s).len(),
    ensures
        ascii_only(words_of(s)[i]),
    decreases s.len(),
{
    if s.len() > 0 {
        if is_space_spec(s[0]) {
            lemma_words_are_ascii(s.skip(1), i);
        } else {
            lemma_word_length_of(s);
            let k = word_length(s) as int;
            if i > 0 {
                lemma_words_are_ascii(s.skip(k), i - 1);
            }
        }
    }
}

proof fn lemma_low_words_of_ascii(s: Seq<char>)
    requires
        ascii_only(s),
    ensures
        low_words(s) == words_of(ascii_lowercase(s)),
{
    lemma_words_trimmed(s);
    lemma_words_lowered(s);
    assert forall|i: int| 0 <= i < words_of(s).len() implies #[trigger] low_words(s)[i]
        == words_of(ascii_lowercase(s))[i] by {
        lemma_words_are_ascii(s, i);
    }
    assert(low_words(s) =~= words_of(ascii_lowercase(s)));
}

proof fn lemma_hits_alike(a: Seq<char>, b: Seq<char>, n: nat)
    requires
        low_words(a) == low_words(b),
    ensures
        hits(a, n) == hits(b, n),
    decreases n,
{
    if n > 0 {
        lemma_hits_alike(a, b, (n - 1) as nat);
    }
}

/// A query finds by its words in lower case alone: two with the same words find the
/// same, however they are written.
pub proof fn law_only_the_words_matter(a: Seq<char>, b: Seq<char>)
    requires
        low_words(a) == low_words(b),
    ensures
        found(a) == found(b),
{
    lemma_words_trimmed(a);
    lemma_words_trimmed(b);
    assert(low_words(a).len() == words_of(a).len());
    assert(low_words(b).len() == words_of(b).len());
    lemma_hits_alike(a, b, SETTINGS as nat);
}

/// It does not matter in which letter case a query of ASCII characters is written.
pub proof fn law_letter_case_does_not_matter(a: Seq<char>, b: Seq<char>)
    requires
        ascii_only(a),
        ascii_only(b),
        ascii_lowercase(a) == ascii_lowercase(b),
    ensures
        found(a) == found(b),
{
    lemma_low_words_of_ascii(a);
    lemma_low_words_of_ascii(b);
    law_only_the_words_matter(a, b);
}

/// Where each setting is found, under which name and by which words.
pub proof fn law_where_each_setting_is()
    ensures
        SETTINGS_INDEX@[0].0 == 0 && SETTINGS_INDEX@[0].1@ == "Accounts"@,
        SETTINGS_INDEX@[0].2@
            == "switch account, remove account, add another account, sign in"@,
        SETTINGS_INDEX@[1].0 == 1 && SETTINGS_INDEX@[1].1@ == "Graph on Home"@,
        SETTINGS_INDEX@[1].2@
            == "playtime chart, day by day, show hide"@,
        SETTINGS_INDEX@[2].0 == 1 && SETTINGS_INDEX@[2].1@ == "Track pinned friends"@,
        SETTINGS_INDEX@[2].2@
            == "friend playtime, record what friends play"@,
        SETTINGS_INDEX@[3].0 == 1 && SETTINGS_INDEX@[3].1@ == "Keep history for"@,
        SETTINGS_INDEX@[3].2@
            == "playtime retention, 30 days, 90 days, year, unlimited"@,
        SETTINGS_INDEX@[4].0 == 1 && SETTINGS_INDEX@[4].1@ == "Keep running when closed"@,
        SETTINGS_INDEX@[4].2@
            == "tray, background, minimise to tray, keep tracking"@,
        SETTINGS_INDEX@[5].0 == 1 && SETTINGS_INDEX@[5].1@ == "Start with my session"@,
        SETTINGS_INDEX@[5].2@
            == "autostart, launch at login, startup, boot"@,
        SETTINGS_INDEX@[6].0 == 2 && SETTINGS_INDEX@[6].1@ == "Home sections"@,
        SETTINGS_INDEX@[6].2@
            == "friends, jump back in, pinned, recently played, favourites"@,
        SETTINGS_INDEX@[7].0 == 2 && SETTINGS_INDEX@[7].1@ == "Hidden from recent"@,
        SETTINGS_INDEX@[7].2@
            == "restore removed games, unhide, show again"@,
        SETTINGS_INDEX@[8].0 == 3 && SETTINGS_INDEX@[8].1@ == "Friend requests"@,
        SETTINGS_INDEX@[8].2@
            == "notify me about friend requests"@,
        SETTINGS_INDEX@[9].0 == 3 && SETTINGS_INDEX@[9].1@ == "Watched friends"@,
        SETTINGS_INDEX@[9].2@
            == "notification subscriptions, bell, per friend"@,
        SETTINGS_INDEX@[10].0 == 3 && SETTINGS_INDEX@[10].1@ == "Watched games"@,
        SETTINGS_INDEX@[10].2@
            == "notify when a friend plays this game"@,
        SETTINGS_INDEX@[11].0 == 4 && SETTINGS_INDEX@[11].1@ == "Dark theme"@,
        SETTINGS_INDEX@[11].2@
            == "light theme, appearance, colours, palette"@,
        SETTINGS_INDEX@[12].0 == 4 && SETTINGS_INDEX@[12].1@ == "Interface size"@,
        SETTINGS_INDEX@[12].2@
            == "scale, zoom, bigger text, smaller, ui scale"@,
        SETTINGS_INDEX@[13].0 == 4 && SETTINGS_INDEX@[13].1@ == "Startup section"@,
        SETTINGS_INDEX@[13].2@
            == "which page opens first, landing page"@,
        SETTINGS_INDEX@[14].0 == 5 && SETTINGS_INDEX@[14].1@ == "Macros enabled"@,
        SETTINGS_INDEX@[14].2@
            == "master switch for macros, hotkeys"@,
        SETTINGS_INDEX@[15].0 == 5 && SETTINGS_INDEX@[15].1@ == "Only when Roblox is focused"@,
        SETTINGS_INDEX@[15].2@
            == "macro safety, focus gate, background"@,
        SETTINGS_INDEX@[16].0 == 5 && SETTINGS_INDEX@[16].1@ == "Panic key"@,
        SETTINGS_INDEX@[16].2@
            == "stop all macros, emergency stop, release freeze"@,
        SETTINGS_INDEX@[17].0 == 6 && SETTINGS_INDEX@[17].1@ == "Desktop shortcuts"@,
        SETTINGS_INDEX@[17].2@
            == "launch a game directly, icons, remove shortcut"@,
        SETTINGS_INDEX@[18].0 == 7 && SETTINGS_INDEX@[18].1@ == "Confirm destructive actions"@,
        SETTINGS_INDEX@[18].2@
            == "ask before deleting, confirmation dialog"@,
        SETTINGS_INDEX@[19].0 == 7 && SETTINGS_INDEX@[19].1@ == "Open Roblox links"@,
        SETTINGS_INDEX@[19].2@
            == "roblox:// handler, protocol, default app"@,
        SETTINGS_INDEX@[20].0 == 8 && SETTINGS_INDEX@[20].1@ == "Server list size"@,
        SETTINGS_INDEX@[20].2@
            == "how many servers to fetch, page size"@,
        SETTINGS_INDEX@[21].0 == 8 && SETTINGS_INDEX@[21].1@ == "Request timeout"@,
        SETTINGS_INDEX@[21].2@
            == "how long before giving up, network timeout"@,
        SETTINGS_INDEX@[22].0 == 8 && SETTINGS_INDEX@[22].1@ == "Presence refresh"@,
        SETTINGS_INDEX@[22].2@
            == "how often friends update, polling interval"@,
        SETTINGS_INDEX@[23].0 == 9 && SETTINGS_INDEX@[23].1@ == "FastFlags"@,
        SETTINGS_INDEX@[23].2@
            == "engine flags, fflags, presets, graphics tweaks"@,
        SETTINGS_INDEX@[24].0 == 9 && SETTINGS_INDEX@[24].1@ == "Graphics mode"@,
        SETTINGS_INDEX@[24].2@
            == "renderer, vulkan, opengl, optimisation"@,
        SETTINGS_INDEX@[25].0 == 10 && SETTINGS_INDEX@[25].1@ == "Thumbnail cache"@,
        SETTINGS_INDEX@[25].2@
            == "image memory, cache size"@,
        SETTINGS_INDEX@[26].0 == 10 && SETTINGS_INDEX@[26].1@ == "Verbose logging"@,
        SETTINGS_INDEX@[26].2@
            == "debug log, log file, diagnostics"@,
        SETTINGS_INDEX@[27].0 == 10 && SETTINGS_INDEX@[27].1@ == "Automatic updates"@,
        SETTINGS_INDEX@[27].2@
            == "check for updates, auto update, new version"@,
        SETTINGS_INDEX@[28].0 == 11 && SETTINGS_INDEX@[28].1@ == "Version"@,
        SETTINGS_INDEX@[28].2@
            == "about, build, release notes"@,
        SETTINGS_INDEX@[29].0 == 11 && SETTINGS_INDEX@[29].1@ == "Data folder"@,
        SETTINGS_INDEX@[29].2@
            == "where settings are stored, config location, log file"@,
        SETTINGS_INDEX@[30].0 == 12 && SETTINGS_INDEX@[30].1@ == "Delete playtime history"@,
        SETTINGS_INDEX@[30].2@
            == "erase sessions, reset graph, danger"@,
        SETTINGS_INDEX@[31].0 == 12 && SETTINGS_INDEX@[31].1@ == "Clear cached data"@,
        SETTINGS_INDEX@[31].2@
            == "thumbnails, usernames, flag list, danger"@,
        SETTINGS_INDEX@[32].0 == 12 && SETTINGS_INDEX@[32].1@ == "Delete all data"@,
        SETTINGS_INDEX@[32].2@
            == "factory reset, wipe everything, start over, danger"@,
{
}

/// The categories of the settings, in the order of the screen.
pub proof fn law_categories_of_settings()
    ensures
        SETTINGS_CATEGORIES@[0]@ == "Accounts"@,
        SETTINGS_CATEGORIES@[1]@ == "Playtime"@,
        SETTINGS_CATEGORIES@[2]@ == "Home"@,
        SETTINGS_CATEGORIES@[3]@ == "Notifications"@,
        SETTINGS_CATEGORIES@[4]@ == "Interface"@,
        SETTINGS_CATEGORIES@[5]@ == "Macros"@,
        SETTINGS_CATEGORIES@[6]@ == "Shortcuts"@,
        SETTINGS_CATEGORIES@[7]@ == "System"@,
        SETTINGS_CATEGORIES@[8]@ == "Network"@,
        SETTINGS_CATEGORIES@[9]@ == "Roblox client"@,
        SETTINGS_CATEGORIES@[10]@ == "Advanced"@,
        SETTINGS_CATEGORIES@[11]@ == "About"@,
        SETTINGS_CATEGORIES@[12]@ == "Danger zone"@,
{
}

proof fn lemma_hits(query: Seq<char>, n: nat, i: int)
    requires
        n <= SETTINGS,
    ensures
        hits(query, n).contains(i) <==> 0 <= i < n && answers(i, query),
        forall|a: int, b: int|
            0 <= a < b < hits(query, n).len() ==> #[trigger] hits(query, n)[a] < #[trigger] hits(
                query,
                n,
            )[b],
        forall|k: int| 0 <= k < hits(query, n).len() ==> 0 <= #[trigger] hits(query, n)[k] < n,
    decreases n,
{
    if n > 0 {
        let m = (n - 1) as nat;
        lemma_hits(query, m, i);
        let before = hits(query, m);
        let out = hits(query, n);
        if before.contains(i) {
            let k = choose|k: int| 0 <= k < before.len() && before[k] == i;
            assert(out[k] == i);
        }
        if answers(n - 1, query) {
            assert(out[before.len() as int] == n - 1);
        }
        if out.contains(i) && !before.contains(i) {
            let k = choose|k: int| 0 <= k < out.len() && out[k] == i;
            if k < before.len() {
                assert(before[k] == i);
            }
        }
        assert forall|a: int, b: int| 0 <= a < b < out.len() implies #[trigger] out[a]
            < #[trigger] out[b] by {
            if b < before.len() {
                assert(before[a] < before[b]);
            } else {
                assert(out[a] == before[a]);
            }
        }
        assert forall|k: int| 0 <= k < out.len() implies 0 <= #[trigger] out[k] < n by {
            if k < before.len() {
                assert(out[k] == before[k]);
            }
        }
    }
}

/// A setting is found exactly when every word of the query stands in its name or in
/// its description, in any case of the letters; what is found comes in the order of
/// the settings, and a query without words finds nothing.
pub proof fn law_what_a_query_finds(query: Seq<char>, i: int)
    requires
        0 <= i < 33,
    ensures
        trimmed(query).len() > 0 ==> (found(query).contains(i) <==> forall|k: int|
            0 <= k < words_of(trimmed(query)).len() ==> occurs(
                lowercase(SETTINGS_INDEX@[i].1@),
                lowercase(#[trigger] words_of(trimmed(query))[k]),
            ) || occurs(
                lowercase(SETTINGS_INDEX@[i].2@),
                lowercase(words_of(trimmed(query))[k]),
            )),
        trimmed(query).len() == 0 ==> found(query).len() == 0,
        forall|a: int, b: int|
            0 <= a < b < found(query).len() ==> #[trigger] found(query)[a] < #[trigger] found(
                query,
            )[b],
{
    lemma_hits(query, SETTINGS as nat, i);
    let words = words_of(trimmed(query));
    let low = low_words(query);
    assert(low.len() == words.len());
    assert(forall|k: int| 0 <= k < words.len() ==> #[trigger] low[k] == lowercase(words[k]));
    if trimmed(query).len() > 0 {
        if answers(i, query) {
            assert forall|k: int| 0 <= k < words.len() implies occurs(
                lowercase(SETTINGS_INDEX@[i].1@),
                lowercase(#[trigger] words[k]),
            ) || occurs(lowercase(SETTINGS_INDEX@[i].2@), lowercase(words[k])) by {
                assert(low[k] == lowercase(words[k]));
            }
        } else {
            let k = choose|k: int|
                0 <= k < low.len() && !(occurs(lowercase(SETTINGS_INDEX@[i].1@), #[trigger] low[k])
                    || occurs(lowercase(SETTINGS_INDEX@[i].2@), low[k]));
            assert(low[k] == lowercase(words[k]));
        }
    }
}

/// The row of a setting shows its name and its category, and leads there.
pub proof fn law_what_a_found_setting_shows(r: DetailItem, i: int)
    requires
        shows_setting(r, i),
    ensures
        r.name@ == SETTINGS_INDEX@[i].1@,
        r.subtitle@ == SETTINGS_CATEGORIES@[SETTINGS_INDEX@[i].0 as int]@,
        r.id@ == decimal_int(SETTINGS_INDEX@[i].0 as int),
        r.kind == SETTINGS_INDEX@[i].0,
{
}

} // verus!
