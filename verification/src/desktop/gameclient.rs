//! The page of the game's own settings and flags.

use crate::desktop::fflags::{documented, note_text, noted, opt_note, Flag};
use crate::json::{is_word, json_quote, quoted};
use crate::launcher::config::{
    inserted, is_canonical, is_document, json_kind, json_member, member, object_kind, plain,
};
use crate::launcher::sober::{
    refusal, set_config_key, setting_written, settings_doc, strip_comments,
};
use crate::launcher::Error;
use crate::order::{is_permutation, sorted_order, SortKey};
use crate::text::{
    contains_text, lowercase, occurs, same, text_le, to_lower, trim, trimmed,
};
use vstd::prelude::*;
use vstd::utf8::encode_utf8;

verus! {

/// The game's settings, as far as they are shown.
#[derive(Debug, Clone, Copy, PartialEq, Eq, Structural)]
pub struct ClientSettings {
    pub opengl: bool,
    pub hidpi: bool,
    pub gamemode: bool,
    pub close_on_leave: bool,
    pub discord: bool,
    pub region: bool,
    /// 0 is quality, 1 balanced, 2 performance.
    pub graphics: i32,
}

/// A setting that is switched on.
pub open spec fn is_on(doc: Seq<char>, key: Seq<char>) -> bool {
    member(doc, key) == Some("true"@)
}

fn flag(doc: &str, key: &str) -> (r: bool)
    ensures
        r == is_on(doc@, key@),
{
    match json_member(doc, key) {
        Some(v) => same(v.as_str(), "true"),
        None => false,
    }
}

/// The number of a graphics mode, by how it stands in the file.
pub open spec fn graphics_of(mode: Option<Seq<char>>) -> i32 {
    if mode == Some("\"quality\""@) {
        0
    } else if mode == Some("\"performance\""@) {
        2
    } else {
        1
    }
}

/// The settings that a document holds.
pub open spec fn settings_in(doc: Seq<char>) -> ClientSettings {
    ClientSettings {
        opengl: is_on(doc, "use_opengl"@),
        hidpi: is_on(doc, "enable_hidpi"@),
        gamemode: is_on(doc, "enable_gamemode"@),
        close_on_leave: is_on(doc, "close_on_leave"@),
        discord: is_on(doc, "discord_rpc_enabled"@),
        region: is_on(doc, "server_location_indicator_enabled"@),
        graphics: graphics_of(member(doc, "graphics_optimization_mode"@)),
    }
}

/// The settings in a file. Nothing where there is no file that can be read. They
/// are read anew each time: the game rewrites the file when it exits.
pub fn client_settings(config: Option<&str>) -> (r: Option<ClientSettings>)
    ensures
        r == (match config {
            Some(c) => {
                let doc = plain(c@);
                if object_kind(doc, Seq::empty()) is Some {
                    Some(settings_in(doc))
                } else {
                    None
                }
            },
            None => None,
        }),
{
    let top = "";
    proof {
        reveal_strlit("");
        assert(top@ =~= Seq::<char>::empty());
    }
    match config {
        Some(c) => {
            let doc = strip_comments(c);
            let d = doc.as_str();
            if json_kind(d, top).is_none() {
                return None;
            }
            let mode = json_member(d, "graphics_optimization_mode");
            let graphics: i32 = match mode {
                Some(m) => {
                    if same(m.as_str(), "\"quality\"") {
                        0
                    } else if same(m.as_str(), "\"performance\"") {
                        2
                    } else {
                        1
                    }
                },
                None => 1,
            };
            Some(
                ClientSettings {
                    opengl: flag(d, "use_opengl"),
                    hidpi: flag(d, "enable_hidpi"),
                    gamemode: flag(d, "enable_gamemode"),
                    close_on_leave: flag(d, "close_on_leave"),
                    discord: flag(d, "discord_rpc_enabled"),
                    region: flag(d, "server_location_indicator_enabled"),
                    graphics,
                },
            )
        },
        None => None,
    }
}

/// What a change of a setting comes to: the file to write, or why not.
pub open spec fn changed(
    r: crate::launcher::Result<String>,
    running: bool,
    has_home: bool,
    config: Option<&str>,
    key: Seq<char>,
    value: Seq<char>,
) -> bool {
    let doc = settings_doc(config);
    match r {
        Ok(t) => {
            &&& refusal(running, has_home) is None
            &&& is_document(doc)
            &&& inserted(doc, Seq::empty(), key, value) == Some(t@)
            &&& setting_written(doc, t@, key, value)
        },
        Err(Error::Launch(e)) => match refusal(running, has_home) {
            Some(words) => e@ == words,
            None => !is_document(doc) && e@ == "Sober's config is not an object"@,
        },
        Err(_) => false,
    }
}

/// Switch a setting on or off. It reads back so, and every other setting is as it
/// was.
pub fn set_client_flag(
    running: bool,
    has_home: bool,
    config: Option<&str>,
    key: &str,
    on: bool,
) -> (r: crate::launcher::Result<String>)
    ensures
        changed(r, running, has_home, config, key@, if on {
            "true"@
        } else {
            "false"@
        }),
{
    let value = if on {
        "true"
    } else {
        "false"
    };
    set_config_key(running, has_home, config, key, value)
}

/// The name of a graphics mode: the nearest there is.
pub open spec fn graphics_name(choice: i32) -> Seq<char> {
    if choice <= 0 {
        "quality"@
    } else if choice == 1 {
        "balanced"@
    } else {
        "performance"@
    }
}

proof fn lemma_graphics_words()
    ensures
        is_word("quality"@),
        is_word("balanced"@),
        is_word("performance"@),
        "\""@ + "quality"@ + "\""@ == "\"quality\""@,
        "\""@ + "performance"@ + "\""@ == "\"performance\""@,
        "\""@ + "balanced"@ + "\""@ != "\"quality\""@,
        "\""@ + "balanced"@ + "\""@ != "\"performance\""@,
        "\"quality\""@ != "\"performance\""@,
{
    reveal_strlit("\"");
    reveal_strlit("quality");
    reveal_strlit("balanced");
    reveal_strlit("performance");
    reveal_strlit("\"quality\"");
    reveal_strlit("\"performance\"");
    assert("\""@ + "quality"@ + "\""@ =~= "\"quality\""@);
    assert("\""@ + "performance"@ + "\""@ =~= "\"performance\""@);
    assert(("\""@ + "balanced"@ + "\""@)[1] == 'b');
    assert("\"quality\""@[1] == 'q');
    assert("\"performance\""@[1] == 'p');
}

/// Choose a graphics mode. It reads back so.
pub fn set_client_graphics(
    running: bool,
    has_home: bool,
    config: Option<&str>,
    choice: i32,
) -> (r: crate::launcher::Result<String>)
    ensures
        changed(
            r,
            running,
            has_home,
            config,
            "graphics_optimization_mode"@,
            quoted(graphics_name(choice)),
        ),
        r matches Ok(t) ==> settings_in(t@).graphics == (if choice < 0 {
            0
        } else if choice > 2 {
            2
        } else {
            choice as int
        }),
{
    let name = if choice <= 0 {
        "quality"
    } else if choice == 1 {
        "balanced"
    } else {
        "performance"
    };
    let value = json_quote(name);
    assert(is_canonical(value@));
    proof {
        lemma_graphics_words();
    }
    set_config_key(
        running,
        has_home,
        config,
        "graphics_optimization_mode",
        value.as_str(),
    )
}

/// A setting that was written is the one that is read, and every other is read as
/// before.
pub proof fn law_settings_read_back(
    doc: Seq<char>,
    t: Seq<char>,
    key: Seq<char>,
    value: Seq<char>,
    other: Seq<char>,
)
    requires
        setting_written(doc, t, key, value),
    ensures
        object_kind(plain(t), Seq::empty()) is Some,
        is_on(plain(t), key) == (value == "true"@),
        graphics_of(member(plain(t), key)) == graphics_of(Some(value)),
        other != key ==> is_on(plain(t), other) == is_on(doc, other),
        other != key ==> graphics_of(member(plain(t), other)) == graphics_of(member(doc, other)),
{
    lemma_graphics_words();
    assert(is_canonical("\"quality\""@)) by {
        assert(is_word("quality"@));
    }
    assert(is_canonical("\"performance\""@)) by {
        assert(is_word("performance"@));
    }
    assert(member(plain(t), key) == member(t, key));
    assert(member(plain(t), other) == member(t, other));
}

/// What is said after a setting was written, or was not: nothing where it was.
pub fn client_status(result: &crate::launcher::Result<()>) -> (r: String)
    ensures
        r@ == (match *result {
            Ok(_) => Seq::empty(),
            Err(e) => e.words(),
        }),
{
    match result {
        Ok(_) => {
            let nothing = String::new();
            assert(nothing@ =~= Seq::<char>::empty());
            nothing
        },
        Err(e) => e.message(),
    }
}

/// The value of a flag that is added: one without a value is switched on. An empty
/// one would take it out, which is not what adding means.
pub fn added_value(value: &str) -> (r: String)
    ensures
        r@ == (if trimmed(value@).len() == 0 { "true"@ } else { value@ }),
{
    if trim(value).as_str().is_empty() {
        "true".to_owned()
    } else {
        value.to_owned()
    }
}

/// A line of the list of flags.
pub struct FlagRow {
    pub name: String,
    pub default_value: String,
    pub note: String,
    pub set_value: String,
}

/// A line: the name, the default, the note and what it is set to.
pub type FlagLine = (Seq<char>, Seq<char>, Seq<char>, Seq<char>);

pub open spec fn flag_lines(rows: Seq<FlagRow>) -> Seq<FlagLine> {
    rows.map_values(|r: FlagRow| (r.name@, r.default_value@, r.note@, r.set_value@))
}

/// The first flag of a name in the catalogue.
pub open spec fn flag_named(catalog: Seq<Flag>, name: Seq<char>) -> Option<Flag>
    decreases catalog.len(),
{
    if catalog.len() == 0 {
        None
    } else if catalog[0].name@ == name {
        Some(catalog[0])
    } else {
        flag_named(catalog.skip(1), name)
    }
}

fn find_flag(catalog: &Vec<Flag>, name: &str) -> (r: Option<usize>)
    ensures
        match r {
            Some(i) => i < catalog.len() && flag_named(catalog@, name@) == Some(catalog@[i as int]),
            None => flag_named(catalog@, name@) is None,
        },
{
    let mut i: usize = 0;
    assert(catalog@.skip(0) =~= catalog@);
    while i < catalog.len()
        invariant
            i <= catalog.len(),
            flag_named(catalog@, name@) == flag_named(catalog@.skip(i as int), name@),
        decreases catalog.len() - i,
    {
        assert(catalog@.skip(i as int)[0] == catalog@[i as int]);
        assert(catalog@.skip(i as int).skip(1) =~= catalog@.skip(i as int + 1));
        if same(catalog[i].name.as_str(), name) {
            return Some(i);
        }
        i = i + 1;
    }
    None
}

pub open spec fn note_or_empty(n: Option<Seq<char>>) -> Seq<char> {
    match n {
        Some(t) => t,
        None => Seq::empty(),
    }
}

/// The default of a flag, where it is published.
pub open spec fn default_of(catalog: Seq<Flag>, name: Seq<char>) -> Seq<char> {
    match flag_named(catalog, name) {
        Some(f) => f.default@,
        None => Seq::empty(),
    }
}

/// The note on a flag: that of the catalogue, or else our own.
pub open spec fn note_for(catalog: Seq<Flag>, name: Seq<char>) -> Seq<char> {
    match flag_named(catalog, name) {
        Some(f) => match f.note {
            Some(t) => t@,
            None => note_or_empty(note_text(name)),
        },
        None => note_or_empty(note_text(name)),
    }
}

fn note_or_none(n: Option<&'static str>) -> (r: String)
    ensures
        r@ == note_or_empty(opt_note(n)),
{
    match n {
        Some(t) => t.to_owned(),
        None => {
            let r = String::new();
            assert(r@ =~= Seq::<char>::empty());
            r
        },
    }
}

fn describe(catalog: &Vec<Flag>, name: &str) -> (r: (String, String))
    ensures
        r.0@ == default_of(catalog@, name@),
        r.1@ == note_for(catalog@, name@),
{
    match find_flag(catalog, name) {
        Some(i) => {
            let note = match catalog[i].note {
                Some(t) => t.to_owned(),
                None => note_or_none(crate::desktop::fflags::note_of(name)),
            };
            (catalog[i].default.clone(), note)
        },
        None => {
            let none = String::new();
            assert(none@ =~= Seq::<char>::empty());
            (none, note_or_none(crate::desktop::fflags::note_of(name)))
        },
    }
}

/// The line of a flag that is set.
pub open spec fn set_line(catalog: Seq<Flag>, f: (String, String)) -> FlagLine {
    (f.0@, default_of(catalog, f.0@), note_for(catalog, f.0@), f.1@)
}

/// The flags that are set, by name, equals in the order they had.
pub open spec fn by_name(order: Seq<usize>, set: Seq<(String, String)>) -> bool {
    &&& is_permutation(order, set.len())
    &&& forall|i: int, j: int|
        0 <= i < j < order.len() ==> {
            let a = set[(#[trigger] order[i]) as int].0@;
            let b = set[(#[trigger] order[j]) as int].0@;
            text_le(a, b) && (text_le(b, a) ==> order[i] < order[j])
        }
}

pub open spec fn set_lines(
    set: Seq<(String, String)>,
    order: Seq<usize>,
    catalog: Seq<Flag>,
) -> Seq<FlagLine> {
    order.map_values(|i: usize| set_line(catalog, set[i as int]))
}

/// There is a line of this name.
pub open spec fn names_flag(rows: Seq<FlagLine>, name: Seq<char>) -> bool {
    exists|i: int| 0 <= i < rows.len() && (#[trigger] rows[i]).0 == name
}

/// What was typed is long enough to search by, in bytes.
pub open spec fn is_search(needle: Seq<char>) -> bool {
    encode_utf8(needle).len() >= 2
}

pub open spec fn flag_matches(name: Seq<char>, needle: Seq<char>) -> bool {
    occurs(lowercase(name), needle)
}

/// The lines with the first `n` documented flags behind them: those that are not
/// there yet, and that match.
pub open spec fn with_documented(
    rows: Seq<FlagLine>,
    catalog: Seq<Flag>,
    needle: Seq<char>,
    n: nat,
) -> Seq<FlagLine>
    decreases n,
{
    if n == 0 {
        rows
    } else {
        let before = with_documented(rows, catalog, needle, (n - 1) as nat);
        let name = noted(n - 1);
        if names_flag(before, name) || (is_search(needle) && !flag_matches(name, needle)) {
            before
        } else {
            before.push(
                (name, default_of(catalog, name), note_or_empty(note_text(name)), Seq::empty()),
            )
        }
    }
}

/// How many flags of the catalogue are shown.
pub const MOST_FLAGS: usize = 200;

/// The lines of the first `n` flags of the catalogue that match and are not among
/// `rows`, no more than so many.
pub open spec fn published(
    rows: Seq<FlagLine>,
    catalog: Seq<Flag>,
    needle: Seq<char>,
    n: nat,
) -> Seq<FlagLine>
    decreases n,
{
    if n == 0 {
        Seq::empty()
    } else {
        let before = published(rows, catalog, needle, (n - 1) as nat);
        let f = catalog[n - 1];
        if before.len() < MOST_FLAGS && !names_flag(rows, f.name@) && flag_matches(
            f.name@,
            needle,
        ) {
            before.push((f.name@, f.default@, note_or_empty(opt_note(f.note)), Seq::empty()))
        } else {
            before
        }
    }
}

/// The whole list.
pub open spec fn all_lines(
    set: Seq<(String, String)>,
    order: Seq<usize>,
    catalog: Seq<Flag>,
    filter: Seq<char>,
) -> Seq<FlagLine> {
    let needle = lowercase(filter);
    let known = with_documented(set_lines(set, order, catalog), catalog, needle, 8);
    if is_search(needle) {
        known + published(known, catalog, needle, catalog.len())
    } else {
        known
    }
}

fn is_row(rows: &Vec<FlagRow>, upto: usize, name: &str) -> (r: bool)
    requires
        upto <= rows.len(),
    ensures
        r == names_flag(flag_lines(rows@).take(upto as int), name@),
{
    let ghost shown = flag_lines(rows@).take(upto as int);
    let mut i: usize = 0;
    while i < upto
        invariant
            i <= upto <= rows.len(),
            shown == flag_lines(rows@).take(upto as int),
            forall|k: int| 0 <= k < i ==> (#[trigger] shown[k]).0 != name@,
        decreases upto - i,
    {
        if same(rows[i].name.as_str(), name) {
            assert(shown[i as int].0 == name@);
            return true;
        }
        i = i + 1;
    }
    false
}

fn name_order(set: &Vec<(String, String)>) -> (order: Vec<usize>)
    ensures
        by_name(order@, set@),
{
    let mut keys: Vec<SortKey> = Vec::new();
    let mut i: usize = 0;
    while i < set.len()
        invariant
            i <= set.len(),
            keys.len() == i,
            forall|k: int|
                0 <= k < i ==> (#[trigger] keys@[k]).name@ == set@[k].0@ && keys@[k].first == 0
                    && keys@[k].second == 0,
        decreases set.len() - i,
    {
        keys.push(SortKey { first: 0, second: 0, name: set[i].0.clone() });
        i = i + 1;
    }
    let order = sorted_order(&keys);
    proof {
        assert forall|i: int, j: int| 0 <= i < j < order.len() implies {
            let a = set@[(#[trigger] order@[i]) as int].0@;
            let b = set@[(#[trigger] order@[j]) as int].0@;
            text_le(a, b) && (text_le(b, a) ==> order@[i] < order@[j])
        } by {
            let x = order@[i];
            let y = order@[j];
            assert(crate::order::precedes(keys@, x, y));
            assert(keys@[x as int].name@ == set@[x as int].0@);
            assert(keys@[y as int].name@ == set@[y as int].0@);
        }
    }
    order
}

fn push_row(rows: &mut Vec<FlagRow>, name: String, default_value: String, note: String, set_value: String)
    ensures
        flag_lines(final(rows)@) == flag_lines(old(rows)@).push(
            (name@, default_value@, note@, set_value@),
        ),
{
    let ghost line = (name@, default_value@, note@, set_value@);
    let ghost before = rows@;
    rows.push(FlagRow { name, default_value, note, set_value });
    assert(flag_lines(rows@) =~= flag_lines(before).push(line));
}

/// The flags that are set, whatever is searched for: hiding one that is in effect
/// would mislead.
fn push_set(
    rows: &mut Vec<FlagRow>,
    set: &Vec<(String, String)>,
    order: &Vec<usize>,
    catalog: &Vec<Flag>,
)
    requires
        old(rows).len() == 0,
        by_name(order@, set@),
    ensures
        flag_lines(final(rows)@) == set_lines(set@, order@, catalog@),
{
    let ghost all = set_lines(set@, order@, catalog@);
    let mut i: usize = 0;
    assert(flag_lines(rows@) =~= all.take(0));
    while i < order.len()
        invariant
            i <= order.len(),
            by_name(order@, set@),
            all == set_lines(set@, order@, catalog@),
            flag_lines(rows@) == all.take(i as int),
        decreases order.len() - i,
    {
        let f = &set[order[i]];
        let (default_value, note) = describe(catalog, f.0.as_str());
        push_row(rows, f.0.clone(), default_value, note, f.1.clone());
        assert(all.take(i as int + 1) =~= all.take(i as int).push(all[i as int]));
        i = i + 1;
    }
    assert(all.take(all.len() as int) =~= all);
}

fn push_documented(rows: &mut Vec<FlagRow>, catalog: &Vec<Flag>, needle: &str, searching: bool)
    requires
        searching == is_search(needle@),
    ensures
        flag_lines(final(rows)@) == with_documented(flag_lines(old(rows)@), catalog@, needle@, 8),
{
    let ghost first = flag_lines(rows@);
    let known = documented();
    let mut i: usize = 0;
    while i < 8
        invariant
            i <= 8,
            known.len() == 8,
            searching == is_search(needle@),
            forall|k: int|
                0 <= k < 8 ==> (#[trigger] known@[k]).name@ == noted(k) && opt_note(known@[k].note)
                    == note_text(noted(k)),
            flag_lines(rows@) == with_documented(first, catalog@, needle@, i as nat),
        decreases 8 - i,
    {
        let f = &known[i];
        let n: usize = rows.len();
        assert(flag_lines(rows@).take(n as int) =~= flag_lines(rows@));
        let skip = is_row(rows, n, f.name.as_str()) || (searching && !contains_text(
            to_lower(f.name.as_str()).as_str(),
            needle,
        ));
        if !skip {
            let (default_value, _) = describe(catalog, f.name.as_str());
            let none = String::new();
            assert(none@ =~= Seq::<char>::empty());
            push_row(rows, f.name.clone(), default_value, note_or_none(f.note), none);
        }
        i = i + 1;
    }
}

fn push_published(rows: &mut Vec<FlagRow>, catalog: &Vec<Flag>, needle: &str)
    ensures
        flag_lines(final(rows)@) == flag_lines(old(rows)@) + published(
            flag_lines(old(rows)@),
            catalog@,
            needle@,
            catalog@.len(),
        ),
{
    let ghost known = flag_lines(rows@);
    let shown: usize = rows.len();
    let mut count: usize = 0;
    let mut i: usize = 0;
    assert(flag_lines(rows@) =~= known + published(known, catalog@, needle@, 0));
    while i < catalog.len()
        invariant
            i <= catalog.len(),
            shown == known.len(),
            count <= MOST_FLAGS,
            count == published(known, catalog@, needle@, i as nat).len(),
            flag_lines(rows@) == known + published(known, catalog@, needle@, i as nat),
        decreases catalog.len() - i,
    {
        let f = &catalog[i];
        let ghost before = published(known, catalog@, needle@, i as nat);
        assert(flag_lines(rows@).len() == rows.len());
        assert(flag_lines(rows@).take(shown as int) =~= known);
        if count < MOST_FLAGS && !is_row(rows, shown, f.name.as_str()) && contains_text(
            to_lower(f.name.as_str()).as_str(),
            needle,
        ) {
            let none = String::new();
            assert(none@ =~= Seq::<char>::empty());
            push_row(rows, f.name.clone(), f.default.clone(), note_or_none(f.note), none);
            count = count + 1;
            assert(flag_lines(rows@) =~= known + before.push(
                (f.name@, f.default@, note_or_empty(opt_note(f.note)), Seq::empty()),
            ));
        }
        i = i + 1;
    }
}

/// The list of flags for what is typed into its search. First those that are set,
/// by name; then the documented ones, which are mostly not published; and the
/// catalogue only where something is searched for: so many internal flags are
/// nothing to browse.
pub fn render_flag_rows(set: &Vec<(String, String)>, catalog: &Vec<Flag>, filter: &str) -> (rows: Vec<
    FlagRow,
>)
    ensures
        exists|order: Seq<usize>| #[trigger]
            by_name(order, set@) && flag_lines(rows@) == all_lines(
                set@,
                order,
                catalog@,
                filter@,
            ),
{
    let needle = to_lower(filter);
    let searching = needle.as_str().as_bytes().len() >= 2;
    let order = name_order(set);
    let mut rows: Vec<FlagRow> = Vec::new();
    push_set(&mut rows, set, &order, catalog);
    push_documented(&mut rows, catalog, needle.as_str(), searching);
    if searching {
        push_published(&mut rows, catalog, needle.as_str());
    }
    assert(by_name(order@, set@));
    rows
}

proof fn lemma_with_documented(
    rows: Seq<FlagLine>,
    catalog: Seq<Flag>,
    needle: Seq<char>,
    n: nat,
)
    ensures
        rows.is_prefix_of(with_documented(rows, catalog, needle, n)),
    decreases n,
{
    if n > 0 {
        lemma_with_documented(rows, catalog, needle, (n - 1) as nat);
    }
}

/// Whatever is searched for, the flags that are set stand at the head of the list,
/// with what they are set to.
pub proof fn law_flags_in_effect_are_never_hidden(
    set: Seq<(String, String)>,
    order: Seq<usize>,
    catalog: Seq<Flag>,
    filter: Seq<char>,
    k: int,
)
    requires
        by_name(order, set),
        0 <= k < set.len() <= usize::MAX,
    ensures
        exists|i: int|
            0 <= i < set.len() && i < all_lines(set, order, catalog, filter).len() && (
            #[trigger] all_lines(set, order, catalog, filter)[i]) == set_line(catalog, set[k]),
{
    let lines = set_lines(set, order, catalog);
    let needle = lowercase(filter);
    lemma_with_documented(lines, catalog, needle, 8);
    crate::order::lemma_permutation_hits(order, set.len(), k as usize);
    let i = choose|i: int| 0 <= i < order.len() && order[i] == k as usize;
    assert(lines[i] == set_line(catalog, set[k]));
    let known = with_documented(lines, catalog, needle, 8);
    assert(known[i] == lines[i]);
    assert(all_lines(set, order, catalog, filter)[i] == known[i]);
}

/// Under which names the file keeps the settings that are shown, and that a setting is
/// on where the file says `true`.
pub proof fn law_where_settings_are_kept(doc: Seq<char>)
    ensures
        settings_in(doc).opengl <==> member(doc, "use_opengl"@) == Some("true"@),
        settings_in(doc).hidpi <==> member(doc, "enable_hidpi"@) == Some("true"@),
        settings_in(doc).gamemode <==> member(doc, "enable_gamemode"@) == Some("true"@),
        settings_in(doc).close_on_leave <==> member(doc, "close_on_leave"@) == Some("true"@),
        settings_in(doc).discord <==> member(doc, "discord_rpc_enabled"@) == Some("true"@),
        settings_in(doc).region <==> member(doc, "server_location_indicator_enabled"@) == Some(
            "true"@,
        ),
        member(doc, "graphics_optimization_mode"@) == Some("\"quality\""@) ==> settings_in(
            doc,
        ).graphics == 0,
        member(doc, "graphics_optimization_mode"@) == Some("\"performance\""@) ==> settings_in(
            doc,
        ).graphics == 2,
        member(doc, "graphics_optimization_mode"@) != Some("\"quality\""@) && member(
            doc,
            "graphics_optimization_mode"@,
        ) != Some("\"performance\""@) ==> settings_in(doc).graphics == 1,
{
    lemma_graphics_words();
}

/// The names of the graphics modes, and that a choice past the ends is the nearest.
pub proof fn law_names_of_graphics_modes(choice: i32)
    ensures
        choice <= 0 ==> graphics_name(choice) == "quality"@,
        choice == 1 ==> graphics_name(choice) == "balanced"@,
        choice >= 2 ==> graphics_name(choice) == "performance"@,
{
}

/// A change that was made is in the file; one that was not says why, and it is made
/// exactly where the game does not run and the file can be changed.
pub proof fn law_when_a_setting_changes(
    r: crate::launcher::Result<String>,
    running: bool,
    has_home: bool,
    config: Option<&str>,
    key: Seq<char>,
    value: Seq<char>,
)
    requires
        changed(r, running, has_home, config, key, value),
    ensures
        r is Ok <==> !running && has_home && is_document(settings_doc(config)),
        r matches Ok(t) ==> member(t@, key) == Some(value),
        running ==> (r matches Err(Error::Launch(e)) && e@
            == "close Roblox first — Sober overwrites its settings when it exits"@),
        !running && !has_home ==> (r matches Err(Error::Launch(e)) && e@ == "no HOME set"@),
        !running && has_home && !is_document(settings_doc(config)) ==> (r matches Err(
            Error::Launch(e),
        ) && e@ == "Sober's config is not an object"@),
{
}

proof fn lemma_flag_named(catalog: Seq<Flag>, name: Seq<char>, k: int)
    requires
        0 <= k <= catalog.len(),
        forall|j: int| 0 <= j < k ==> (#[trigger] catalog[j]).name@ != name,
        k < catalog.len() ==> catalog[k].name@ == name,
    ensures
        flag_named(catalog, name) == (if k < catalog.len() {
            Some(catalog[k])
        } else {
            None
        }),
    decreases k,
{
    if k > 0 {
        assert(catalog[0].name@ != name);
        assert forall|j: int| 0 <= j < k - 1 implies (#[trigger] catalog.skip(1)[j]).name@
            != name by {
            assert(catalog.skip(1)[j] == catalog[j + 1]);
        }
        if k < catalog.len() {
            assert(catalog.skip(1)[k - 1] == catalog[k]);
        }
        lemma_flag_named(catalog.skip(1), name, k - 1);
    }
}

/// The line of a flag that is set shows its name, the default that is published, what
/// is known of it, and what it is set to.
pub proof fn law_what_the_line_of_a_set_flag_shows(
    catalog: Seq<Flag>,
    f: (String, String),
    k: int,
)
    requires
        0 <= k <= catalog.len(),
        forall|j: int| 0 <= j < k ==> (#[trigger] catalog[j]).name@ != f.0@,
        k < catalog.len() ==> catalog[k].name@ == f.0@,
    ensures
        set_line(catalog, f).0 == f.0@,
        set_line(catalog, f).3 == f.1@,
        k < catalog.len() ==> set_line(catalog, f).1 == catalog[k].default@,
        k == catalog.len() ==> set_line(catalog, f).1.len() == 0,
        k < catalog.len() ==> (catalog[k].note matches Some(t) ==> set_line(catalog, f).2 == t@),
        (k == catalog.len() || catalog[k].note is None) ==> (match note_text(f.0@) {
            Some(t) => set_line(catalog, f).2 == t,
            None => set_line(catalog, f).2.len() == 0,
        }),
{
    lemma_flag_named(catalog, f.0@, k);
}

proof fn lemma_documented_lines(
    rows: Seq<FlagLine>,
    catalog: Seq<Flag>,
    needle: Seq<char>,
    n: nat,
    i: int,
)
    requires
        n <= 8,
        0 <= i < n,
        !is_search(needle) || flag_matches(noted(i), needle),
    ensures
        names_flag(with_documented(rows, catalog, needle, n), noted(i)),
    decreases n,
{
    let m = (n - 1) as nat;
    let before = with_documented(rows, catalog, needle, m);
    let out = with_documented(rows, catalog, needle, n);
    if i < m {
        lemma_documented_lines(rows, catalog, needle, m, i);
        let k = choose|k: int| 0 <= k < before.len() && (#[trigger] before[k]).0 == noted(i);
        assert(out[k] == before[k]);
    } else if !names_flag(before, noted(i)) {
        assert(out[before.len() as int].0 == noted(i));
    }
}

/// The documented flags are listed unless a search leaves them out, and a search is
/// one from two bytes on.
pub proof fn law_documented_flags_are_listed(
    set: Seq<(String, String)>,
    order: Seq<usize>,
    catalog: Seq<Flag>,
    filter: Seq<char>,
    i: int,
)
    requires
        0 <= i < 8,
        encode_utf8(lowercase(filter)).len() < 2 || occurs(lowercase(noted(i)), lowercase(filter)),
    ensures
        names_flag(all_lines(set, order, catalog, filter), noted(i)),
{
    let needle = lowercase(filter);
    let rows = set_lines(set, order, catalog);
    let known = with_documented(rows, catalog, needle, 8);
    lemma_documented_lines(rows, catalog, needle, 8, i);
    let k = choose|k: int| 0 <= k < known.len() && (#[trigger] known[k]).0 == noted(i);
    assert(all_lines(set, order, catalog, filter)[k] == known[k]);
}

proof fn lemma_published(
    rows: Seq<FlagLine>,
    catalog: Seq<Flag>,
    needle: Seq<char>,
    n: nat,
)
    requires
        n <= catalog.len(),
    ensures
        ({
            let out = published(rows, catalog, needle, n);
            &&& out.len() <= 200
            &&& forall|i: int|
                0 <= i < out.len() ==> occurs(lowercase((#[trigger] out[i]).0), needle)
                    && !names_flag(rows, out[i].0) && out[i].3.len() == 0
            &&& out.len() < 200 ==> forall|k: int|
                0 <= k < n && occurs(lowercase((#[trigger] catalog[k]).name@), needle)
                    && !names_flag(rows, catalog[k].name@) ==> names_flag(out, catalog[k].name@)
        }),
    decreases n,
{
    if n > 0 {
        let m = (n - 1) as nat;
        lemma_published(rows, catalog, needle, m);
        let before = published(rows, catalog, needle, m);
        let out = published(rows, catalog, needle, n);
        assert forall|i: int| 0 <= i < out.len() implies occurs(
            lowercase((#[trigger] out[i]).0),
            needle,
        ) && !names_flag(rows, out[i].0) && out[i].3.len() == 0 by {
            if i < before.len() {
                assert(out[i] == before[i]);
            }
        }
        if out.len() < 200 {
            assert forall|k: int|
                0 <= k < n && occurs(lowercase((#[trigger] catalog[k]).name@), needle)
                    && !names_flag(rows, catalog[k].name@) implies names_flag(
                out,
                catalog[k].name@,
            ) by {
                if k < m {
                    assert(names_flag(before, catalog[k].name@));
                    let i = choose|i: int|
                        0 <= i < before.len() && (#[trigger] before[i]).0 == catalog[k].name@;
                    assert(out[i] == before[i]);
                } else {
                    assert(out[before.len() as int].0 == catalog[k].name@);
                }
            }
        }
    }
}

/// A search adds the published flags whose names hold what is looked for, two hundred
/// at most and none that is listed already, and without one there are none of them.
pub proof fn law_what_a_search_adds(
    set: Seq<(String, String)>,
    order: Seq<usize>,
    catalog: Seq<Flag>,
    filter: Seq<char>,
)
    ensures
        ({
            let needle = lowercase(filter);
            let known = with_documented(set_lines(set, order, catalog), catalog, needle, 8);
            let all = all_lines(set, order, catalog, filter);
            let more = published(known, catalog, needle, catalog.len());
            &&& encode_utf8(needle).len() < 2 ==> all == known
            &&& encode_utf8(needle).len() >= 2 ==> all == known + more
            &&& more.len() <= 200
            &&& forall|i: int|
                0 <= i < more.len() ==> occurs(lowercase((#[trigger] more[i]).0), needle)
                    && !names_flag(known, more[i].0)
            &&& more.len() < 200 ==> forall|k: int|
                0 <= k < catalog.len() && occurs(lowercase((#[trigger] catalog[k]).name@), needle)
                    && !names_flag(known, catalog[k].name@) ==> names_flag(more, catalog[k].name@)
        }),
{
    let needle = lowercase(filter);
    let known = with_documented(set_lines(set, order, catalog), catalog, needle, 8);
    lemma_published(known, catalog, needle, catalog.len());
}

/// The flags that are set are listed by name, each of them once.
pub proof fn law_set_flags_are_listed_by_name(
    set: Seq<(String, String)>,
    order: Seq<usize>,
    catalog: Seq<Flag>,
    i: int,
    j: int,
)
    requires
        by_name(order, set),
        0 <= i < j < set.len(),
    ensures
        set_lines(set, order, catalog).len() == set.len(),
        text_le(set_lines(set, order, catalog)[i].0, set_lines(set, order, catalog)[j].0),
        order[i] != order[j],
{
    assert(order[i] != order[j]);
}

} // verus!
