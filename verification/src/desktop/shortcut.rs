//! Shortcuts on the desktop that launch straight into a place.
//!
//! An entry runs this program with a `roblox://` link. The shortcuts that exist
//! are found by their contents, so one that the user deleted by hand is gone
//! here too.

use crate::number::{
    decimal_int, int_text, law_decimal_reads_back, lemma_decimal_shape, parse_i64_chars, read_i64,
};
use crate::order::{rearranged, sorted_order, SortKey};
use crate::roblox::search::{leading_digits, piece_after, second_piece};
use crate::text::{
    cat2, cat3, cat4, cat5, chars_of, find_first, is_alnum, is_alnum_spec, is_digit, is_digit_spec,
    lemma_find_from, lemma_line_head, lines_of, lowercase, occurs, occurs_at, opt_text, range_text,
    starts_with, starts_with_spec, text_le, text_lines, texts, to_lower, trim, trim_chars, trim_end,
    trim_start, trimmed, without_return,
};
use vstd::prelude::*;
use vstd::string::*;

verus! {

/// A name with every run of other characters than ASCII letters and digits made
/// into one dash.
pub open spec fn dashed(s: Seq<char>) -> Seq<char>
    decreases s.len(),
{
    if s.len() == 0 {
        Seq::empty()
    } else {
        let before = dashed(s.drop_last());
        if is_alnum_spec(s.last()) {
            before.push(s.last())
        } else if before.len() > 0 && before.last() == '-' {
            before
        } else {
            before.push('-')
        }
    }
}

/// The text without the dash at its start.
pub open spec fn undash_start(s: Seq<char>) -> Seq<char>
    decreases s.len(),
{
    if s.len() > 0 && s[0] == '-' {
        undash_start(s.skip(1))
    } else {
        s
    }
}

/// The text without the dash at its end.
pub open spec fn undash_end(s: Seq<char>) -> Seq<char>
    decreases s.len(),
{
    if s.len() > 0 && s.last() == '-' {
        undash_end(s.drop_last())
    } else {
        s
    }
}

/// No file name is longer than this.
pub const STEM_LEN: usize = 48;

/// What a game's name becomes as a file name.
pub open spec fn stem(name: Seq<char>) -> Seq<char> {
    let t = undash_end(undash_start(dashed(name)));
    if t.len() == 0 {
        "game"@
    } else if t.len() > STEM_LEN {
        t.take(STEM_LEN as int)
    } else {
        t
    }
}

/// Reduce a name to what is safe in a file name. Names of games are text from
/// elsewhere.
pub fn safe_stem(name: &str) -> (r: String)
    ensures
        r@ == stem(name@),
{
    let v = chars_of(name);
    let mut cleaned: Vec<char> = Vec::new();
    let mut i: usize = 0;
    assert(v@.take(0) =~= Seq::<char>::empty());
    while i < v.len()
        invariant
            i <= v.len(),
            cleaned@ == dashed(v@.take(i as int)),
        decreases v.len() - i,
    {
        assert(v@.take(i as int + 1).drop_last() =~= v@.take(i as int));
        let c = v[i];
        if is_alnum(c) {
            cleaned.push(c);
        } else if !(cleaned.len() > 0 && cleaned[cleaned.len() - 1] == '-') {
            cleaned.push('-');
        }
        i = i + 1;
    }
    assert(v@.take(v@.len() as int) =~= v@);
    let mut a: usize = 0;
    assert(cleaned@.skip(0) =~= cleaned@);
    while a < cleaned.len() && cleaned[a] == '-'
        invariant
            a <= cleaned.len(),
            undash_start(cleaned@) == undash_start(cleaned@.skip(a as int)),
        decreases cleaned.len() - a,
    {
        assert(cleaned@.skip(a as int).skip(1) =~= cleaned@.skip(a as int + 1));
        a = a + 1;
    }
    let ghost t = cleaned@.skip(a as int);
    assert(undash_start(cleaned@) == t);
    let mut b: usize = cleaned.len();
    assert(cleaned@.subrange(a as int, b as int) =~= t);
    while b > a && cleaned[b - 1] == '-'
        invariant
            a <= b <= cleaned.len(),
            undash_end(t) == undash_end(cleaned@.subrange(a as int, b as int)),
        decreases b,
    {
        let ghost cur = cleaned@.subrange(a as int, b as int);
        assert(cur.last() == cleaned@[b - 1]);
        assert(cur.drop_last() =~= cleaned@.subrange(a as int, b - 1));
        b = b - 1;
    }
    proof {
        let cur = cleaned@.subrange(a as int, b as int);
        if b > a {
            assert(cur.last() == cleaned@[b - 1]);
        }
        assert(undash_end(t) == cur);
    }
    if a == b {
        return "game".to_owned();
    }
    let end: usize = if b - a > STEM_LEN {
        a + STEM_LEN
    } else {
        b
    };
    let r = range_text(&cleaned, a, end);
    assert(r@ =~= stem(name@));
    r
}

proof fn lemma_dashed_alphabet(s: Seq<char>, i: int)
    requires
        0 <= i < dashed(s).len(),
    ensures
        is_alnum_spec(dashed(s)[i]) || dashed(s)[i] == '-',
    decreases s.len(),
{
    let before = dashed(s.drop_last());
    if i < before.len() {
        lemma_dashed_alphabet(s.drop_last(), i);
    }
}

proof fn lemma_dashes_are_apart(s: Seq<char>, i: int)
    requires
        0 <= i < dashed(s).len() - 1,
    ensures
        dashed(s)[i] != '-' || dashed(s)[i + 1] != '-',
    decreases s.len(),
{
    let before = dashed(s.drop_last());
    if i < before.len() - 1 {
        lemma_dashes_are_apart(s.drop_last(), i);
    }
}

proof fn lemma_undash_start(s: Seq<char>)
    ensures
        undash_start(s).len() > 0 ==> undash_start(s)[0] != '-',
        undash_start(s).len() <= s.len(),
        undash_start(s) == s.skip(s.len() - undash_start(s).len()),
    decreases s.len(),
{
    if s.len() > 0 && s[0] == '-' {
        lemma_undash_start(s.skip(1));
        let n = undash_start(s).len();
        assert(s.skip(1).skip(s.len() - 1 - n) =~= s.skip(s.len() - n));
    } else {
        assert(s.skip(0) =~= s);
    }
}

proof fn lemma_undash_end(s: Seq<char>)
    ensures
        undash_end(s).len() <= s.len(),
        undash_end(s) == s.take(undash_end(s).len() as int),
    decreases s.len(),
{
    if s.len() > 0 && s.last() == '-' {
        lemma_undash_end(s.drop_last());
        let n = undash_end(s).len() as int;
        assert(s.drop_last().take(n) =~= s.take(n));
    } else {
        assert(s.take(s.len() as int) =~= s);
    }
}

/// A file name is never empty, never too long, and holds letters, digits and
/// dashes alone: whatever a game calls itself, it cannot leave the directory. It
/// does not start with a dash, and no two dashes meet in it.
pub proof fn law_stems_are_safe(name: Seq<char>, i: int)
    ensures
        0 < stem(name).len() <= STEM_LEN,
        stem(name)[0] != '-',
        0 <= i < stem(name).len() - 1 ==> stem(name)[i] != '-' || stem(name)[i + 1] != '-',
        0 <= i < stem(name).len() ==> is_alnum_spec(stem(name)[i]) || stem(name)[i] == '-',
{
    reveal_strlit("game");
    let d = dashed(name);
    let a = undash_start(d);
    let t = undash_end(a);
    lemma_undash_start(d);
    lemma_undash_end(a);
    if t.len() > 0 && 0 <= i < stem(name).len() {
        let k = i + d.len() - a.len();
        assert(stem(name)[i] == t[i]);
        assert(t[i] == a[i]);
        assert(a[i] == d[k]);
        lemma_dashed_alphabet(name, k);
        if i + 1 < stem(name).len() {
            assert(stem(name)[i + 1] == t[i + 1]);
            assert(t[i + 1] == a[i + 1]);
            assert(a[i + 1] == d[k + 1]);
            lemma_dashes_are_apart(name, k);
        }
    }
    if t.len() > 0 {
        assert(stem(name)[0] == t[0]);
        assert(t[0] == a[0]);
    }
}

/// A shortcut this program put on the desktop.
pub struct Entry {
    pub place_id: i64,
    pub name: String,
    pub path: String,
}

/// A picture too small to be one is not written as an icon.
pub fn is_icon(len: usize) -> (r: bool)
    ensures
        r == (len >= 100),
{
    len >= 100
}

/// The file of a place's icon.
pub fn icon_name(place_id: i64) -> (r: String)
    ensures
        r@ == decimal_int(place_id as int) + ".png"@,
{
    cat2(int_text(place_id).as_str(), ".png")
}

/// The file of a shortcut.
pub fn file_name(name: &str, place_id: i64) -> (r: String)
    ensures
        r@ == stem(name@) + "-"@ + decimal_int(place_id as int) + ".desktop"@,
{
    cat4(safe_stem(name).as_str(), "-", int_text(place_id).as_str(), ".desktop")
}

/// The file of a shortcut on Windows.
pub fn link_name(name: &str) -> (r: String)
    ensures
        r@ == stem(name@) + ".lnk"@,
{
    cat2(safe_stem(name).as_str(), ".lnk")
}

/// The line that names the icon, where there is one.
pub open spec fn icon_line(icon: Option<String>) -> Seq<char> {
    match icon {
        Some(p) => "Icon="@ + p@ + "\n"@,
        None => Seq::empty(),
    }
}

/// A shortcut's contents. The program is quoted: an unquoted path with a space
/// would fail when it is clicked.
pub open spec fn shortcut_text(
    exe: Seq<char>,
    name: Seq<char>,
    place_id: i64,
    icon: Option<String>,
) -> Seq<char> {
    "[Desktop Entry]\nType=Application\nName="@ + name + "\nExec=\""@ + exe
        + "\" roblox://experiences/start?placeId="@ + (decimal_int(place_id as int) + "\n"@
        + icon_line(icon) + "Terminal=false\nCategories=Game;\nStartupNotify=true\n"@)
}

/// A shortcut's contents.
pub fn create(exe: &str, name: &str, place_id: i64, icon: Option<String>) -> (r: String)
    ensures
        r@ == shortcut_text(exe@, name@, place_id, icon),
{
    let line = match &icon {
        Some(p) => cat3("Icon=", p.as_str(), "\n"),
        None => String::new(),
    };
    assert(line@ =~= icon_line(icon));
    let tail = cat4(
        int_text(place_id).as_str(),
        "\n",
        line.as_str(),
        "Terminal=false\nCategories=Game;\nStartupNotify=true\n",
    );
    let head = cat5(
        "[Desktop Entry]\nType=Application\nName=",
        name,
        "\nExec=\"",
        exe,
        "\" roblox://experiences/start?placeId=",
    );
    cat2(head.as_str(), tail.as_str())
}

/// The commands that make a shortcut on Windows.
pub fn link_script(path: &str, exe: &str, place_id: i64, icon: Option<String>) -> (r: String)
    ensures
        r@ == "$w=New-Object -ComObject WScript.Shell;$s=$w.CreateShortcut('"@ + path@
            + "');$s.TargetPath='"@ + exe@
            + "';$s.Arguments='roblox://experiences/start?placeId="@ + (decimal_int(place_id as int)
            + "';"@ + (match icon {
            Some(p) => "$s.IconLocation='"@ + p@ + "';"@,
            None => Seq::empty(),
        }) + "$s.Save()"@),
{
    let line = match &icon {
        Some(p) => cat3("$s.IconLocation='", p.as_str(), "';"),
        None => String::new(),
    };
    let tail = cat4(int_text(place_id).as_str(), "';", line.as_str(), "$s.Save()");
    let head = cat5(
        "$w=New-Object -ComObject WScript.Shell;$s=$w.CreateShortcut('",
        path,
        "');$s.TargetPath='",
        exe,
        "';$s.Arguments='roblox://experiences/start?placeId=",
    );
    cat2(head.as_str(), tail.as_str())
}

/// The first line that starts with a word.
pub open spec fn line_with(lines: Seq<Seq<char>>, word: Seq<char>) -> Option<Seq<char>>
    decreases lines.len(),
{
    if lines.len() == 0 {
        None
    } else if starts_with_spec(lines[0], word) {
        Some(lines[0])
    } else {
        line_with(lines.skip(1), word)
    }
}

fn find_line(text: &str, word: &str) -> (r: Option<String>)
    ensures
        opt_text(r) == line_with(lines_of(text@), word@),
{
    let lines = text_lines(text);
    let ghost all = texts(lines@);
    let mut i: usize = 0;
    assert(all.skip(0) =~= all);
    while i < lines.len()
        invariant
            i <= lines.len(),
            all == texts(lines@),
            all == lines_of(text@),
            line_with(all, word@) == line_with(all.skip(i as int), word@),
        decreases lines.len() - i,
    {
        assert(all.skip(i as int)[0] == lines@[i as int]@);
        assert(all.skip(i as int).skip(1) =~= all.skip(i as int + 1));
        if starts_with(lines[i].as_str(), word) {
            return Some(lines[i].clone());
        }
        i = i + 1;
    }
    None
}

/// The place that an entry launches, if it is one of ours: the digits behind the
/// argument that we write, in its `Exec` line. An entry without that argument is
/// somebody else's.
pub open spec fn place_in(text: Seq<char>) -> Option<i64> {
    match line_with(lines_of(text), "Exec="@) {
        Some(line) => match second_piece(line, "roblox://experiences/start?placeId="@) {
            Some(rest) => read_i64(leading_digits(trimmed(rest))),
            None => None,
        },
        None => None,
    }
}

/// The place that an entry launches, if it is one of ours.
pub fn place_id_of(text: &str) -> (r: Option<i64>)
    ensures
        r == place_in(text@),
{
    match find_line(text, "Exec=") {
        Some(line) => match piece_after(&chars_of(line.as_str()), "roblox://experiences/start?placeId=") {
            Some(rest) => {
                let t = trim_chars(&rest);
                let mut digits: Vec<char> = Vec::new();
                let mut k: usize = 0;
                assert(t@.skip(0) =~= t@);
                while k < t.len() && is_digit(t[k])
                    invariant
                        k <= t.len(),
                        leading_digits(t@) == digits@ + leading_digits(t@.skip(k as int)),
                    decreases t.len() - k,
                {
                    let ghost before = digits@;
                    assert(t@.skip(k as int).skip(1) =~= t@.skip(k as int + 1));
                    digits.push(t[k]);
                    assert(before + (seq![t@[k as int]] + leading_digits(t@.skip(k as int + 1)))
                        =~= digits@ + leading_digits(t@.skip(k as int + 1)));
                    k = k + 1;
                }
                assert(digits@ + Seq::<char>::empty() =~= digits@);
                parse_i64_chars(&digits)
            },
            None => None,
        },
        None => None,
    }
}

/// The name of an entry: its `Name` line, unless that is empty.
pub open spec fn name_in(text: Seq<char>) -> Option<Seq<char>> {
    match line_with(lines_of(text), "Name="@) {
        Some(line) => {
            let n = trimmed(line.skip(5));
            if n.len() > 0 {
                Some(n)
            } else {
                None
            }
        },
        None => None,
    }
}

/// The name of an entry.
pub fn name_of(text: &str) -> (r: Option<String>)
    ensures
        opt_text(r) == name_in(text@),
{
    proof {
        reveal_strlit("Name=");
        lemma_line_with(lines_of(text@), "Name="@);
    }
    match find_line(text, "Name=") {
        Some(line) => {
            let v = chars_of(line.as_str());
            let rest = range_text(&v, 5, v.len());
            assert(rest@ =~= line@.skip(5));
            let n = trim(rest.as_str());
            if n.as_str().is_empty() {
                None
            } else {
                Some(n)
            }
        },
        None => None,
    }
}

proof fn lemma_line_with(lines: Seq<Seq<char>>, word: Seq<char>)
    ensures
        line_with(lines, word) matches Some(line) ==> starts_with_spec(line, word),
    decreases lines.len(),
{
    if lines.len() > 0 && !starts_with_spec(lines[0], word) {
        lemma_line_with(lines.skip(1), word);
    }
}

/// A file on the desktop: its path and its contents.
pub struct DesktopFile {
    pub path: String,
    pub text: String,
}

/// The entry is the one in this file.
pub open spec fn entry_is(e: Entry, f: DesktopFile) -> bool {
    &&& place_in(f.text@) == Some(e.place_id)
    &&& e.path@ == f.path@
    &&& e.name@ == (match name_in(f.text@) {
        Some(n) => n,
        None => "Place "@ + decimal_int(e.place_id as int),
    })
}

/// `out` is the shortcuts among the files, by name whatever its case; `from`
/// says where each came from.
pub open spec fn entries_are(files: Seq<DesktopFile>, out: Seq<Entry>, from: Seq<usize>) -> bool {
    &&& from.len() == out.len()
    &&& forall|i: int|
        0 <= i < out.len() ==> (#[trigger] from[i]) < files.len() && entry_is(
            out[i],
            files[from[i] as int],
        )
    &&& forall|i: int, j: int|
        0 <= i < j < out.len() ==> #[trigger] from[i] != #[trigger] from[j] && text_le(
            lowercase(out[i].name@),
            lowercase(out[j].name@),
        ) && (text_le(lowercase(out[j].name@), lowercase(out[i].name@)) ==> from[i] < from[j])
    &&& forall|k: int|
        0 <= k < files.len() && place_in((#[trigger] files[k]).text@) is Some ==> from.contains(
            k as usize,
        )
}

/// The shortcuts among the files of the desktop, by name.
pub fn list(files: &Vec<DesktopFile>) -> (out: Vec<Entry>)
    ensures
        exists|from: Seq<usize>| #[trigger] entries_are(files@, out@, from),
{
    let mut found: Vec<Entry> = Vec::new();
    let mut keys: Vec<SortKey> = Vec::new();
    let ghost mut at: Seq<usize> = Seq::empty();
    let mut i: usize = 0;
    while i < files.len()
        invariant
            i <= files.len(),
            found.len() == at.len(),
            keys.len() == at.len(),
            forall|k: int|
                0 <= k < at.len() ==> (#[trigger] at[k]) < i && entry_is(
                    found@[k],
                    files@[at[k] as int],
                ),
            forall|k: int|
                0 <= k < at.len() ==> (#[trigger] keys@[k]).first == 0 && keys@[k].second == 0
                    && keys@[k].name@ == lowercase(found@[k].name@),
            forall|j: int, k: int| 0 <= j < k < at.len() ==> #[trigger] at[j] < #[trigger] at[k],
            forall|k: int|
                0 <= k < i && place_in((#[trigger] files@[k]).text@) is Some ==> at.contains(
                    k as usize,
                ),
        decreases files.len() - i,
    {
        let ghost before = at;
        match place_id_of(files[i].text.as_str()) {
            Some(place_id) => {
                let name = match name_of(files[i].text.as_str()) {
                    Some(n) => n,
                    None => cat2("Place ", int_text(place_id).as_str()),
                };
                keys.push(SortKey { first: 0, second: 0, name: to_lower(name.as_str()) });
                found.push(Entry { place_id, name, path: files[i].path.clone() });
                proof {
                    at = at.push(i);
                    assert forall|k: int| 0 <= k < i + 1 && place_in(
                        (#[trigger] files@[k]).text@,
                    ) is Some implies at.contains(k as usize) by {
                        if k == i {
                            assert(at[at.len() - 1] == i);
                        } else {
                            let j = choose|j: int| 0 <= j < before.len() && before[j] == k as usize;
                            assert(at[j] == k as usize);
                        }
                    }
                }
            },
            None => {},
        }
        i = i + 1;
    }
    let order = sorted_order(&keys);
    let ghost input = found@;
    let out = rearranged(found, &order);
    proof {
        let from = Seq::new(order@.len(), |k: int| at[order@[k] as int]);
        assert forall|k: int| 0 <= k < out.len() implies (#[trigger] from[k]) < files.len()
            && entry_is(out@[k], files@[from[k] as int]) by {
            assert(out@[k] == input[order@[k] as int]);
            assert(at[order@[k] as int] < files.len());
        }
        assert forall|a: int, b: int| 0 <= a < b < out.len() implies #[trigger] from[a]
            != #[trigger] from[b] && text_le(lowercase(out@[a].name@), lowercase(out@[b].name@))
            && (text_le(lowercase(out@[b].name@), lowercase(out@[a].name@)) ==> from[a]
            < from[b]) by {
            let x = order@[a];
            let y = order@[b];
            assert(crate::order::precedes(keys@, x, y));
            assert(out@[a] == input[x as int]);
            assert(out@[b] == input[y as int]);
            assert(keys@[x as int].name@ == lowercase(input[x as int].name@));
            assert(keys@[y as int].name@ == lowercase(input[y as int].name@));
            if x < y {
                assert(at[x as int] < at[y as int]);
            } else {
                assert(at[y as int] < at[x as int]);
            }
        }
        assert forall|k: int| 0 <= k < files.len() && place_in(
            (#[trigger] files@[k]).text@,
        ) is Some implies from.contains(k as usize) by {
            let j = choose|j: int| 0 <= j < at.len() && at[j] == k as usize;
            crate::order::lemma_permutation_hits(order@, at.len(), j as usize);
            let p = choose|p: int| 0 <= p < order@.len() && order@[p] == j as usize;
            assert(from[p] == k as usize);
        }
        assert(entries_are(files@, out@, from));
    }
    out
}


/// The text is a single line.
pub open spec fn is_one_line(t: Seq<char>) -> bool {
    forall|i: int| 0 <= i < t.len() ==> t[i] != '\n'
}

/// What stands in front of the place's id in an `Exec` line.
pub open spec fn exec_head(exe: Seq<char>) -> Seq<char> {
    "Exec=\""@ + exe + "\" "@
}

proof fn lemma_no_mark_in_head(exe: Seq<char>, id: Seq<char>, j: int)
    requires
        !occurs(exe, "roblox://experiences/start?placeId="@),
        0 <= j < exec_head(exe).len(),
    ensures
        !occurs_at(exec_head(exe) + "roblox://experiences/start?placeId="@ + id, "roblox://experiences/start?placeId="@, j),
{
    reveal_strlit("Exec=\"");
    reveal_strlit("\" ");
    reveal_strlit("roblox://experiences/start?placeId=");
    let pat = "roblox://experiences/start?placeId="@;
    let start = "Exec=\""@;
    let tail = "\" "@;
    let line = exec_head(exe) + pat + id;
    let n = exe.len() as int;
    if occurs_at(line, pat, j) {
        let w = line.subrange(j, j + 35);
        assert(w == pat);
        assert(line[j] == w[0]);
        assert(line[j + 1] == w[1]);
        if j < 6 {
            assert(line[j] == start[j]);
            assert(start[j] != 'r');
        } else if j < 6 + n {
            if j + 35 <= 6 + n {
                assert(exe.subrange(j - 6, j - 6 + 35) =~= w);
                assert(occurs_at(exe, pat, j - 6));
            } else {
                let q = 6 + n - j;
                assert(w[q] == line[6 + n]);
                assert(line[6 + n] == tail[0]);
                assert(pat[q] != '"');
            }
        } else {
            let k = j - 6 - n;
            assert(line[j] == tail[k]);
            assert(tail[k] != 'r');
        }
    }
}

proof fn lemma_mark_is_first(exe: Seq<char>, id: Seq<char>)
    requires
        !occurs(exe, "roblox://experiences/start?placeId="@),
    ensures
        find_first(exec_head(exe) + "roblox://experiences/start?placeId="@ + id, "roblox://experiences/start?placeId="@) == Some(
            exec_head(exe).len() as int,
        ),
{
    let pat = "roblox://experiences/start?placeId="@;
    let head = exec_head(exe);
    let line = head + pat + id;
    assert(line.subrange(head.len() as int, head.len() as int + pat.len()) =~= pat);
    assert(occurs_at(line, pat, head.len() as int));
    lemma_find_from(line, pat, 0);
    assert forall|j: int| 0 <= j < head.len() implies !occurs_at(line, pat, j) by {
        lemma_no_mark_in_head(exe, id, j);
    }
}

proof fn lemma_digits_stand_alone(n: nat)
    ensures
        ({
            let d = crate::number::decimal(n);
            &&& leading_digits(trimmed(d)) == d
            &&& find_first(d, "roblox://experiences/start?placeId="@) is None
            &&& d.len() > 0
            &&& without_return(d) == d
        }),
{
    reveal_strlit("roblox://experiences/start?placeId=");
    let d = crate::number::decimal(n);
    lemma_decimal_shape(n);
    assert(is_digit_spec(d[0]));
    assert(is_digit_spec(d[d.len() - 1]));
    assert(trim_start(d) == d);
    assert(trim_end(d) == d);
    lemma_all_leading(d);
    lemma_find_from(d, "roblox://experiences/start?placeId="@, 0);
    if let Some(k) = find_first(d, "roblox://experiences/start?placeId="@) {
        let w = d.subrange(k, k + 35);
        assert(w[0] == 'r');
        assert(is_digit_spec(d[k]));
    }
}

proof fn lemma_all_leading(d: Seq<char>)
    requires
        crate::number::all_digits(d),
    ensures
        leading_digits(d) == d,
    decreases d.len(),
{
    if d.len() > 0 {
        assert(is_digit_spec(d[0]));
        assert forall|i: int| 0 <= i < d.skip(1).len() implies is_digit_spec(
            #[trigger] d.skip(1)[i],
        ) by {
            assert(is_digit_spec(d[i + 1]));
        }
        lemma_all_leading(d.skip(1));
        assert(seq![d[0]] + d.skip(1) =~= d);
    } else {
        assert(leading_digits(d) =~= d);
    }
}

/// A shortcut that was written is recognised, with the place it launches. The
/// game's name and the program's path must be single lines, and the path must
/// not itself hold the argument that we write.
pub proof fn law_shortcuts_are_recognised(
    exe: Seq<char>,
    name: Seq<char>,
    place_id: i64,
    icon: Option<String>,
)
    requires
        is_one_line(exe),
        is_one_line(name),
        !occurs(exe, "roblox://experiences/start?placeId="@),
        place_id >= 0,
    ensures
        place_in(shortcut_text(exe, name, place_id, icon)) == Some(place_id),
{
    let id = decimal_int(place_id as int);
    let line1 = "[Desktop Entry]"@;
    let line2 = "Type=Application"@;
    let line3 = "Name="@ + name;
    let line4 = exec_head(exe) + "roblox://experiences/start?placeId="@ + id;
    let rest4 = icon_line(icon) + "Terminal=false\nCategories=Game;\nStartupNotify=true\n"@;
    let rest3 = line4 + seq!['\n'] + rest4;
    let rest2 = line3 + seq!['\n'] + rest3;
    let rest1 = line2 + seq!['\n'] + rest2;
    lemma_shortcut_lines(exe, name, place_id, icon);
    assert(shortcut_text(exe, name, place_id, icon) == line1 + seq!['\n'] + rest1);
    lemma_digits_stand_alone(place_id as nat);
    lemma_decimal_shape(place_id as nat);
    lemma_fixed_lines(exe, name, id);
    lemma_line_head(line1, rest1);
    lemma_line_head(line2, rest2);
    lemma_line_head(line3, rest3);
    lemma_line_head(line4, rest4);
    let l4 = lines_of(rest3);
    let l3 = lines_of(rest2);
    let l2 = lines_of(rest1);
    let l1 = lines_of(line1 + seq!['\n'] + rest1);
    assert(l1.skip(1) =~= l2);
    assert(l2.skip(1) =~= l3);
    assert(l3.skip(1) =~= l4);
    assert(without_return(line4) == line4) by {
        assert(line4.last() == id.last());
    }
    assert(l4[0] == line4);
    reveal_with_fuel(line_with, 5);
    assert(line_with(l4, "Exec="@) == Some(line4));
    assert(line_with(l1, "Exec="@) == Some(line4));
    lemma_mark_is_first(exe, id);
    reveal_strlit("roblox://experiences/start?placeId=");
    assert(line4.skip(exec_head(exe).len() as int + 35) =~= id);
    law_decimal_reads_back(place_id as int);
}

/// An entry whose command does not hold the argument that we write is somebody
/// else's.
pub proof fn law_foreign_entries_are_not_ours(text: Seq<char>)
    requires
        line_with(lines_of(text), "Exec="@) matches Some(line) ==> !occurs(
            line,
            "roblox://experiences/start?placeId="@,
        ),
    ensures
        place_in(text) is None,
{
    if let Some(line) = line_with(lines_of(text), "Exec="@) {
        lemma_find_from(line, "roblox://experiences/start?placeId="@, 0);
    }
}

proof fn lemma_shortcut_lines(
    exe: Seq<char>,
    name: Seq<char>,
    place_id: i64,
    icon: Option<String>,
)
    ensures
        ({
            let id = decimal_int(place_id as int);
            let line3 = "Name="@ + name;
            let line4 = exec_head(exe) + "roblox://experiences/start?placeId="@ + id;
            let rest4 = icon_line(icon)
                + "Terminal=false\nCategories=Game;\nStartupNotify=true\n"@;
            let rest3 = line4 + seq!['\n'] + rest4;
            let rest2 = line3 + seq!['\n'] + rest3;
            let rest1 = "Type=Application"@ + seq!['\n'] + rest2;
            shortcut_text(exe, name, place_id, icon) == "[Desktop Entry]"@ + seq!['\n'] + rest1
        }),
{
    reveal_strlit("[Desktop Entry]\nType=Application\nName=");
    reveal_strlit("[Desktop Entry]");
    reveal_strlit("Type=Application");
    reveal_strlit("Name=");
    reveal_strlit("\nExec=\"");
    reveal_strlit("Exec=\"");
    reveal_strlit("\" roblox://experiences/start?placeId=");
    reveal_strlit("\" ");
    reveal_strlit("roblox://experiences/start?placeId=");
    reveal_strlit("\n");
    let a = "[Desktop Entry]\nType=Application\nName="@;
    assert(a =~= "[Desktop Entry]"@ + seq!['\n'] + "Type=Application"@ + seq!['\n'] + "Name="@);
    let b = "\nExec=\""@;
    assert(b =~= seq!['\n'] + "Exec=\""@);
    let c = "\" roblox://experiences/start?placeId="@;
    assert(c =~= "\" "@ + "roblox://experiences/start?placeId="@);
    assert("\n"@ =~= seq!['\n']);
    let id = decimal_int(place_id as int);
    let line3 = "Name="@ + name;
    let line4 = exec_head(exe) + "roblox://experiences/start?placeId="@ + id;
    let rest4 = icon_line(icon) + "Terminal=false\nCategories=Game;\nStartupNotify=true\n"@;
    let rest3 = line4 + seq!['\n'] + rest4;
    let rest2 = line3 + seq!['\n'] + rest3;
    let rest1 = "Type=Application"@ + seq!['\n'] + rest2;
    assert(shortcut_text(exe, name, place_id, icon) =~= "[Desktop Entry]"@ + seq!['\n'] + rest1);
}

proof fn lemma_fixed_lines(exe: Seq<char>, name: Seq<char>, id: Seq<char>)
    requires
        is_one_line(exe),
        is_one_line(name),
        id.len() > 0,
        forall|i: int| 0 <= i < id.len() ==> is_digit_spec(#[trigger] id[i]),
    ensures
        is_one_line("[Desktop Entry]"@),
        is_one_line("Type=Application"@),
        is_one_line("Name="@ + name),
        is_one_line(exec_head(exe) + "roblox://experiences/start?placeId="@ + id),
        !starts_with_spec(without_return("[Desktop Entry]"@), "Exec="@),
        !starts_with_spec(without_return("Type=Application"@), "Exec="@),
        !starts_with_spec(without_return("Name="@ + name), "Exec="@),
        starts_with_spec(exec_head(exe) + "roblox://experiences/start?placeId="@ + id, "Exec="@),
{
    reveal_strlit("[Desktop Entry]");
    reveal_strlit("Type=Application");
    reveal_strlit("Name=");
    reveal_strlit("Exec=");
    reveal_strlit("Exec=\"");
    reveal_strlit("\" ");
    reveal_strlit("roblox://experiences/start?placeId=");
    let l1 = without_return("[Desktop Entry]"@);
    let l2 = without_return("Type=Application"@);
    let l3 = without_return("Name="@ + name);
    let l4 = exec_head(exe) + "roblox://experiences/start?placeId="@ + id;
    assert(l1[0] == '[');
    assert(l2[0] == 'T');
    assert(l3[0] == 'N');
    if starts_with_spec(l1, "Exec="@) {
        assert(l1.subrange(0, 5)[0] == 'E');
    }
    if starts_with_spec(l2, "Exec="@) {
        assert(l2.subrange(0, 5)[0] == 'E');
    }
    if starts_with_spec(l3, "Exec="@) {
        assert(l3.subrange(0, 5)[0] == 'E');
    }
    assert(l4.subrange(0, 5) =~= "Exec="@);
    assert forall|i: int| 0 <= i < l4.len() implies l4[i] != '\n' by {
        let h = exec_head(exe).len() as int;
        let n = exe.len() as int;
        if i < 6 {
            assert(l4[i] == "Exec=\""@[i]);
        } else if i < 6 + n {
            assert(l4[i] == exe[i - 6]);
        } else if i < h {
            assert(l4[i] == "\" "@[i - 6 - n]);
        } else if i < h + 35 {
            assert(l4[i] == "roblox://experiences/start?placeId="@[i - h]);
        } else {
            assert(l4[i] == id[i - h - 35]);
            assert(is_digit_spec(id[i - h - 35]));
        }
    }
}

/// What a shortcut says: the game's name, the program with the place to launch, and
/// the icon where there is one.
pub proof fn law_what_a_shortcut_says(
    exe: Seq<char>,
    name: Seq<char>,
    place_id: i64,
    icon: Option<String>,
)
    ensures
        shortcut_text(exe, name, place_id, icon)
            == "[Desktop Entry]\nType=Application\nName="@ + name + "\nExec=\""@ + exe
            + "\" roblox://experiences/start?placeId="@ + (decimal_int(place_id as int) + "\n"@ + (
        match icon {
            Some(p) => "Icon="@ + p@ + "\n"@,
            None => Seq::empty(),
        }) + "Terminal=false\nCategories=Game;\nStartupNotify=true\n"@),
        STEM_LEN == 48,
{
}

proof fn lemma_found_line(lines: Seq<Seq<char>>, word: Seq<char>, k: int)
    requires
        0 <= k < lines.len(),
        forall|j: int| 0 <= j < k ==> !starts_with_spec(#[trigger] lines[j], word),
        starts_with_spec(lines[k], word),
    ensures
        line_with(lines, word) == Some(lines[k]),
    decreases k,
{
    if k > 0 {
        assert(!starts_with_spec(lines[0], word));
        assert forall|j: int| 0 <= j < k - 1 implies !starts_with_spec(
            #[trigger] lines.skip(1)[j],
            word,
        ) by {
            assert(lines.skip(1)[j] == lines[j + 1]);
        }
        assert(lines.skip(1)[k - 1] == lines[k]);
        lemma_found_line(lines.skip(1), word, k - 1);
    }
}

/// An entry goes by the first line with its name, without the white space around it;
/// where that is empty it has none.
pub proof fn law_entries_go_by_their_name(text: Seq<char>, k: int, name: Seq<char>)
    requires
        0 <= k < lines_of(text).len(),
        forall|j: int| 0 <= j < k ==> !starts_with_spec(#[trigger] lines_of(text)[j], "Name="@),
        lines_of(text)[k] == "Name="@ + name,
    ensures
        trimmed(name).len() > 0 ==> name_in(text) == Some(trimmed(name)),
        trimmed(name).len() == 0 ==> name_in(text) is None,
{
    reveal_strlit("Name=");
    let line = "Name="@ + name;
    assert(line.subrange(0, 5) =~= "Name="@);
    lemma_found_line(lines_of(text), "Name="@, k);
    assert(line.skip(5) =~= name);
}

/// The shortcuts are listed by name, in any case of its letters; each shows its file,
/// and its name or else its place.
pub proof fn law_shortcuts_are_listed_by_name(
    files: Seq<DesktopFile>,
    out: Seq<Entry>,
    from: Seq<usize>,
    i: int,
    j: int,
)
    requires
        entries_are(files, out, from),
        0 <= i < out.len(),
    ensures
        i < j < out.len() ==> text_le(lowercase(out[i].name@), lowercase(out[j].name@)),
        ({
            let f = files[from[i] as int];
            &&& place_in(f.text@) == Some(out[i].place_id)
            &&& out[i].path@ == f.path@
            &&& name_in(f.text@) matches Some(n) ==> out[i].name@ == n
            &&& name_in(f.text@) is None ==> out[i].name@ == "Place "@ + decimal_int(
                out[i].place_id as int,
            )
        }),
        forall|k: int|
            0 <= k < files.len() && place_in((#[trigger] files[k]).text@) is Some ==> from.contains(
                k as usize,
            ),
{
    assert(from[i] < files.len());
    if i < j < out.len() {
        assert(from[i] != from[j]);
    }
}

/// A name of letters and digits alone is its own file name, as far as there is room;
/// other characters between two of them become one dash.
pub proof fn law_plain_names_are_kept(a: Seq<char>, c: char)
    requires
        forall|i: int| 0 <= i < a.len() ==> is_alnum_spec(#[trigger] a[i]),
    ensures
        dashed(a) == a,
        !is_alnum_spec(c) ==> dashed(a.push(c)) == a.push('-'),
        0 < a.len() <= 48 ==> stem(a) == a,
        a.len() > 48 ==> stem(a) == a.take(48),
        a.len() == 0 ==> stem(a) == "game"@,
    decreases a.len(),
{
    lemma_dashed_is(a);
    assert(a.push(c).drop_last() =~= a);
    if a.len() > 0 {
        assert(is_alnum_spec(a[0]));
        assert(is_alnum_spec(a[a.len() - 1]));
    }
}

proof fn lemma_dashed_is(a: Seq<char>)
    requires
        forall|i: int| 0 <= i < a.len() ==> is_alnum_spec(#[trigger] a[i]),
    ensures
        dashed(a) == a,
    decreases a.len(),
{
    if a.len() > 0 {
        assert(is_alnum_spec(a[a.len() - 1]));
        lemma_dashed_is(a.drop_last());
        assert(a.drop_last().push(a.last()) =~= a);
    }
}

} // verus!
