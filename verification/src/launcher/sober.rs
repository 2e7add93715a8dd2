//! The game on Linux: Sober, its cookies and its settings.
//!
//! Sober keeps the active account's cookie in a jar of `name=value` pairs, and
//! its settings in a JSON file with a header of comments. It rewrites both when
//! it exits, so nothing is changed while it runs.

use crate::launcher::config::{
    flag_json, flags_document, holds_flags, inserted, is_canonical, is_document, is_flag_of,
    is_flat, is_json, is_last_of_name, is_plain_key, is_uncommented, json_insert, json_kind,
    json_object, json_remove, keeps_members, keeps_names, keeps_others, keeps_rest, lemma_flags_are_flat, lists, member,
    names, object_kind, plain, removed, shape_json, shape_text, shapes,
};
use crate::launcher::Error;
use crate::number::{
    decimal, decimal_int, law_decimal_reads_back, lemma_decimal_shape, parse_i64, read_i64, read_int,
};
use crate::order::{sorted_order, SortKey};
use crate::text::{
    cat2, cat3, chars_of, contains_text, is_digit_spec, is_space_spec, lemma_trimmed, lemma_trimmed_is,
    lemma_until, lemma_until_is, lines_of, occurs, opt_text, range_text, run_until, same, split_on,
    split_text, text_le, texts, trim, trimmed, until, without_return,
};
use vstd::prelude::*;
use vstd::string::*;

verus! {

pub const FLATPAK_ID: &'static str = "org.vinegarhq.Sober";

pub const COOKIE_NAME: &'static str = ".ROBLOSECURITY";

/// Sober writes this flag into a fresh file as an example. It has no effect.
pub const PLACEHOLDER_FLAG: &'static str = "FFlagExample";

/// Whether the list of running applications names Sober.
pub fn is_running(listing: &str) -> (r: bool)
    ensures
        r == occurs(listing@, FLATPAK_ID@),
{
    contains_text(listing, FLATPAK_ID)
}

/// `name` below the directory `dir`.
pub open spec fn below(dir: Seq<char>, name: Seq<char>) -> Seq<char> {
    if dir.len() == 0 {
        name
    } else if dir.last() == '/' {
        dir + name
    } else {
        dir + "/"@ + name
    }
}

pub fn join_path(dir: &str, name: &str) -> (r: String)
    ensures
        r@ == below(dir@, name@),
{
    let v = chars_of(dir);
    if v.len() == 0 {
        name.to_owned()
    } else if v[v.len() - 1] == '/' {
        cat2(dir, name)
    } else {
        cat3(dir, "/", name)
    }
}

/// Where Sober keeps its data, below the user's home.
pub fn data_dir(home: &str) -> (r: String)
    ensures
        r@ == below(home@, ".var/app/org.vinegarhq.Sober/data/sober"@),
{
    join_path(home, ".var/app/org.vinegarhq.Sober/data/sober")
}

/// Where Sober keeps its cookies, where it has a data directory.
pub fn cookie_path(data_dir: Option<String>) -> (r: Option<String>)
    ensures
        opt_text(r) == (match data_dir {
            Some(d) => Some(below(d@, "cookies"@)),
            None => None,
        }),
{
    match data_dir {
        Some(d) => Some(join_path(d.as_str(), "cookies")),
        None => None,
    }
}

/// Where Sober keeps its settings, below the user's home.
pub fn config_path(home: &str) -> (r: String)
    ensures
        r@ == below(home@, ".var/app/org.vinegarhq.Sober/config/sober/config.json"@),
{
    join_path(home, ".var/app/org.vinegarhq.Sober/config/sober/config.json")
}

/// A cookie jar: names and values, in order.
pub open spec fn pairs_of(v: Seq<(String, String)>) -> Seq<(Seq<char>, Seq<char>)> {
    v.map_values(|p: (String, String)| (p.0@, p.1@))
}

/// One part of a jar as a name and a value: the value is what follows the first
/// `=`.
pub open spec fn pair_of(part: Seq<char>) -> (Seq<char>, Seq<char>) {
    let k = until(part, '=');
    if k < part.len() {
        (trimmed(part.take(k as int)), part.skip(k as int + 1))
    } else {
        (part, Seq::empty())
    }
}

/// The pairs of a jar's parts; a part of white space is none.
pub open spec fn pairs_in(parts: Seq<Seq<char>>) -> Seq<(Seq<char>, Seq<char>)>
    decreases parts.len(),
{
    if parts.len() == 0 {
        Seq::empty()
    } else {
        let rest = pairs_in(parts.skip(1));
        let part = trimmed(parts[0]);
        if part.len() == 0 {
            rest
        } else {
            seq![pair_of(part)] + rest
        }
    }
}

/// The pairs of a jar.
pub open spec fn jar_pairs(jar: Seq<char>) -> Seq<(Seq<char>, Seq<char>)> {
    pairs_in(split_on(jar, ';'))
}

fn split_pair(part: &str) -> (r: (String, String))
    ensures
        (r.0@, r.1@) == pair_of(part@),
{
    let v = chars_of(part);
    assert(v@.skip(0) =~= v@);
    let k: usize = run_until(&v, '=', 0);
    if k < v.len() {
        let name = range_text(&v, 0, k);
        assert(name@ =~= part@.take(k as int));
        let value = range_text(&v, k + 1, v.len());
        assert(value@ =~= part@.skip(k as int + 1));
        (trim(name.as_str()), value)
    } else {
        (part.to_owned(), String::new())
    }
}

/// Split a cookie jar into names and values, in order.
pub fn split_jar(jar: &str) -> (pairs: Vec<(String, String)>)
    ensures
        pairs_of(pairs@) == jar_pairs(jar@),
{
    let parts = split_text(jar, ';');
    let ghost all = texts(parts@);
    let mut pairs: Vec<(String, String)> = Vec::new();
    let mut i: usize = 0;
    assert(all.skip(0) =~= all);
    assert(pairs_of(pairs@) + pairs_in(all) =~= pairs_in(all));
    while i < parts.len()
        invariant
            i <= parts.len(),
            all == texts(parts@),
            pairs_of(pairs@) + pairs_in(all.skip(i as int)) == pairs_in(all),
        decreases parts.len() - i,
    {
        let ghost before = pairs_of(pairs@);
        let ghost tail = pairs_in(all.skip(i as int + 1));
        assert(all.skip(i as int).skip(1) =~= all.skip(i as int + 1));
        assert(all.skip(i as int)[0] == parts@[i as int]@);
        let part = trim(parts[i].as_str());
        if !part.as_str().is_empty() {
            let p = split_pair(part.as_str());
            let ghost view = (p.0@, p.1@);
            pairs.push(p);
            assert(pairs_of(pairs@) =~= before.push(view));
            assert(before + (seq![view] + tail) =~= pairs_of(pairs@) + tail);
        }
        i = i + 1;
    }
    assert(all.skip(all.len() as int) =~= Seq::<Seq<char>>::empty());
    assert(pairs_of(pairs@) + Seq::<(Seq<char>, Seq<char>)>::empty() =~= pairs_of(pairs@));
    pairs
}

/// One pair as it stands in a jar: the name alone where there is no value.
pub open spec fn pair_text(p: (Seq<char>, Seq<char>)) -> Seq<char> {
    if p.1.len() == 0 {
        p.0
    } else {
        p.0 + "="@ + p.1
    }
}

/// Pairs as a jar.
pub open spec fn jar_text(pairs: Seq<(Seq<char>, Seq<char>)>) -> Seq<char>
    decreases pairs.len(),
{
    if pairs.len() == 0 {
        Seq::empty()
    } else if pairs.len() == 1 {
        pair_text(pairs[0])
    } else {
        jar_text(pairs.drop_last()) + "; "@ + pair_text(pairs.last())
    }
}

/// Put a cookie jar together.
pub fn join_jar(pairs: &Vec<(String, String)>) -> (jar: String)
    ensures
        jar@ == jar_text(pairs_of(pairs@)),
{
    let mut jar = String::new();
    let mut i: usize = 0;
    let ghost all = pairs_of(pairs@);
    assert(all.take(0) =~= Seq::<(Seq<char>, Seq<char>)>::empty());
    while i < pairs.len()
        invariant
            i <= pairs.len(),
            all == pairs_of(pairs@),
            jar@ == jar_text(all.take(i as int)),
        decreases pairs.len() - i,
    {
        let ghost before = jar@;
        assert(all.take(i as int + 1).drop_last() =~= all.take(i as int));
        assert(all.take(i as int + 1).last() == all[i as int]);
        if i > 0 {
            jar.append("; ");
        }
        let ghost mid = jar@;
        jar.append(pairs[i].0.as_str());
        if !pairs[i].1.as_str().is_empty() {
            jar.append("=");
            jar.append(pairs[i].1.as_str());
        }
        proof {
            assert(jar@ =~= mid + pair_text(all[i as int]));
            if i == 0 {
                assert(before =~= Seq::<char>::empty());
                assert(jar@ =~= pair_text(all[0]));
            }
        }
        i = i + 1;
    }
    assert(all.take(all.len() as int) =~= all);
    jar
}

/// Where the first pair of a name is, from `i` on.
pub open spec fn pair_at(
    pairs: Seq<(Seq<char>, Seq<char>)>,
    name: Seq<char>,
    i: int,
) -> Option<int>
    decreases pairs.len() - i,
{
    if i < 0 || i >= pairs.len() {
        None
    } else if pairs[i].0 == name {
        Some(i)
    } else {
        pair_at(pairs, name, i + 1)
    }
}

/// The pairs with the first of a name set to a value, or with a new one at the
/// end.
pub open spec fn with_value(
    pairs: Seq<(Seq<char>, Seq<char>)>,
    name: Seq<char>,
    value: Seq<char>,
) -> Seq<(Seq<char>, Seq<char>)> {
    match pair_at(pairs, name, 0) {
        Some(i) => pairs.update(i, (name, value)),
        None => pairs.push((name, value)),
    }
}

fn find_pair(pairs: &Vec<(String, String)>, name: &str) -> (r: Option<usize>)
    ensures
        match r {
            Some(i) => i < pairs.len() && pair_at(pairs_of(pairs@), name@, 0) == Some(i as int),
            None => pair_at(pairs_of(pairs@), name@, 0) is None,
        },
{
    let mut i: usize = 0;
    while i < pairs.len()
        invariant
            i <= pairs.len(),
            pair_at(pairs_of(pairs@), name@, 0) == pair_at(pairs_of(pairs@), name@, i as int),
        decreases pairs.len() - i,
    {
        if same(pairs[i].0.as_str(), name) {
            return Some(i);
        }
        i = i + 1;
    }
    None
}

/// The account a jar is signed into: the first session cookie, unless it is
/// empty.
pub open spec fn jar_cookie(jar: Seq<char>) -> Option<Seq<char>> {
    let pairs = jar_pairs(jar);
    match pair_at(pairs, COOKIE_NAME@, 0) {
        Some(i) => if pairs[i].1.len() > 0 {
            Some(pairs[i].1)
        } else {
            None
        },
        None => None,
    }
}

/// The account that Sober is signed into.
pub fn read_cookie(jar: &str) -> (r: Option<String>)
    ensures
        opt_text(r) == jar_cookie(jar@),
{
    let pairs = split_jar(jar);
    match find_pair(&pairs, COOKIE_NAME) {
        Some(i) => if pairs[i].1.as_str().is_empty() {
            None
        } else {
            Some(pairs[i].1.clone())
        },
        None => None,
    }
}

/// Some session cookie of the jar is this one.
pub open spec fn holds_cookie(pairs: Seq<(Seq<char>, Seq<char>)>, cookie: Seq<char>) -> bool {
    exists|i: int|
        0 <= i < pairs.len() && (#[trigger] pairs[i]).0 == COOKIE_NAME@ && pairs[i].1 == cookie
}

fn has_pair(pairs: &Vec<(String, String)>, cookie: &str) -> (r: bool)
    ensures
        r == holds_cookie(pairs_of(pairs@), cookie@),
{
    let ghost all = pairs_of(pairs@);
    let mut i: usize = 0;
    while i < pairs.len()
        invariant
            i <= pairs.len(),
            all == pairs_of(pairs@),
            forall|k: int|
                0 <= k < i ==> !((#[trigger] all[k]).0 == COOKIE_NAME@ && all[k].1 == cookie@),
        decreases pairs.len() - i,
    {
        if same(pairs[i].0.as_str(), COOKIE_NAME) && same(pairs[i].1.as_str(), cookie) {
            assert(all[i as int].0 == COOKIE_NAME@);
            return true;
        }
        i = i + 1;
    }
    false
}

/// What is to be done to point Sober at an account.
#[derive(Debug)]
pub enum Swap {
    /// It is signed into this account already.
    Nothing,
    /// Write this jar.
    Write(String),
}

/// What switching accounts while the game runs is answered.
pub const CLOSE_FIRST: &'static str =
    "close Roblox first — Sober rewrites its session on exit, so switching accounts while it is running would be undone";

/// Point Sober at a different account. `jar` is what reading its cookies gave,
/// or nothing where there is no Sober.
///
/// A jar that holds the cookie already is left alone, running or not. Otherwise
/// it is refused while the game runs: Sober rewrites the jar on exit, so a swap
/// underneath a live session would be undone.
pub fn set_cookie(
    cookie: &str,
    jar: Option<std::result::Result<String, String>>,
    running: bool,
) -> (r: crate::launcher::Result<Swap>)
    ensures
        if cookie@.len() == 0 {
            r matches Err(Error::Launch(e)) && e@ == "refusing to write an empty cookie"@
        } else {
            match jar {
                None => r matches Err(e) && e is SoberMissing,
                Some(Err(why)) => r matches Err(Error::Launch(e)) && e@
                    == "could not read Sober's cookies: "@ + why@,
                Some(Ok(text)) => if holds_cookie(jar_pairs(text@), cookie@) {
                    r matches Ok(s) && s is Nothing
                } else if running {
                    r matches Err(Error::Launch(e)) && e@ == CLOSE_FIRST@
                } else {
                    r matches Ok(Swap::Write(out)) && out@ == jar_text(
                        with_value(jar_pairs(text@), COOKIE_NAME@, cookie@),
                    )
                },
            }
        },
{
    if cookie.is_empty() {
        return Err(Error::Launch("refusing to write an empty cookie".to_owned()));
    }
    let text = match jar {
        None => {
            return Err(Error::SoberMissing);
        },
        Some(Err(why)) => {
            return Err(Error::Launch(cat2("could not read Sober's cookies: ", why.as_str())));
        },
        Some(Ok(text)) => text,
    };
    let mut pairs = split_jar(text.as_str());
    if has_pair(&pairs, cookie) {
        return Ok(Swap::Nothing);
    }
    if running {
        return Err(Error::Launch(CLOSE_FIRST.to_owned()));
    }
    let ghost before = pairs_of(pairs@);
    match find_pair(&pairs, COOKIE_NAME) {
        Some(i) => {
            pairs.set(i, (COOKIE_NAME.to_owned(), cookie.to_owned()));
            assert(pairs_of(pairs@) =~= before.update(i as int, (COOKIE_NAME@, cookie@)));
        },
        None => {
            pairs.push((COOKIE_NAME.to_owned(), cookie.to_owned()));
            assert(pairs_of(pairs@) =~= before.push((COOKIE_NAME@, cookie@)));
        },
    }
    Ok(Swap::Write(join_jar(&pairs)))
}

proof fn lemma_pair_at(pairs: Seq<(Seq<char>, Seq<char>)>, name: Seq<char>, i: int)
    requires
        0 <= i,
    ensures
        match pair_at(pairs, name, i) {
            Some(k) => i <= k < pairs.len() && pairs[k].0 == name,
            None => forall|k: int| i <= k < pairs.len() ==> (#[trigger] pairs[k]).0 != name,
        },
    decreases pairs.len() - i,
{
    if i < pairs.len() && pairs[i].0 != name {
        lemma_pair_at(pairs, name, i + 1);
    }
}

/// Setting a cookie sets it, and changes no pair of another name: each stays
/// where it was, with the value it had.
pub proof fn law_other_cookies_are_kept(
    pairs: Seq<(Seq<char>, Seq<char>)>,
    name: Seq<char>,
    value: Seq<char>,
    k: int,
)
    ensures
        pairs.len() <= with_value(pairs, name, value).len() <= pairs.len() + 1,
        exists|i: int|
            0 <= i < with_value(pairs, name, value).len() && #[trigger] with_value(
                pairs,
                name,
                value,
            )[i] == (name, value),
        0 <= k < pairs.len() && pairs[k].0 != name ==> with_value(pairs, name, value)[k]
            == pairs[k],
{
    lemma_pair_at(pairs, name, 0);
    let out = with_value(pairs, name, value);
    match pair_at(pairs, name, 0) {
        Some(i) => {
            assert(out[i] == (name, value));
        },
        None => {
            assert(out[pairs.len() as int] == (name, value));
        },
    }
}

/// A pair that a jar can carry: a name without `=`, `;` or white space around
/// it, and a value without `;` or white space at its end.
pub open spec fn is_clean(p: (Seq<char>, Seq<char>)) -> bool {
    &&& trimmed(p.0) == p.0
    &&& trimmed(pair_text(p)) == pair_text(p)
    &&& forall|i: int| 0 <= i < p.0.len() ==> p.0[i] != ';' && p.0[i] != '='
    &&& forall|i: int| 0 <= i < p.1.len() ==> p.1[i] != ';'
}

/// The pairs but for those that are written as nothing: they have neither a name
/// nor a value.
pub open spec fn legible(pairs: Seq<(Seq<char>, Seq<char>)>) -> Seq<(Seq<char>, Seq<char>)>
    decreases pairs.len(),
{
    if pairs.len() == 0 {
        Seq::empty()
    } else if pair_text(pairs[0]).len() == 0 {
        legible(pairs.skip(1))
    } else {
        seq![pairs[0]] + legible(pairs.skip(1))
    }
}

proof fn lemma_pair_text_reads_back(p: (Seq<char>, Seq<char>))
    requires
        is_clean(p),
    ensures
        pair_text(p).len() > 0 ==> pair_of(pair_text(p)) == p,
        forall|i: int| 0 <= i < pair_text(p).len() ==> pair_text(p)[i] != ';',
{
    reveal_strlit("=");
    let t = pair_text(p);
    if p.1.len() == 0 {
        lemma_until_is(t, '=', t.len() as int);
        assert(p.1 =~= Seq::<char>::empty());
    } else {
        lemma_until_is(t, '=', p.0.len() as int);
        assert(t.take(p.0.len() as int) =~= p.0);
        assert(t.skip(p.0.len() as int + 1) =~= p.1);
    }
}

proof fn lemma_split_head(a: Seq<char>, b: Seq<char>)
    requires
        forall|i: int| 0 <= i < a.len() ==> a[i] != ';',
    ensures
        split_on(a + seq![';'] + b, ';') == seq![a] + split_on(b, ';'),
{
    let s = a + seq![';'] + b;
    lemma_until_is(s, ';', a.len() as int);
    assert(s.take(a.len() as int) =~= a);
    assert(s.skip(a.len() as int + 1) =~= b);
}

proof fn lemma_split_whole(a: Seq<char>)
    requires
        forall|i: int| 0 <= i < a.len() ==> a[i] != ';',
    ensures
        split_on(a, ';') == seq![a],
{
    lemma_until_is(a, ';', a.len() as int);
}

proof fn lemma_leading_space(s: Seq<char>)
    ensures
        pairs_in(split_on(seq![' '] + s, ';')) == pairs_in(split_on(s, ';')),
{
    let t = seq![' '] + s;
    lemma_until(s, ';');
    let k = until(s, ';') as int;
    assert forall|i: int| 0 <= i < k + 1 implies t[i] != ';' by {
        if i > 0 {
            assert(t[i] == s[i - 1]);
        }
    }
    lemma_until_is(t, ';', k + 1);
    let a = split_on(t, ';');
    let b = split_on(s, ';');
    if k < s.len() {
        assert(t.take(k + 1) =~= seq![' '] + s.take(k));
        assert(t.skip(k + 2) =~= s.skip(k + 1));
    } else {
        assert(s.take(k) =~= s);
    }
    assert(a[0] =~= seq![' '] + b[0]);
    assert(a.skip(1) =~= b.skip(1));
    assert((seq![' '] + b[0]).skip(1) =~= b[0]);
    assert(trimmed(a[0]) == trimmed(b[0]));
}

proof fn lemma_jar_head(pairs: Seq<(Seq<char>, Seq<char>)>)
    requires
        pairs.len() >= 2,
    ensures
        jar_text(pairs) == pair_text(pairs[0]) + "; "@ + jar_text(pairs.skip(1)),
    decreases pairs.len(),
{
    reveal_with_fuel(jar_text, 2);
    if pairs.len() == 2 {
        assert(pairs.drop_last() =~= seq![pairs[0]]);
        assert(pairs.skip(1) =~= seq![pairs[1]]);
    } else {
        lemma_jar_head(pairs.drop_last());
        assert(pairs.drop_last().skip(1) =~= pairs.skip(1).drop_last());
        assert(pairs.skip(1).last() == pairs.last());
        assert(jar_text(pairs) =~= pair_text(pairs[0]) + "; "@ + jar_text(pairs.skip(1)));
    }
}

/// Taking a jar apart undoes putting it together, for pairs that a jar can
/// carry. What is written as nothing is not read.
pub proof fn law_jars_read_back(pairs: Seq<(Seq<char>, Seq<char>)>)
    requires
        forall|i: int| 0 <= i < pairs.len() ==> is_clean(#[trigger] pairs[i]),
    ensures
        jar_pairs(jar_text(pairs)) == legible(pairs),
        (forall|i: int| 0 <= i < pairs.len() ==> pair_text(#[trigger] pairs[i]).len() > 0)
            ==> jar_pairs(jar_text(pairs)) == pairs,
    decreases pairs.len(),
{
    reveal_strlit("; ");
    reveal_with_fuel(pairs_in, 2);
    if pairs.len() == 0 {
        let s = Seq::<char>::empty();
        lemma_split_whole(s);
        assert(trimmed(s) =~= s);
        assert(seq![s].skip(1) =~= Seq::<Seq<char>>::empty());
        assert(jar_pairs(jar_text(pairs)) =~= pairs);
    } else {
        let head = pair_text(pairs[0]);
        let rest = pairs.skip(1);
        lemma_pair_text_reads_back(pairs[0]);
        assert forall|i: int| 0 <= i < rest.len() implies is_clean(#[trigger] rest[i]) by {
            assert(is_clean(pairs[i + 1]));
        }
        law_jars_read_back(rest);
        if pairs.len() == 1 {
            lemma_split_whole(head);
            assert(seq![head].skip(1) =~= Seq::<Seq<char>>::empty());
            assert(rest =~= Seq::<(Seq<char>, Seq<char>)>::empty());
            assert(jar_pairs(jar_text(pairs)) =~= legible(pairs));
        } else {
            let tail = jar_text(rest);
            lemma_jar_head(pairs);
            assert(jar_text(pairs) =~= head + seq![';'] + (seq![' '] + tail));
            lemma_split_head(head, seq![' '] + tail);
            let parts = split_on(seq![' '] + tail, ';');
            assert((seq![head] + parts).skip(1) =~= parts);
            lemma_leading_space(tail);
            assert(jar_pairs(jar_text(pairs)) =~= legible(pairs));
        }
        if forall|i: int| 0 <= i < pairs.len() ==> pair_text(#[trigger] pairs[i]).len() > 0 {
            assert forall|i: int| 0 <= i < rest.len() implies pair_text(#[trigger] rest[i]).len()
                > 0 by {
                assert(pair_text(pairs[i + 1]).len() > 0);
            }
            assert(pair_text(pairs[0]).len() > 0);
            assert(seq![pairs[0]] + rest =~= pairs);
        }
    }
}

/// No part of a text that was split holds what it was split on.
proof fn lemma_parts_are_whole(s: Seq<char>, k: int, i: int)
    requires
        0 <= k < split_on(s, ';').len(),
        0 <= i < split_on(s, ';')[k].len(),
    ensures
        split_on(s, ';')[k][i] != ';',
    decreases s.len(),
{
    lemma_until(s, ';');
    let u = until(s, ';') as int;
    if u < s.len() && k > 0 {
        assert(split_on(s, ';')[k] == split_on(s.skip(u + 1), ';')[k - 1]);
        lemma_parts_are_whole(s.skip(u + 1), k - 1, i);
    }
}

/// A name and a value, without white space at the outer ends, are written
/// without any there.
proof fn lemma_pair_text_is_trimmed(name: Seq<char>, value: Seq<char>)
    requires
        name.len() > 0 ==> !is_space_spec(name[0]) && !is_space_spec(name.last()),
        value.len() > 0 ==> !is_space_spec(value.last()),
    ensures
        trimmed(name) == name,
        trimmed(pair_text((name, value))) == pair_text((name, value)),
{
    reveal_strlit("=");
    lemma_trimmed_is(name);
    let t = pair_text((name, value));
    if value.len() > 0 {
        assert(t.last() == value.last());
        assert(t[0] == (if name.len() > 0 {
            name[0]
        } else {
            '='
        }));
        lemma_trimmed_is(t);
    }
}

/// A part of a jar is read as a pair that a jar can carry.
proof fn lemma_parts_are_clean(part: Seq<char>)
    requires
        part.len() > 0,
        !is_space_spec(part[0]),
        !is_space_spec(part.last()),
        forall|i: int| 0 <= i < part.len() ==> part[i] != ';',
    ensures
        is_clean(pair_of(part)),
{
    let p = pair_of(part);
    let k = until(part, '=') as int;
    lemma_until(part, '=');
    if k < part.len() {
        let name = part.take(k);
        let cut = lemma_trimmed(name);
        assert forall|i: int| 0 <= i < p.0.len() implies p.0[i] != ';' && p.0[i] != '=' by {
            assert(p.0[i] == part[cut.0 + i]);
        }
        assert forall|i: int| 0 <= i < p.1.len() implies p.1[i] != ';' by {
            assert(p.1[i] == part[k + 1 + i]);
        }
        if p.1.len() > 0 {
            assert(p.1.last() == part.last());
        }
    } else {
        assert(p.1.len() == 0);
    }
    lemma_pair_text_is_trimmed(p.0, p.1);
}

proof fn lemma_jars_are_clean(parts: Seq<Seq<char>>, i: int)
    requires
        0 <= i < pairs_in(parts).len(),
        forall|k: int, j: int|
            0 <= k < parts.len() && 0 <= j < parts[k].len() ==> #[trigger] parts[k][j] != ';',
    ensures
        is_clean(pairs_in(parts)[i]),
    decreases parts.len(),
{
    let rest = parts.skip(1);
    let part = trimmed(parts[0]);
    assert forall|k: int, j: int|
        0 <= k < rest.len() && 0 <= j < rest[k].len() implies #[trigger] rest[k][j] != ';' by {
        assert(parts[k + 1][j] != ';');
    }
    let cut = lemma_trimmed(parts[0]);
    if part.len() == 0 {
        lemma_jars_are_clean(rest, i);
    } else if i > 0 {
        lemma_jars_are_clean(rest, i - 1);
    } else {
        assert forall|j: int| 0 <= j < part.len() implies part[j] != ';' by {
            assert(part[j] == parts[0][cut.0 + j]);
        }
        lemma_parts_are_clean(part);
    }
}

/// What a pair's place becomes where the pairs before it have other names.
proof fn lemma_legible_finds(pairs: Seq<(Seq<char>, Seq<char>)>, name: Seq<char>, j: int) -> (i: int)
    requires
        0 <= j < pairs.len(),
        pair_text(pairs[j]).len() > 0,
        forall|k: int| 0 <= k < j ==> (#[trigger] pairs[k]).0 != name,
    ensures
        0 <= i < legible(pairs).len(),
        legible(pairs)[i] == pairs[j],
        forall|k: int| 0 <= k < i ==> (#[trigger] legible(pairs)[k]).0 != name,
    decreases pairs.len(),
{
    let rest = pairs.skip(1);
    if j == 0 {
        0
    } else {
        assert forall|k: int| 0 <= k < j - 1 implies (#[trigger] rest[k]).0 != name by {
            assert(pairs[k + 1].0 != name);
        }
        let i = lemma_legible_finds(rest, name, j - 1);
        if pair_text(pairs[0]).len() == 0 {
            i
        } else {
            assert forall|k: int| 0 <= k < i + 1 implies (#[trigger] legible(pairs)[k]).0
                != name by {
                if k > 0 {
                    assert(legible(pairs)[k] == legible(rest)[k - 1]);
                }
            }
            i + 1
        }
    }
}

/// After an account was switched, its cookie is the one that is read, and every
/// other cookie of the jar is read as before.
pub proof fn law_the_cookie_written_is_read(jar: Seq<char>, cookie: Seq<char>)
    requires
        cookie.len() > 0,
        !is_space_spec(cookie.last()),
        forall|i: int| 0 <= i < cookie.len() ==> cookie[i] != ';',
    ensures
        jar_cookie(jar_text(with_value(jar_pairs(jar), COOKIE_NAME@, cookie))) == Some(cookie),
        jar_pairs(jar_text(with_value(jar_pairs(jar), COOKIE_NAME@, cookie))) == legible(
            with_value(jar_pairs(jar), COOKIE_NAME@, cookie),
        ),
{
    reveal_strlit(".ROBLOSECURITY");
    reveal_strlit("=");
    let name = COOKIE_NAME@;
    let before = jar_pairs(jar);
    let after = with_value(before, name, cookie);
    let parts = split_on(jar, ';');
    assert forall|k: int, j: int|
        0 <= k < parts.len() && 0 <= j < parts[k].len() implies #[trigger] parts[k][j] != ';' by {
        lemma_parts_are_whole(jar, k, j);
    }
    let own = (name, cookie);
    lemma_pair_text_is_trimmed(name, cookie);
    assert(is_clean(own));
    lemma_pair_at(before, name, 0);
    lemma_first_pair(before, name, 0);
    assert forall|i: int| 0 <= i < after.len() implies is_clean(#[trigger] after[i]) by {
        if i < before.len() && after[i] == before[i] {
            lemma_jars_are_clean(parts, i);
        }
    }
    law_jars_read_back(after);
    let j = match pair_at(before, name, 0) {
        Some(j) => j,
        None => before.len() as int,
    };
    assert(after[j] == own);
    let i = lemma_legible_finds(after, name, j);
    let read = legible(after);
    lemma_pair_at(read, name, 0);
    lemma_first_pair(read, name, 0);
}

/// The place that is found is the first of its name.
proof fn lemma_first_pair(pairs: Seq<(Seq<char>, Seq<char>)>, name: Seq<char>, i: int)
    requires
        0 <= i,
    ensures
        pair_at(pairs, name, i) matches Some(k) ==> forall|j: int|
            i <= j < k ==> (#[trigger] pairs[j]).0 != name,
    decreases pairs.len() - i,
{
    if i < pairs.len() && pairs[i].0 != name {
        lemma_first_pair(pairs, name, i + 1);
    }
}

/// How long a line is without its comment: up to the first `//` outside a
/// string. Within a string a backslash takes the meaning from what follows it.
pub open spec fn code_length(line: Seq<char>, i: int, in_string: bool, escaped: bool) -> int
    decreases line.len() - i,
{
    if i < 0 || i >= line.len() {
        line.len() as int
    } else if escaped {
        code_length(line, i + 1, in_string, false)
    } else if line[i] == '\\' && in_string {
        code_length(line, i + 1, in_string, true)
    } else if line[i] == '"' {
        code_length(line, i + 1, !in_string, false)
    } else if line[i] == '/' && !in_string && i + 1 < line.len() && line[i + 1] == '/' {
        i
    } else {
        code_length(line, i + 1, in_string, false)
    }
}

/// A line without its comment.
pub open spec fn without_comment(line: Seq<char>) -> Seq<char> {
    line.take(code_length(line, 0, false, false))
}

/// The lines, each without its comment and with a line feed behind it.
pub open spec fn stripped_lines(lines: Seq<Seq<char>>) -> Seq<char>
    decreases lines.len(),
{
    if lines.len() == 0 {
        Seq::empty()
    } else {
        without_comment(lines[0]).push('\n') + stripped_lines(lines.skip(1))
    }
}

proof fn lemma_code_length(line: Seq<char>, i: int, in_string: bool, escaped: bool)
    requires
        0 <= i <= line.len(),
    ensures
        i <= code_length(line, i, in_string, escaped) <= line.len(),
    decreases line.len() - i,
{
    if i < line.len() {
        if escaped {
            lemma_code_length(line, i + 1, in_string, false);
        } else if line[i] == '\\' && in_string {
            lemma_code_length(line, i + 1, in_string, true);
        } else if line[i] == '"' {
            lemma_code_length(line, i + 1, !in_string, false);
        } else if line[i] == '/' && !in_string && i + 1 < line.len() && line[i + 1] == '/' {
        } else {
            lemma_code_length(line, i + 1, in_string, false);
        }
    }
}

/// Where the comment of a line starts, or its end.
fn comment_start(v: &Vec<char>, from: usize, to: usize) -> (cut: usize)
    requires
        from <= to <= v.len(),
    ensures
        cut == from + code_length(v@.subrange(from as int, to as int), 0, false, false),
        from <= cut <= to,
{
    let ghost line = v@.subrange(from as int, to as int);
    let mut in_string = false;
    let mut escaped = false;
    let mut i: usize = from;
    while i < to
        invariant
            from <= i <= to <= v.len(),
            line == v@.subrange(from as int, to as int),
            code_length(line, 0, false, false) == code_length(line, i - from, in_string, escaped),
        decreases to - i,
    {
        let c = v[i];
        assert(line[i - from] == c);
        if escaped {
            escaped = false;
        } else if c == '\\' && in_string {
            escaped = true;
        } else if c == '"' {
            in_string = !in_string;
        } else if c == '/' && !in_string && i + 1 < to && v[i + 1] == '/' {
            assert(line[i - from + 1] == v@[i + 1]);
            return i;
        } else if c == '/' && !in_string && i + 1 < to {
            assert(line[i - from + 1] == v@[i + 1]);
        }
        i = i + 1;
    }
    to
}

/// Strip the `//` comments, so that the file can be read as JSON. Quotes are
/// followed, so a `//` inside a string survives.
pub fn strip_comments(text: &str) -> (out: String)
    ensures
        out@ == stripped_lines(lines_of(text@)),
{
    let v = chars_of(text);
    let mut out = String::new();
    let mut start: usize = 0;
    assert(v@.skip(0) =~= v@);
    assert(out@ + stripped_lines(lines_of(text@)) =~= stripped_lines(lines_of(text@)));
    while start < v.len()
        invariant
            start <= v.len(),
            v@ == text@,
            out@ + stripped_lines(lines_of(v@.skip(start as int))) == stripped_lines(
                lines_of(text@),
            ),
        decreases v.len() - start,
    {
        let ghost rest = v@.skip(start as int);
        let ghost before = out@;
        let k: usize = run_until(&v, '\n', start);
        let ended = start + k < v.len();
        let end: usize = if ended && k > 0 && v[start + k - 1] == '\r' {
            start + k - 1
        } else {
            start + k
        };
        let ghost line = if ended {
            without_return(rest.take(k as int))
        } else {
            rest
        };
        assert(v@.subrange(start as int, end as int) =~= line) by {
            if ended {
                if k > 0 {
                    assert(rest.take(k as int).last() == v@[start + k - 1]);
                }
            } else {
                assert(k == rest.len());
            }
        }
        let cut: usize = comment_start(&v, start, end);
        let code = range_text(&v, start, cut);
        assert(code@ =~= without_comment(line));
        out.append(code.as_str());
        out.push('\n');
        assert(out@ =~= before + without_comment(line).push('\n'));
        if ended {
            let ghost tail = lines_of(v@.skip(start + k + 1));
            assert(rest.skip(k as int + 1) =~= v@.skip(start + k + 1));
            assert(lines_of(rest) =~= seq![line] + tail);
            assert((seq![line] + tail).skip(1) =~= tail);
            assert(before + (without_comment(line).push('\n') + stripped_lines(tail)) =~= out@
                + stripped_lines(tail));
            start = start + k + 1;
        } else {
            assert(lines_of(rest) =~= seq![line]);
            assert(seq![line].skip(1) =~= Seq::<Seq<char>>::empty());
            assert(stripped_lines(seq![line].skip(1)) =~= Seq::<char>::empty());
            assert(stripped_lines(seq![line]) =~= without_comment(line).push('\n'));
            start = v.len();
            assert(v@.skip(start as int) =~= Seq::<char>::empty());
            assert(out@ + stripped_lines(lines_of(v@.skip(start as int))) =~= before
                + stripped_lines(lines_of(rest)));
        }
    }
    assert(v@.skip(start as int) =~= Seq::<char>::empty());
    assert(out@ + Seq::<char>::empty() =~= out@);
    out
}

proof fn lemma_lines_hold_no_feed(s: Seq<char>, i: int, j: int)
    requires
        0 <= i < lines_of(s).len(),
        0 <= j < lines_of(s)[i].len(),
    ensures
        lines_of(s)[i][j] != '\n',
    decreases s.len(),
{
    lemma_until(s, '\n');
    let k = until(s, '\n');
    if k < s.len() && i > 0 {
        lemma_lines_hold_no_feed(s.skip(k as int + 1), i - 1, j);
    }
}

proof fn lemma_feed_ends_line(line: Seq<char>, rest: Seq<char>)
    requires
        forall|j: int| 0 <= j < line.len() ==> line[j] != '\n',
    ensures
        lines_of(line.push('\n') + rest).len() == 1 + lines_of(rest).len(),
{
    let s = line.push('\n') + rest;
    lemma_until_is(s, '\n', line.len() as int);
    assert(s.skip(line.len() as int + 1) =~= rest);
}

proof fn lemma_stripping_keeps_lines(lines: Seq<Seq<char>>)
    requires
        forall|i: int, j: int|
            0 <= i < lines.len() && 0 <= j < lines[i].len() ==> #[trigger] lines[i][j] != '\n',
    ensures
        lines_of(stripped_lines(lines)).len() == lines.len(),
    decreases lines.len(),
{
    if lines.len() > 0 {
        let code = without_comment(lines[0]);
        lemma_code_length(lines[0], 0, false, false);
        assert forall|j: int| 0 <= j < code.len() implies code[j] != '\n' by {
            assert(code[j] == lines[0][j]);
        }
        assert forall|i: int, j: int|
            0 <= i < lines.skip(1).len() && 0 <= j < lines.skip(1)[i].len() implies
            #[trigger] lines.skip(1)[i][j] != '\n' by {
            assert(lines[i + 1][j] != '\n');
        }
        lemma_stripping_keeps_lines(lines.skip(1));
        lemma_feed_ends_line(code, stripped_lines(lines.skip(1)));
    }
}

/// Stripping never loses a line, so a position in the file stays a position in
/// what is read.
pub proof fn law_stripping_keeps_every_line(text: Seq<char>)
    ensures
        lines_of(stripped_lines(lines_of(text))).len() == lines_of(text).len(),
{
    let lines = lines_of(text);
    assert forall|i: int, j: int|
        0 <= i < lines.len() && 0 <= j < lines[i].len() implies #[trigger] lines[i][j] != '\n' by {
        lemma_lines_hold_no_feed(text, i, j);
    }
    lemma_stripping_keeps_lines(lines);
}

proof fn lemma_no_slashes_no_comment(line: Seq<char>, i: int, in_string: bool, escaped: bool)
    requires
        0 <= i <= line.len(),
        forall|k: int| 0 <= k < line.len() - 1 ==> !(#[trigger] line[k] == '/' && line[k + 1] == '/'),
    ensures
        code_length(line, i, in_string, escaped) == line.len(),
    decreases line.len() - i,
{
    if i < line.len() {
        if escaped {
            lemma_no_slashes_no_comment(line, i + 1, in_string, false);
        } else if line[i] == '\\' && in_string {
            lemma_no_slashes_no_comment(line, i + 1, in_string, true);
        } else if line[i] == '"' {
            lemma_no_slashes_no_comment(line, i + 1, !in_string, false);
        } else {
            lemma_no_slashes_no_comment(line, i + 1, in_string, false);
        }
    }
}

/// A line without two slashes in a row is left as it is.
pub proof fn law_plain_lines_are_untouched(line: Seq<char>)
    requires
        forall|k: int| 0 <= k < line.len() - 1 ==> !(#[trigger] line[k] == '/' && line[k + 1] == '/'),
    ensures
        without_comment(line) == line,
{
    lemma_no_slashes_no_comment(line, 0, false, false);
    assert(line.take(line.len() as int) =~= line);
}

/// A flag's value, typed the way the engine expects it.
#[derive(Debug, Clone)]
pub enum FlagValue {
    Bool(bool),
    Int(i64),
    Text(String),
}

/// A flag's value, as a matter of what it says.
pub ghost enum FlagShape {
    Bool(bool),
    Int(i64),
    Text(Seq<char>),
}

pub open spec fn shape_of(v: FlagValue) -> FlagShape {
    match v {
        FlagValue::Bool(b) => FlagShape::Bool(b),
        FlagValue::Int(n) => FlagShape::Int(n),
        FlagValue::Text(t) => FlagShape::Text(t@),
    }
}

/// `true` and `false` are booleans, integers are numbers, the rest is text.
pub open spec fn flag_value(value: Seq<char>) -> FlagShape {
    if value == "true"@ {
        FlagShape::Bool(true)
    } else if value == "false"@ {
        FlagShape::Bool(false)
    } else {
        match read_i64(value) {
            Some(n) => FlagShape::Int(n),
            None => FlagShape::Text(value),
        }
    }
}

pub open spec fn typed_is(v: FlagValue, value: Seq<char>) -> bool {
    shape_of(v) == flag_value(value)
}

/// Type a value. A boolean sent as text is ignored by the engine.
pub fn typed_flag(value: &str) -> (v: FlagValue)
    ensures
        typed_is(v, value@),
{
    if same(value, "true") {
        FlagValue::Bool(true)
    } else if same(value, "false") {
        FlagValue::Bool(false)
    } else {
        match parse_i64(value) {
            Some(n) => FlagValue::Int(n),
            None => FlagValue::Text(value.to_owned()),
        }
    }
}

/// A boolean never ends up as text.
pub proof fn law_booleans_are_never_text(v: FlagValue, value: Seq<char>)
    requires
        typed_is(v, value),
        value == "true"@ || value == "false"@,
    ensures
        v matches FlagValue::Bool(b) && b == (value == "true"@),
{
    reveal_strlit("true");
    reveal_strlit("false");
    assert("true"@.len() != "false"@.len());
}

/// The flags are these, in this order.
pub open spec fn flags_are(
    out: Seq<(String, FlagValue)>,
    flags: Seq<(Seq<char>, FlagShape)>,
) -> bool {
    &&& out.len() == flags.len()
    &&& forall|i: int|
        0 <= i < out.len() ==> (#[trigger] out[i]).0@ == flags[i].0 && shape_of(out[i].1)
            == flags[i].1
}

/// The flag is written: every one but the placeholder.
pub open spec fn kept_flag(name: Seq<char>) -> bool {
    name != PLACEHOLDER_FLAG@
}

pub open spec fn sober_flags(flags: Seq<(String, String)>) -> Seq<(Seq<char>, FlagShape)>
    decreases flags.len(),
{
    if flags.len() == 0 {
        Seq::empty()
    } else {
        let earlier = sober_flags(flags.drop_last());
        if kept_flag(flags.last().0@) {
            earlier.push((flags.last().0@, flag_value(flags.last().1@)))
        } else {
            earlier
        }
    }
}

/// The whole flag set as it is written, each value typed. A later flag of the
/// same name stands behind an earlier one.
pub fn typed_flags(flags: &Vec<(String, String)>) -> (out: Vec<(String, FlagValue)>)
    ensures
        flags_are(out@, sober_flags(flags@)),
{
    let mut out: Vec<(String, FlagValue)> = Vec::new();
    let mut i: usize = 0;
    assert(flags@.take(0) =~= Seq::<(String, String)>::empty());
    while i < flags.len()
        invariant
            i <= flags.len(),
            flags_are(out@, sober_flags(flags@.take(i as int))),
        decreases flags.len() - i,
    {
        assert(flags@.take(i as int + 1).drop_last() =~= flags@.take(i as int));
        assert(flags@.take(i as int + 1).last() == flags@[i as int]);
        if !same(flags[i].0.as_str(), PLACEHOLDER_FLAG) {
            let value = typed_flag(flags[i].1.as_str());
            out.push((flags[i].0.clone(), value));
        }
        i = i + 1;
    }
    assert(flags@.take(flags@.len() as int) =~= flags@);
    out
}

/// The settings file as a document: without its comments, or empty where there is
/// none that can be read.
pub open spec fn settings_doc(config: Option<&str>) -> Seq<char> {
    match config {
        Some(c) => {
            let code = plain(c@);
            if object_kind(code, Seq::empty()) is Some {
                code
            } else {
                "{}"@
            }
        },
        None => "{}"@,
    }
}

fn read_config(config: Option<&str>) -> (doc: String)
    ensures
        doc@ == settings_doc(config),
{
    let top = "";
    proof {
        reveal_strlit("");
        assert(top@ =~= Seq::<char>::empty());
    }
    match config {
        Some(c) => {
            let code = strip_comments(c);
            if json_kind(code.as_str(), top).is_some() {
                code
            } else {
                json_object()
            }
        },
        None => json_object(),
    }
}

/// The game overwrites its settings when it exits, so they are not changed while
/// it runs.
pub open spec fn refusal(running: bool, has_home: bool) -> Option<Seq<char>> {
    if running {
        Some("close Roblox first — Sober overwrites its settings when it exits"@)
    } else if !has_home {
        Some("no HOME set"@)
    } else {
        None
    }
}

fn refused(running: bool, has_home: bool) -> (r: Option<String>)
    ensures
        opt_text(r) == refusal(running, has_home),
{
    if running {
        Some("close Roblox first — Sober overwrites its settings when it exits".to_owned())
    } else if !has_home {
        Some("no HOME set".to_owned())
    } else {
        None
    }
}

/// A document with one setting changed: it reads back, and every other is as it
/// was.
pub open spec fn setting_written(
    doc: Seq<char>,
    t: Seq<char>,
    key: Seq<char>,
    value: Seq<char>,
) -> bool {
    &&& is_document(t)
    &&& is_uncommented(t)
    &&& member(t, key) == Some(value)
    &&& keeps_others(doc, t, key)
}

/// A document with an object put in: its members are listed, and every other
/// setting is as it was.
pub open spec fn object_written(
    doc: Seq<char>,
    t: Seq<char>,
    key: Seq<char>,
    value: Seq<char>,
) -> bool {
    &&& is_document(t)
    &&& is_uncommented(t)
    &&& object_at(t, "/"@ + key) matches Some(pairs) && lists(pairs, value)
    &&& keeps_others(doc, t, key)
}

/// Change one setting at the top of the file, leaving every other as it is. Gives
/// the file as it is to be written. `value` is JSON.
pub fn set_config_key(
    running: bool,
    has_home: bool,
    config: Option<&str>,
    key: &str,
    value: &str,
) -> (r: crate::launcher::Result<String>)
    requires
        is_json(value@),
    ensures
        ({
            let doc = settings_doc(config);
            match r {
                Ok(t) => {
                    &&& refusal(running, has_home) is None
                    &&& is_document(doc)
                    &&& inserted(doc, Seq::empty(), key@, value@) == Some(t@)
                    &&& is_canonical(value@) ==> setting_written(doc, t@, key@, value@)
                    &&& is_flat(value@) && is_plain_key(key@) ==> object_written(
                        doc,
                        t@,
                        key@,
                        value@,
                    )
                },
                Err(Error::Launch(e)) => match refusal(running, has_home) {
                    Some(words) => e@ == words,
                    None => !is_document(doc) && e@ == "Sober's config is not an object"@,
                },
                Err(_) => false,
            }
        }),
{
    match refused(running, has_home) {
        Some(words) => {
            return Err(Error::Launch(words));
        },
        None => {},
    }
    let top = "";
    proof {
        reveal_strlit("");
        assert(top@ =~= Seq::<char>::empty());
    }
    let doc = read_config(config);
    match json_insert(doc.as_str(), top, key, value) {
        Some(t) => Ok(t),
        None => Err(Error::Launch("Sober's config is not an object".to_owned())),
    }
}

/// A file whose flags are these and no others; of several of one name the last.
pub open spec fn flags_written(t: Seq<char>, flags: Seq<(Seq<char>, FlagShape)>) -> bool {
    &&& is_uncommented(t)
    &&& object_at(t, "/fflags"@) matches Some(pairs) && {
        &&& forall|i: int| 0 <= i < pairs.len() ==> is_flag_of(flags, (#[trigger] pairs[i]).0)
        &&& forall|i: int|
            0 <= i < flags.len() && is_last_of_name(flags, i) ==> pairs.contains(
                ((#[trigger] flags[i]).0, shape_text(flags[i].1)),
            )
    }
}

/// Replace the whole flag set. Gives the file as it is to be written.
pub fn write_fflags(
    flags: &Vec<(String, String)>,
    running: bool,
    has_home: bool,
    config: Option<&str>,
) -> (r: crate::launcher::Result<String>)
    ensures
        ({
            let doc = settings_doc(config);
            match r {
                Ok(t) => {
                    &&& refusal(running, has_home) is None
                    &&& is_document(doc)
                    &&& exists|set: Seq<char>| #[trigger]
                        holds_flags(set, sober_flags(flags@)) && inserted(
                            doc,
                            Seq::empty(),
                            "fflags"@,
                            set,
                        ) == Some(t@)
                    &&& flags_written(t@, sober_flags(flags@))
                    &&& keeps_others(doc, t@, "fflags"@)
                },
                Err(Error::Launch(e)) => match refusal(running, has_home) {
                    Some(words) => e@ == words,
                    None => !is_document(doc) && e@ == "Sober's config is not an object"@,
                },
                Err(_) => false,
            }
        }),
{
    let typed = typed_flags(flags);
    let set = flags_document(&typed);
    assert(shapes(typed@) =~= sober_flags(flags@));
    let ghost all = sober_flags(flags@);
    proof {
        assert(holds_flags(set@, all));
        lemma_flags_are_flat(set@, all);
        lemma_fflags_pointer();
    }
    let r = set_config_key(running, has_home, config, "fflags", set.as_str());
    proof {
        if r is Ok {
            let t = r->Ok_0;
            let pairs = object_at(t@, "/fflags"@)->0;
            assert forall|i: int| 0 <= i < pairs.len() implies is_flag_of(
                all,
                (#[trigger] pairs[i]).0,
            ) by {
                assert(member(set@, pairs[i].0) is Some);
            }
            assert forall|i: int|
                0 <= i < all.len() && is_last_of_name(all, i) implies pairs.contains(
                ((#[trigger] all[i]).0, shape_text(all[i].1)),
            ) by {
                assert(member(set@, all[i].0) == Some(shape_json(all[i].1)));
            }
            assert(flags_written(t@, all));
        }
    }
    r
}

/// The document with an object of flags in it.
pub open spec fn with_flags(doc: Seq<char>) -> Option<Seq<char>> {
    if object_kind(doc, "/fflags"@) is None {
        inserted(doc, Seq::empty(), "fflags"@, "{}"@)
    } else {
        Some(doc)
    }
}

/// The document with one flag set, or taken out where the value is empty.
pub open spec fn with_flag(doc: Seq<char>, name: Seq<char>, value: Seq<char>) -> Option<Seq<char>> {
    if value.len() == 0 {
        removed(doc, "/fflags"@, name)
    } else {
        inserted(doc, "/fflags"@, name, shape_json(flag_value(value)))
    }
}

/// A file with one flag set, or taken out where the value is empty: it is listed
/// so, and the others are as they were.
pub open spec fn flag_written(
    base: Seq<char>,
    t: Seq<char>,
    name: Seq<char>,
    value: Seq<char>,
) -> bool {
    &&& is_uncommented(t)
    &&& keeps_names(base, t, "/fflags"@, name)
    &&& keeps_members(base, t, "/fflags"@, name)
    &&& object_at(t, "/fflags"@) matches Some(pairs) && (if value.len() == 0 {
        !names(pairs, name)
    } else {
        pairs.contains((name, shape_text(flag_value(value))))
    })
}

/// Add or replace a flag; an empty value removes it. Gives the file as it is to
/// be written.
pub fn set_fflag(
    name: &str,
    value: &str,
    running: bool,
    has_home: bool,
    config: Option<&str>,
) -> (r: crate::launcher::Result<String>)
    ensures
        ({
            let doc = settings_doc(config);
            match r {
                Ok(t) => {
                    &&& trimmed(name@).len() > 0
                    &&& refusal(running, has_home) is None
                    &&& with_flags(doc) matches Some(base) && with_flag(
                        base,
                        trimmed(name@),
                        trimmed(value@),
                    ) == Some(t@) && flag_written(base, t@, trimmed(name@), trimmed(value@))
                    &&& keeps_others(doc, t@, "fflags"@)
                },
                Err(Error::Launch(e)) => if trimmed(name@).len() == 0 {
                    e@ == "a flag needs a name"@
                } else if !is_document(doc) {
                    e@ == "Sober's config is not an object"@
                } else if object_kind(doc, "/fflags"@) == Some(false) {
                    e@ == "fflags is not an object"@
                } else {
                    refusal(running, has_home) == Some(e@)
                },
                Err(_) => false,
            }
        }),
{
    let name = trim(name);
    if name.as_str().is_empty() {
        return Err(Error::Launch("a flag needs a name".to_owned()));
    }
    let top = "";
    proof {
        reveal_strlit("");
        assert(top@ =~= Seq::<char>::empty());
        lemma_fflags_pointer();
    }
    let doc = read_config(config);
    match json_kind(doc.as_str(), top) {
        Some(true) => {},
        _ => {
            return Err(Error::Launch("Sober's config is not an object".to_owned()));
        },
    }
    let empty = json_object();
    assert(is_flat(empty@));
    let base = match json_kind(doc.as_str(), "/fflags") {
        Some(true) => doc,
        Some(false) => {
            return Err(Error::Launch("fflags is not an object".to_owned()));
        },
        None => match json_insert(doc.as_str(), top, "fflags", empty.as_str()) {
            Some(t) => t,
            None => {
                assert(false);
                doc
            },
        },
    };
    let value = trim(value);
    let edited = if value.as_str().is_empty() {
        json_remove(base.as_str(), "/fflags", name.as_str())
    } else {
        let v = typed_flag(value.as_str());
        let json = flag_json(&v);
        assert(json@ == shape_json(flag_value(value@)));
        json_insert(base.as_str(), "/fflags", name.as_str(), json.as_str())
    };
    proof {
        let before = settings_doc(config);
        assert(keeps_others(before, base@, "fflags"@));
        if edited is Some {
            let after = edited->0@;
            assert(keeps_rest(base@, after, "/fflags"@));
            assert(is_plain_key("fflags"@));
            assert(keeps_others(base@, after, "fflags"@));
            assert(keeps_others(before, after, "fflags"@));
        }
    }
    match (refused(running, has_home), edited) {
        (Some(words), _) => Err(Error::Launch(words)),
        (None, Some(t)) => Ok(t),
        (None, None) => {
            assert(false);
            Ok(base)
        },
    }
}

proof fn lemma_fflags_pointer()
    ensures
        is_plain_key("fflags"@),
        "/"@ + "fflags"@ == "/fflags"@,
{
    reveal_strlit("/");
    reveal_strlit("fflags");
    reveal_strlit("/fflags");
    assert("/"@ + "fflags"@ =~= "/fflags"@);
    assert forall|i: int| 0 <= i < "fflags"@.len() implies "fflags"@[i] != '/' && "fflags"@[i]
        != '~' by {}
}

/// The members of the object at a JSON pointer in a document, in order: the name,
/// what a string holds, and the value as JSON. Nothing where there is no such
/// object.
pub uninterp spec fn members_at(text: Seq<char>, pointer: Seq<char>) -> Option<
    Seq<(Seq<char>, Option<Seq<char>>, Seq<char>)>,
>;

/// A member as it is shown: the name, and a string as it is, any other value as
/// JSON.
pub open spec fn shown_member(m: (Seq<char>, Option<Seq<char>>, Seq<char>)) -> (
    Seq<char>,
    Seq<char>,
) {
    match m.1 {
        Some(s) => (m.0, s),
        None => (m.0, m.2),
    }
}

pub open spec fn shown_members(members: Seq<(Seq<char>, Option<Seq<char>>, Seq<char>)>) -> Seq<
    (Seq<char>, Seq<char>),
> {
    members.map_values(|m: (Seq<char>, Option<Seq<char>>, Seq<char>)| shown_member(m))
}

/// The members of the object at a JSON pointer in a document: names in order,
/// and values as they are shown. Nothing where there is no such object.
pub open spec fn object_at(text: Seq<char>, pointer: Seq<char>) -> Option<
    Seq<(Seq<char>, Seq<char>)>,
> {
    match members_at(text, pointer) {
        Some(members) => Some(shown_members(members)),
        None => None,
    }
}

pub open spec fn opt_pairs(
    v: Option<Vec<(String, String)>>,
) -> Option<Seq<(Seq<char>, Seq<char>)>> {
    match v {
        Some(p) => Some(pairs_of(p@)),
        None => None,
    }
}

pub open spec fn members_of(v: Seq<(String, Option<String>, String)>) -> Seq<
    (Seq<char>, Option<Seq<char>>, Seq<char>),
> {
    v.map_values(|m: (String, Option<String>, String)| (m.0@, opt_text(m.1), m.2@))
}

/// Reads `text` with `serde_json::from_str`, takes the object at `pointer` with
/// `Value::pointer` and `Value::as_object`, and hands out its members: the name,
/// `Value::as_str`, and `Value::to_string`. The contract gives the result a name: it
/// depends on the arguments alone. It says that there is a list exactly where there
/// is an object, and, for an empty pointer, which stands for the whole document, that
/// its members are listed.
#[verifier::external_body]
fn json_members(text: &str, pointer: &str) -> (r: Option<Vec<(String, Option<String>, String)>>)
    ensures
        match r {
            Some(list) => members_at(text@, pointer@) == Some(members_of(list@)),
            None => members_at(text@, pointer@) is None,
        },
        r is Some <==> object_kind(text@, pointer@) == Some(true),
        r matches Some(list) ==> pointer@.len() == 0 ==> lists(
            shown_members(members_of(list@)),
            text@,
        ),
{
    let value: serde_json::Value = serde_json::from_str(text).ok()?;
    let map = value.pointer(pointer)?.as_object()?;
    Some(map.iter().map(|(k, v)| (k.clone(), v.as_str().map(str::to_owned), v.to_string())).collect())
}

/// The members of the object at a JSON pointer in a document, as they are shown.
pub(crate) fn json_object_at(text: &str, pointer: &str) -> (r: Option<Vec<(String, String)>>)
    ensures
        opt_pairs(r) == object_at(text@, pointer@),
        r is Some <==> object_kind(text@, pointer@) == Some(true),
        r matches Some(list) ==> pointer@.len() == 0 ==> lists(pairs_of(list@), text@),
{
    match json_members(text, pointer) {
        Some(members) => {
            let ghost all = shown_members(members_of(members@));
            let mut out: Vec<(String, String)> = Vec::new();
            let mut i: usize = 0;
            while i < members.len()
                invariant
                    i <= members.len(),
                    all == shown_members(members_of(members@)),
                    out.len() == i,
                    forall|k: int|
                        0 <= k < i ==> ((#[trigger] out@[k]).0@, out@[k].1@) == all[k],
                decreases members.len() - i,
            {
                let value = match &members[i].1 {
                    Some(s) => s.clone(),
                    None => members[i].2.clone(),
                };
                out.push((members[i].0.clone(), value));
                i = i + 1;
            }
            assert(pairs_of(out@) =~= all);
            Some(out)
        },
        None => None,
    }
}

/// `out` is the flags but the placeholder, by name: `from` says where each came
/// from, and flags of one name keep their order.
pub open spec fn flags_listed(
    pairs: Seq<(Seq<char>, Seq<char>)>,
    out: Seq<(Seq<char>, Seq<char>)>,
    from: Seq<usize>,
) -> bool {
    &&& from.len() == out.len()
    &&& forall|i: int|
        0 <= i < out.len() ==> (#[trigger] from[i]) < pairs.len() && out[i] == pairs[from[i] as int]
            && kept_flag(out[i].0)
    &&& forall|i: int, j: int|
        0 <= i < j < out.len() ==> #[trigger] from[i] != #[trigger] from[j] && text_le(
            out[i].0,
            out[j].0,
        ) && (text_le(out[j].0, out[i].0) ==> from[i] < from[j])
    &&& forall|k: int|
        0 <= k < pairs.len() && kept_flag((#[trigger] pairs[k]).0) ==> exists|j: int|
            0 <= j < from.len() && #[trigger] from[j] == k
}

/// `out` is the flags but the placeholder, by name.
pub open spec fn flags_shown(
    pairs: Seq<(Seq<char>, Seq<char>)>,
    out: Seq<(Seq<char>, Seq<char>)>,
) -> bool {
    exists|from: Seq<usize>| #[trigger] flags_listed(pairs, out, from)
}

/// The flags that are set, by name.
pub fn fflags_of(pairs: &Vec<(String, String)>) -> (out: Vec<(String, String)>)
    ensures
        flags_shown(pairs_of(pairs@), pairs_of(out@)),
{
    let ghost all = pairs_of(pairs@);
    let mut kept: Vec<usize> = Vec::new();
    let mut keys: Vec<SortKey> = Vec::new();
    let mut i: usize = 0;
    while i < pairs.len()
        invariant
            i <= pairs.len(),
            all == pairs_of(pairs@),
            keys.len() == kept.len(),
            forall|k: int|
                0 <= k < kept.len() ==> #[trigger] kept@[k] < i && kept_flag(
                    all[kept@[k] as int].0,
                ),
            forall|k: int|
                0 <= k < kept.len() ==> (#[trigger] keys@[k]).first == 0 && keys@[k].second == 0
                    && keys@[k].name@ == all[kept@[k] as int].0,
            forall|j: int, k: int|
                0 <= j < k < kept.len() ==> #[trigger] kept@[j] < #[trigger] kept@[k],
            forall|k: int|
                0 <= k < i && kept_flag((#[trigger] all[k]).0) ==> kept@.contains(k as usize),
        decreases pairs.len() - i,
    {
        if !same(pairs[i].0.as_str(), PLACEHOLDER_FLAG) {
            let ghost before = kept@;
            kept.push(i);
            keys.push(SortKey { first: 0, second: 0, name: pairs[i].0.clone() });
            proof {
                assert forall|k: int| 0 <= k < i + 1 && kept_flag(
                    (#[trigger] all[k]).0,
                ) implies kept@.contains(k as usize) by {
                    if k == i {
                        assert(kept@[kept@.len() - 1] == i);
                    } else {
                        let j = choose|j: int| 0 <= j < before.len() && before[j] == k as usize;
                        assert(kept@[j] == k as usize);
                    }
                }
            }
        }
        i = i + 1;
    }
    let order = sorted_order(&keys);
    let mut out: Vec<(String, String)> = Vec::new();
    let ghost mut from: Seq<usize> = Seq::empty();
    let mut n: usize = 0;
    while n < order.len()
        invariant
            n <= order.len(),
            order.len() == kept.len(),
            keys.len() == kept.len(),
            all == pairs_of(pairs@),
            crate::order::is_sorted_order(order@, keys@),
            forall|k: int| 0 <= k < kept.len() ==> #[trigger] kept@[k] < pairs.len(),
            out.len() == n,
            from.len() == n,
            forall|k: int| 0 <= k < n ==> #[trigger] from[k] == kept@[order@[k] as int],
            forall|k: int| 0 <= k < n ==> #[trigger] pairs_of(out@)[k] == all[from[k] as int],
        decreases order.len() - n,
    {
        let at: usize = kept[order[n]];
        let ghost before = pairs_of(out@);
        out.push((pairs[at].0.clone(), pairs[at].1.clone()));
        proof {
            from = from.push(at);
            assert(pairs_of(out@) =~= before.push(all[at as int]));
        }
        n = n + 1;
    }
    proof {
        let view = pairs_of(out@);
        assert forall|a: int, b: int| 0 <= a < b < view.len() implies #[trigger] from[a]
            != #[trigger] from[b] && text_le(view[a].0, view[b].0) && (text_le(
            view[b].0,
            view[a].0,
        ) ==> from[a] < from[b]) by {
            let x = order@[a];
            let y = order@[b];
            assert(crate::order::precedes(keys@, x, y));
            assert(view[a] == all[from[a] as int]);
            assert(view[b] == all[from[b] as int]);
            assert(keys@[x as int].name@ == all[kept@[x as int] as int].0);
            assert(keys@[y as int].name@ == all[kept@[y as int] as int].0);
            if x < y {
                assert(kept@[x as int] < kept@[y as int]);
            } else {
                assert(kept@[y as int] < kept@[x as int]);
            }
        }
        assert forall|k: int| 0 <= k < all.len() && kept_flag(
            (#[trigger] all[k]).0,
        ) implies exists|j: int| 0 <= j < from.len() && #[trigger] from[j] == k by {
            let j = choose|j: int| 0 <= j < kept@.len() && kept@[j] == k as usize;
            crate::order::lemma_permutation_hits(order@, kept@.len(), j as usize);
            let p = choose|p: int| 0 <= p < order@.len() && order@[p] == j as usize;
            assert(from[p] == k as usize);
        }
        assert(flags_listed(all, view, from));
    }
    out
}

/// The flags of a settings file, by name. A file that cannot be read has none.
pub open spec fn flags_in(config: Seq<char>, out: Seq<(Seq<char>, Seq<char>)>) -> bool {
    match object_at(plain(config), "/fflags"@) {
        Some(pairs) => flags_shown(pairs, out),
        None => out.len() == 0,
    }
}

/// The flags set in a settings file, by name. A file that cannot be read has
/// none.
pub fn fflags(config: &str) -> (out: Vec<(String, String)>)
    ensures
        flags_in(config@, pairs_of(out@)),
{
    let code = strip_comments(config);
    let found = json_object_at(code.as_str(), "/fflags");
    assert(opt_pairs(found) == object_at(plain(config@), "/fflags"@));
    match found {
        Some(pairs) => fflags_of(&pairs),
        None => Vec::new(),
    }
}

proof fn lemma_shown_flag(
    pairs: Seq<(Seq<char>, Seq<char>)>,
    out: Seq<(Seq<char>, Seq<char>)>,
    p: (Seq<char>, Seq<char>),
)
    requires
        flags_shown(pairs, out),
    ensures
        pairs.contains(p) && kept_flag(p.0) ==> out.contains(p),
        out.contains(p) ==> pairs.contains(p) && kept_flag(p.0),
{
    let from = choose|from: Seq<usize>| #[trigger] flags_listed(pairs, out, from);
    if pairs.contains(p) && kept_flag(p.0) {
        let k = choose|k: int| 0 <= k < pairs.len() && pairs[k] == p;
        assert(pairs[k].0 == p.0);
        let j = choose|j: int| 0 <= j < from.len() && #[trigger] from[j] == k;
        assert(out[j] == p);
    }
    if out.contains(p) {
        let j = choose|j: int| 0 <= j < out.len() && out[j] == p;
        assert(pairs[from[j] as int] == p);
    }
}

/// A flag that was set is listed with its value, and one that was taken out is
/// not listed.
pub proof fn law_a_flag_set_is_listed(
    base: Seq<char>,
    t: Seq<char>,
    name: Seq<char>,
    value: Seq<char>,
    out: Seq<(Seq<char>, Seq<char>)>,
)
    requires
        flag_written(base, t, name, value),
        flags_in(t, out),
        kept_flag(name),
    ensures
        value.len() > 0 ==> out.contains((name, shape_text(flag_value(value)))),
        value.len() == 0 ==> !names(out, name),
{
    let pairs = object_at(t, "/fflags"@)->0;
    assert(object_at(plain(t), "/fflags"@) == object_at(t, "/fflags"@));
    lemma_shown_flag(pairs, out, (name, shape_text(flag_value(value))));
    if value.len() == 0 && names(out, name) {
        let i = choose|i: int| 0 <= i < out.len() && (#[trigger] out[i]).0 == name;
        lemma_shown_flag(pairs, out, out[i]);
        let k = choose|k: int| 0 <= k < pairs.len() && pairs[k] == out[i];
        assert(pairs[k].0 == name);
    }
}

/// Setting a flag, or taking it out, leaves the others listed with the values they
/// had: those that are strings, booleans or whole numbers.
pub proof fn law_other_flags_are_kept(
    base: Seq<char>,
    t: Seq<char>,
    name: Seq<char>,
    value: Seq<char>,
    out: Seq<(Seq<char>, Seq<char>)>,
    m: (Seq<char>, Option<Seq<char>>, Seq<char>),
)
    requires
        flag_written(base, t, name, value),
        flags_in(t, out),
        members_at(base, "/fflags"@) matches Some(members) && members.contains(m),
        m.0 != name,
        kept_flag(m.0),
        is_canonical(m.2),
    ensures
        out.contains(shown_member(m)),
{
    let pairs = object_at(t, "/fflags"@)->0;
    assert(object_at(plain(t), "/fflags"@) == object_at(t, "/fflags"@));
    let after = members_at(t, "/fflags"@)->0;
    assert(members_at(base, "/fflags"@)->0.contains(m));
    assert(after.contains(m));
    let k = choose|k: int| 0 <= k < after.len() && after[k] == m;
    assert(pairs[k] == shown_member(m));
    lemma_shown_flag(pairs, out, shown_member(m));
}

/// The flags that were written are the flags that are listed: each with its value,
/// and no others.
pub proof fn law_the_flags_written_are_listed(
    t: Seq<char>,
    flags: Seq<(String, String)>,
    out: Seq<(Seq<char>, Seq<char>)>,
    i: int,
)
    requires
        flags_written(t, sober_flags(flags)),
        flags_in(t, out),
    ensures
        0 <= i < sober_flags(flags).len() && is_last_of_name(sober_flags(flags), i)
            ==> out.contains((sober_flags(flags)[i].0, shape_text(sober_flags(flags)[i].1))),
        0 <= i < out.len() ==> is_flag_of(sober_flags(flags), out[i].0),
{
    let all = sober_flags(flags);
    let pairs = object_at(t, "/fflags"@)->0;
    assert(object_at(plain(t), "/fflags"@) == object_at(t, "/fflags"@));
    if 0 <= i < all.len() && is_last_of_name(all, i) {
        lemma_sober_flags_are_kept(flags, i);
        lemma_shown_flag(pairs, out, (all[i].0, shape_text(all[i].1)));
    }
    if 0 <= i < out.len() {
        lemma_shown_flag(pairs, out, out[i]);
        let k = choose|k: int| 0 <= k < pairs.len() && pairs[k] == out[i];
        assert(is_flag_of(all, pairs[k].0));
    }
}

proof fn lemma_sober_flags_are_kept(flags: Seq<(String, String)>, i: int)
    requires
        0 <= i < sober_flags(flags).len(),
    ensures
        kept_flag(sober_flags(flags)[i].0),
    decreases flags.len(),
{
    let earlier = sober_flags(flags.drop_last());
    if i < earlier.len() {
        lemma_sober_flags_are_kept(flags.drop_last(), i);
    }
}

proof fn lemma_code_before_comment(line: Seq<char>, i: int, end: int)
    requires
        0 <= i <= end,
        end + 1 < line.len(),
        line[end] == '/',
        line[end + 1] == '/',
        forall|k: int| i <= k < end ==> #[trigger] line[k] != '"' && !(line[k] == '/' && line[k + 1] == '/'),
    ensures
        code_length(line, i, false, false) == end,
    decreases end - i,
{
    if i < end {
        assert(line[i] != '"');
        lemma_code_before_comment(line, i + 1, end);
    }
}

/// Outside a string two slashes start a comment, and it takes the rest of the line.
pub proof fn law_comments_are_cut(code: Seq<char>, comment: Seq<char>)
    requires
        !code.contains('"'),
        !code.contains('/'),
    ensures
        without_comment(code + seq!['/', '/'] + comment) == code,
{
    let line = code + seq!['/', '/'] + comment;
    let n = code.len() as int;
    assert forall|k: int| 0 <= k < n implies #[trigger] line[k] != '"' && !(line[k] == '/'
        && line[k + 1] == '/') by {
        assert(line[k] == code[k]);
    }
    lemma_code_before_comment(line, 0, n);
    assert(line.take(n) =~= code);
}

proof fn lemma_within_string(line: Seq<char>, i: int, end: int)
    requires
        0 <= i <= end < line.len(),
        line[end] == '"',
        forall|k: int| i <= k < end ==> #[trigger] line[k] != '"' && line[k] != '\\',
    ensures
        code_length(line, i, true, false) == code_length(line, end + 1, false, false),
    decreases end - i,
{
    if i < end {
        assert(line[i] != '"');
        lemma_within_string(line, i + 1, end);
    }
}

/// Within a string two slashes are a part of it: an address in a setting stays whole,
/// and a comment behind the string goes.
pub proof fn law_strings_are_kept(text: Seq<char>, comment: Seq<char>)
    requires
        !text.contains('"'),
        !text.contains('\\'),
    ensures
        without_comment(seq!['"'] + text + seq!['"']) == seq!['"'] + text + seq!['"'],
        without_comment(seq!['"'] + text + seq!['"'] + seq!['/', '/'] + comment) == seq!['"'] + text
            + seq!['"'],
{
    let string = seq!['"'] + text + seq!['"'];
    let n = text.len() as int;
    assert forall|k: int| 1 <= k < n + 1 implies #[trigger] string[k] != '"' && string[k] != '\\' by {
        assert(string[k] == text[k - 1]);
    }
    lemma_within_string(string, 1, n + 1);
    assert(code_length(string, n + 2, false, false) == n + 2);
    assert(code_length(string, 0, false, false) == code_length(string, 1, true, false));
    assert(string.take(n + 2) =~= string);
    let line = string + seq!['/', '/'] + comment;
    assert forall|k: int| 1 <= k < n + 1 implies #[trigger] line[k] != '"' && line[k] != '\\' by {
        assert(line[k] == text[k - 1]);
    }
    lemma_within_string(line, 1, n + 1);
    lemma_code_before_comment(line, n + 2, n + 2);
    assert(code_length(line, 0, false, false) == code_length(line, 1, true, false));
    assert(line.take(n + 2) =~= string);
}

/// The lines without their comments stand one after the other, each with a line feed.
pub proof fn law_stripped_lines(line: Seq<char>, rest: Seq<Seq<char>>)
    ensures
        stripped_lines(seq![line] + rest) == without_comment(line) + seq!['\n'] + stripped_lines(
            rest,
        ),
        stripped_lines(Seq::empty()).len() == 0,
{
    let all = seq![line] + rest;
    assert(all.skip(1) =~= rest);
    assert(stripped_lines(all) =~= without_comment(line) + seq!['\n'] + stripped_lines(rest));
}

/// What a flag's value is taken for: the two words are switches, a whole number is a
/// number, and what is neither is a text.
pub proof fn law_flag_values_are_typed(value: Seq<char>, n: i64)
    ensures
        flag_value("true"@) == FlagShape::Bool(true),
        flag_value("false"@) == FlagShape::Bool(false),
        flag_value(decimal_int(n as int)) == FlagShape::Int(n),
        value != "true"@ && value != "false"@ && read_int(value) is None ==> flag_value(value)
            == FlagShape::Text(value),
{
    reveal_strlit("true");
    reveal_strlit("false");
    assert("true"@[0] == 't' && "false"@[0] == 'f');
    law_decimal_reads_back(n as int);
    if n < 0 {
        assert(decimal_int(n as int)[0] == '-');
    } else {
        lemma_decimal_shape(n as nat);
        assert(is_digit_spec(decimal(n as nat)[0]));
    }
}

/// Every flag is written under its own name, but for the example that a fresh file
/// comes with.
pub proof fn law_what_is_written_of_a_flag(flags: Seq<(String, String)>, f: (String, String))
    ensures
        f.0@ == "FFlagExample"@ ==> sober_flags(flags.push(f)) == sober_flags(flags),
        f.0@ != "FFlagExample"@ ==> sober_flags(flags.push(f)) == sober_flags(flags).push(
            (f.0@, flag_value(f.1@)),
        ),
{
    assert(flags.push(f).drop_last() =~= flags);
}

/// Settings are refused while the game runs, and without a home there are none.
pub proof fn law_settings_are_refused_while_running(running: bool, has_home: bool)
    ensures
        running ==> refusal(running, has_home)
            == Some("close Roblox first — Sober overwrites its settings when it exits"@),
        !running && !has_home ==> refusal(running, has_home) == Some("no HOME set"@),
        !running && has_home ==> refusal(running, has_home) is None,
{
}

/// A path is put together with one slash.
pub proof fn law_paths_are_joined(dir: Seq<char>, name: Seq<char>)
    requires
        dir.len() > 0,
    ensures
        dir.last() != '/' ==> below(dir, name) == dir + seq!['/'] + name,
        dir.last() == '/' ==> below(dir, name) == dir + name,
        below(Seq::empty(), name) == name,
        FLATPAK_ID@ == "org.vinegarhq.Sober"@,
        COOKIE_NAME@ == ".ROBLOSECURITY"@,
{
    reveal_strlit("/");
    assert("/"@ =~= seq!['/']);
}

/// A flag is shown as it is where it is a text, and as JSON where it is anything else.
pub proof fn law_members_are_shown(name: Seq<char>, text: Seq<char>, json: Seq<char>)
    ensures
        shown_member((name, Some(text), json)) == (name, text),
        shown_member((name, None, json)) == (name, json),
{
}

/// Flags are listed by name, and only the example is left out.
pub proof fn law_flags_are_listed_by_name(
    pairs: Seq<(Seq<char>, Seq<char>)>,
    out: Seq<(Seq<char>, Seq<char>)>,
)
    requires
        flags_shown(pairs, out),
    ensures
        forall|i: int, j: int|
            0 <= i < j < out.len() ==> text_le((#[trigger] out[i]).0, (#[trigger] out[j]).0),
        forall|p: (Seq<char>, Seq<char>)| #[trigger] out.contains(p) <==> pairs.contains(p) && p.0
            != "FFlagExample"@,
{
    let from = choose|from: Seq<usize>| #[trigger] flags_listed(pairs, out, from);
    assert forall|i: int, j: int| 0 <= i < j < out.len() implies text_le(
        (#[trigger] out[i]).0,
        (#[trigger] out[j]).0,
    ) by {
        assert(from[i] != from[j]);
    }
    assert forall|p: (Seq<char>, Seq<char>)| #[trigger] out.contains(p) <==> pairs.contains(p)
        && p.0 != "FFlagExample"@ by {
        lemma_shown_flag(pairs, out, p);
    }
}

/// Sober is signed into an account where some session cookie of its jar is that
/// account's, and a jar with another says to close the game first while it runs.
pub proof fn law_which_account_a_jar_holds(
    pairs: Seq<(Seq<char>, Seq<char>)>,
    cookie: Seq<char>,
)
    ensures
        holds_cookie(pairs, cookie) <==> pairs.contains((".ROBLOSECURITY"@, cookie)),
        CLOSE_FIRST@
            == "close Roblox first — Sober rewrites its session on exit, so switching accounts while it is running would be undone"@,
{
    if holds_cookie(pairs, cookie) {
        let i = choose|i: int|
            0 <= i < pairs.len() && (#[trigger] pairs[i]).0 == COOKIE_NAME@ && pairs[i].1 == cookie;
        assert(pairs[i] == (".ROBLOSECURITY"@, cookie));
    }
    if pairs.contains((".ROBLOSECURITY"@, cookie)) {
        let i = choose|i: int| 0 <= i < pairs.len() && pairs[i] == (".ROBLOSECURITY"@, cookie);
        assert(pairs[i].0 == COOKIE_NAME@ && pairs[i].1 == cookie);
    }
}

/// The account of a jar is its first session cookie, and a blank one is none.
pub proof fn law_the_first_session_counts(
    jar: Seq<char>,
    k: int,
)
    requires
        0 <= k <= jar_pairs(jar).len(),
        forall|j: int| 0 <= j < k ==> (#[trigger] jar_pairs(jar)[j]).0 != ".ROBLOSECURITY"@,
        k < jar_pairs(jar).len() ==> jar_pairs(jar)[k].0 == ".ROBLOSECURITY"@,
    ensures
        k == jar_pairs(jar).len() ==> jar_cookie(jar) is None,
        k < jar_pairs(jar).len() && jar_pairs(jar)[k].1.len() > 0 ==> jar_cookie(jar) == Some(
            jar_pairs(jar)[k].1,
        ),
        k < jar_pairs(jar).len() && jar_pairs(jar)[k].1.len() == 0 ==> jar_cookie(jar) is None,
{
    let pairs = jar_pairs(jar);
    lemma_pair_at(pairs, COOKIE_NAME@, 0);
    lemma_first_pair(pairs, COOKIE_NAME@, 0);
    match pair_at(pairs, COOKIE_NAME@, 0) {
        Some(i) => {
            if i < k {
                assert(pairs[i].0 != ".ROBLOSECURITY"@);
            } else if k < i {
                assert(pairs[k].0 != COOKIE_NAME@);
            }
        },
        None => {
            if k < pairs.len() {
                assert(pairs[k].0 != COOKIE_NAME@);
            }
        },
    }
}

/// What is edited: a file that is an object apart from its comments is edited without
/// them. Where there is no file, or none that is JSON, the settings start out empty.
pub proof fn law_what_is_edited(c: &str)
    ensures
        is_document(plain(c@)) ==> settings_doc(Some(c)) == plain(c@),
        object_kind(plain(c@), Seq::empty()) is None ==> settings_doc(Some(c)) == "{}"@,
        settings_doc(None) == "{}"@,
{
}

} // verus!
