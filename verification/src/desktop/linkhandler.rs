//! Opening `roblox://` links: registering as their handler, and reading them.

use crate::launcher::sober::{below, join_path};
use crate::launcher::{with_param, JoinRequest};
use crate::number::{decimal_int, law_decimal_reads_back, lemma_decimal_shape, parse_i64, read_i64};
use crate::text::{
    cat3, chars_of, contains_text, lemma_until, lemma_until_is, lowercase, occurs, occurs_at, opt_text,
    range_text, run_until, same, split_on, split_text, starts_with, starts_with_spec, texts,
    to_lower, until,
};
use vstd::prelude::*;
use vstd::string::*;

verus! {

pub const DESKTOP_NAME: &'static str = "rojoin-v4-roblox.desktop";

pub const MIME: &'static str = "x-scheme-handler/roblox";

/// The handler's entry, below the user's home.
pub fn desktop_path(home: &str) -> (r: String)
    ensures
        r@ == below(below(home@, ".local/share/applications"@), DESKTOP_NAME@),
{
    join_path(join_path(home, ".local/share/applications").as_str(), DESKTOP_NAME)
}

/// Whether the handler is registered: its entry is there.
pub fn is_registered(entry: Option<bool>) -> (r: bool)
    ensures
        r == (entry == Some(true)),
{
    match entry {
        Some(exists) => exists,
        None => false,
    }
}

/// Whether the registered command on Windows is this program's. The command is
/// looked at: a registration without one does nothing.
pub fn is_registered_command(found: bool, output: &str) -> (r: bool)
    ensures
        r == (found && occurs(lowercase(output@), "rojoin"@)),
{
    found && contains_text(to_lower(output).as_str(), "rojoin")
}

pub open spec fn handler_text(exe: Seq<char>) -> Seq<char> {
    "[Desktop Entry]\nType=Application\nName=RoJoin\nComment=Open Roblox links with RoJoin\nExec=\""@
        + exe + "\" %u\nTerminal=false\nNoDisplay=true\nMimeType=x-scheme-handler/roblox;\n"@
}

/// The handler's entry for a program.
pub fn handler_entry(exe: &str) -> (r: String)
    ensures
        r@ == handler_text(exe@),
{
    cat3(
        "[Desktop Entry]\nType=Application\nName=RoJoin\nComment=Open Roblox links with RoJoin\nExec=\"",
        exe,
        "\" %u\nTerminal=false\nNoDisplay=true\nMimeType=x-scheme-handler/roblox;\n",
    )
}

/// The command registered on Windows. Both the program and the link are quoted.
pub fn handler_command(exe: &str) -> (r: String)
    ensures
        r@ == "\""@ + exe@ + "\" \"%1\""@,
{
    cat3("\"", exe, "\" \"%1\"")
}

/// The query of a link: what stands between its first and its second `?`.
pub open spec fn query_of(uri: Seq<char>) -> Seq<char> {
    let k = until(uri, '?');
    if k < uri.len() {
        let rest = uri.skip(k as int + 1);
        rest.take(until(rest, '?') as int)
    } else {
        Seq::empty()
    }
}

/// A parameter's name, and its value where it has one.
pub open spec fn key_value(pair: Seq<char>) -> (Seq<char>, Option<Seq<char>>) {
    let k = until(pair, '=');
    if k < pair.len() {
        (pair.take(k as int), Some(pair.skip(k as int + 1)))
    } else {
        (pair, None)
    }
}

/// What the parameters say, the later ones over the earlier ones: a place, and a
/// server unless its id is empty.
pub open spec fn read_pairs(parts: Seq<Seq<char>>) -> (Option<i64>, Option<Seq<char>>)
    decreases parts.len(),
{
    if parts.len() == 0 {
        (None, None)
    } else {
        let (place, instance) = read_pairs(parts.drop_last());
        match key_value(parts.last()) {
            (name, Some(v)) => if name == "placeId"@ {
                (read_i64(v), instance)
            } else if name == "gameInstanceId"@ && v.len() > 0 {
                (place, Some(v))
            } else {
                (place, instance)
            },
            (_, None) => (place, instance),
        }
    }
}

/// The link is one of the game's.
pub open spec fn is_game_link(uri: Seq<char>) -> bool {
    starts_with_spec(uri, "roblox://"@) || starts_with_spec(uri, "roblox-player:"@)
}

/// The place, and the server where there is one, that a link names.
pub open spec fn uri_target(uri: Seq<char>) -> Option<(i64, Option<Seq<char>>)> {
    if !is_game_link(uri) {
        None
    } else {
        let (place, instance) = read_pairs(split_on(query_of(uri), '&'));
        match place {
            Some(p) => Some((p, instance)),
            None => None,
        }
    }
}

fn query_text(uri: &str) -> (r: String)
    ensures
        r@ == query_of(uri@),
{
    let v = chars_of(uri);
    assert(v@.skip(0) =~= v@);
    let k: usize = run_until(&v, '?', 0);
    if k < v.len() {
        let n: usize = run_until(&v, '?', k + 1);
        let r = range_text(&v, k + 1, k + 1 + n);
        assert(r@ =~= query_of(uri@));
        r
    } else {
        String::new()
    }
}

fn split_key_value(pair: &str) -> (r: (String, Option<String>))
    ensures
        (r.0@, opt_text(r.1)) == key_value(pair@),
{
    let v = chars_of(pair);
    assert(v@.skip(0) =~= v@);
    let k: usize = run_until(&v, '=', 0);
    if k < v.len() {
        let name = range_text(&v, 0, k);
        assert(name@ =~= pair@.take(k as int));
        let value = range_text(&v, k + 1, v.len());
        assert(value@ =~= pair@.skip(k as int + 1));
        (name, Some(value))
    } else {
        (pair.to_owned(), None)
    }
}

/// The place, and the server where there is one, that a `roblox://` link names.
pub fn parse_uri(uri: &str) -> (r: Option<(i64, Option<String>)>)
    ensures
        match r {
            Some((place, instance)) => uri_target(uri@) == Some((place, opt_text(instance))),
            None => uri_target(uri@) is None,
        },
{
    if !starts_with(uri, "roblox://") && !starts_with(uri, "roblox-player:") {
        return None;
    }
    let parts = split_text(query_text(uri).as_str(), '&');
    let ghost all = texts(parts@);
    let mut place: Option<i64> = None;
    let mut instance: Option<String> = None;
    let mut i: usize = 0;
    assert(all.take(0) =~= Seq::<Seq<char>>::empty());
    while i < parts.len()
        invariant
            i <= parts.len(),
            all == texts(parts@),
            (place, opt_text(instance)) == read_pairs(all.take(i as int)),
        decreases parts.len() - i,
    {
        assert(all.take(i as int + 1).drop_last() =~= all.take(i as int));
        assert(all.take(i as int + 1).last() == parts@[i as int]@);
        let (name, value) = split_key_value(parts[i].as_str());
        match value {
            Some(v) => {
                if same(name.as_str(), "placeId") {
                    place = parse_i64(v.as_str());
                } else if same(name.as_str(), "gameInstanceId") && !v.as_str().is_empty() {
                    instance = Some(v);
                }
            },
            None => {},
        }
        i = i + 1;
    }
    assert(all.take(all.len() as int) =~= all);
    match place {
        Some(p) => Some((p, instance)),
        None => None,
    }
}

/// The text holds neither of the two characters that would end a parameter.
pub open spec fn is_plain(t: Seq<char>) -> bool {
    forall|i: int| 0 <= i < t.len() ==> t[i] != '&' && t[i] != '?'
}

pub open spec fn opt_plain(t: Option<String>) -> bool {
    match t {
        Some(s) => is_plain(s@),
        None => true,
    }
}

proof fn lemma_split_last(a: Seq<char>, b: Seq<char>)
    requires
        forall|i: int| 0 <= i < b.len() ==> b[i] != '&',
    ensures
        split_on(a + seq!['&'] + b, '&') == split_on(a, '&').push(b),
    decreases a.len(),
{
    let s = a + seq!['&'] + b;
    lemma_until(a, '&');
    let k = until(a, '&') as int;
    if k < a.len() {
        assert forall|i: int| 0 <= i < k implies s[i] != '&' by {
            assert(s[i] == a[i]);
        }
        lemma_until_is(s, '&', k);
        assert(s.take(k) =~= a.take(k));
        assert(s.skip(k + 1) =~= a.skip(k + 1) + seq!['&'] + b);
        lemma_split_last(a.skip(k + 1), b);
        assert(split_on(s, '&') =~= split_on(a, '&').push(b));
    } else {
        assert forall|i: int| 0 <= i < a.len() implies s[i] != '&' by {
            assert(s[i] == a[i]);
        }
        lemma_until_is(s, '&', a.len() as int);
        assert(s.take(a.len() as int) =~= a);
        assert(s.skip(a.len() as int + 1) =~= b);
        lemma_until_is(b, '&', b.len() as int);
        assert(split_on(b, '&') =~= seq![b]);
        assert(split_on(a, '&') =~= seq![a]);
        assert(split_on(s, '&') =~= seq![a] + seq![b]);
    }
}

proof fn lemma_decimal_plain(n: int)
    ensures
        is_plain(decimal_int(n)),
        forall|i: int| 0 <= i < decimal_int(n).len() ==> decimal_int(n)[i] != '=',
{
    if n < 0 {
        lemma_decimal_shape((-n) as nat);
        let d = crate::number::decimal((-n) as nat);
        assert forall|i: int| 0 <= i < decimal_int(n).len() implies decimal_int(n)[i] != '&'
            && decimal_int(n)[i] != '?' && decimal_int(n)[i] != '=' by {
            if i > 0 {
                assert(crate::text::is_digit_spec(d[i - 1]));
            }
        }
    } else {
        lemma_decimal_shape(n as nat);
        let d = crate::number::decimal(n as nat);
        assert forall|i: int| 0 <= i < d.len() implies d[i] != '&' && d[i] != '?' && d[i]
            != '=' by {
            assert(crate::text::is_digit_spec(d[i]));
        }
    }
}

/// The query of a link with one more parameter.
proof fn lemma_one_more(
    query: Seq<char>,
    pair: Seq<char>,
    name: Seq<char>,
    value: Seq<char>,
)
    requires
        pair == name + seq!['='] + value,
        is_plain(name),
        is_plain(value),
        forall|i: int| 0 <= i < name.len() ==> name[i] != '=',
    ensures
        read_pairs(split_on(query + seq!['&'] + pair, '&')) == ({
            let (place, instance) = read_pairs(split_on(query, '&'));
            if name == "placeId"@ {
                (read_i64(value), instance)
            } else if name == "gameInstanceId"@ && value.len() > 0 {
                (place, Some(value))
            } else {
                (place, instance)
            }
        }),
{
    assert forall|i: int| 0 <= i < pair.len() implies pair[i] != '&' by {}
    lemma_split_last(query, pair);
    let parts = split_on(query, '&').push(pair);
    assert(parts.drop_last() =~= split_on(query, '&'));
    lemma_until_is(pair, '=', name.len() as int);
    assert(pair.take(name.len() as int) =~= name);
    assert(pair.skip(name.len() as int + 1) =~= value);
}

/// The query with one more parameter, where it has a value.
pub open spec fn added(query: Seq<char>, name: Seq<char>, value: Option<String>) -> Seq<char> {
    match value {
        Some(v) => query + seq!['&'] + (name + seq!['='] + v@),
        None => query,
    }
}

/// What a parameter changes of what was read.
pub open spec fn after_param(
    read: (Option<i64>, Option<Seq<char>>),
    name: Seq<char>,
    value: Option<String>,
) -> (Option<i64>, Option<Seq<char>>) {
    match value {
        Some(v) => if name == "placeId"@ {
            (read_i64(v@), read.1)
        } else if name == "gameInstanceId"@ && v@.len() > 0 {
            (read.0, Some(v@))
        } else {
            read
        },
        None => read,
    }
}

proof fn lemma_param(
    lead: Seq<char>,
    query: Seq<char>,
    mark: Seq<char>,
    name: Seq<char>,
    value: Option<String>,
)
    requires
        mark == seq!['&'] + name + seq!['='],
        is_plain(name),
        forall|i: int| 0 <= i < name.len() ==> name[i] != '=',
        opt_plain(value),
        forall|i: int| 0 <= i < query.len() ==> query[i] != '?',
    ensures
        with_param(lead + seq!['?'] + query, mark, value) == lead + seq!['?'] + added(
            query,
            name,
            value,
        ),
        forall|i: int|
            0 <= i < added(query, name, value).len() ==> added(query, name, value)[i] != '?',
        read_pairs(split_on(added(query, name, value), '&')) == after_param(
            read_pairs(split_on(query, '&')),
            name,
            value,
        ),
{
    if let Some(v) = value {
        lemma_one_more(query, name + seq!['='] + v@, name, v@);
        assert(with_param(lead + seq!['?'] + query, mark, value) =~= lead + seq!['?'] + added(
            query,
            name,
            value,
        ));
    }
}

proof fn lemma_place_alone(id: i64)
    ensures
        ({
            let query = "placeId"@ + seq!['='] + decimal_int(id as int);
            &&& read_pairs(split_on(query, '&')) == (Some(id), None::<Seq<char>>)
            &&& forall|i: int| 0 <= i < query.len() ==> query[i] != '?'
            &&& "roblox://experiences/start?placeId="@ + decimal_int(id as int)
                == "roblox://experiences/start"@ + seq!['?'] + query
        }),
{
    reveal_strlit("roblox://experiences/start?placeId=");
    reveal_strlit("roblox://experiences/start");
    reveal_strlit("placeId");
    let digits = decimal_int(id as int);
    let query = "placeId"@ + seq!['='] + digits;
    lemma_decimal_plain(id as int);
    law_decimal_reads_back(id as int);
    lemma_until_is(query, '&', query.len() as int);
    assert(split_on(query, '&') =~= seq![query]);
    assert(seq![query].drop_last() =~= Seq::<Seq<char>>::empty());
    lemma_until_is(query, '=', 7);
    assert(query.take(7) =~= "placeId"@);
    assert(query.skip(8) =~= digits);
    assert(read_pairs(Seq::<Seq<char>>::empty()) == (None::<i64>, None::<Seq<char>>));
    assert("roblox://experiences/start?placeId="@ + digits =~= "roblox://experiences/start"@
        + seq!['?'] + query);
}

proof fn lemma_query_behind(query: Seq<char>)
    requires
        forall|i: int| 0 <= i < query.len() ==> query[i] != '?',
    ensures
        is_game_link("roblox://experiences/start"@ + seq!['?'] + query),
        query_of("roblox://experiences/start"@ + seq!['?'] + query) == query,
{
    reveal_strlit("roblox://experiences/start");
    reveal_strlit("roblox://");
    let lead = "roblox://experiences/start"@;
    let uri = lead + seq!['?'] + query;
    assert(uri.subrange(0, 9) =~= "roblox://"@);
    assert forall|i: int| 0 <= i < 26 implies uri[i] != '?' by {
        assert(uri[i] == lead[i]);
    }
    lemma_until_is(uri, '?', 26);
    assert(uri.skip(27) =~= query);
    lemma_until_is(query, '?', query.len() as int);
    assert(query.take(query.len() as int) =~= query);
}

proof fn lemma_param_names()
    ensures
        "&gameInstanceId="@ == seq!['&'] + "gameInstanceId"@ + seq!['='],
        "&accessCode="@ == seq!['&'] + "accessCode"@ + seq!['='],
        "&linkCode="@ == seq!['&'] + "linkCode"@ + seq!['='],
        is_plain("gameInstanceId"@),
        is_plain("accessCode"@),
        is_plain("linkCode"@),
        forall|i: int| 0 <= i < "gameInstanceId"@.len() ==> "gameInstanceId"@[i] != '=',
        forall|i: int| 0 <= i < "accessCode"@.len() ==> "accessCode"@[i] != '=',
        forall|i: int| 0 <= i < "linkCode"@.len() ==> "linkCode"@[i] != '=',
        "gameInstanceId"@ != "placeId"@,
        "accessCode"@ != "placeId"@,
        "linkCode"@ != "placeId"@,
        "accessCode"@ != "gameInstanceId"@,
        "linkCode"@ != "gameInstanceId"@,
{
    reveal_strlit("&gameInstanceId=");
    reveal_strlit("&accessCode=");
    reveal_strlit("&linkCode=");
    reveal_strlit("gameInstanceId");
    reveal_strlit("accessCode");
    reveal_strlit("linkCode");
    reveal_strlit("placeId");
    assert("&gameInstanceId="@ =~= seq!['&'] + "gameInstanceId"@ + seq!['=']);
    assert("&accessCode="@ =~= seq!['&'] + "accessCode"@ + seq!['=']);
    assert("&linkCode="@ =~= seq!['&'] + "linkCode"@ + seq!['=']);
    assert("gameInstanceId"@.len() == 14);
    assert("accessCode"@.len() == 10);
    assert("linkCode"@.len() == 8);
    assert("placeId"@.len() == 7);
}

/// A link that is launched names the same place and server when it is opened:
/// reading it gives back what went into it. The server's id must not be empty,
/// and no part may hold `&` or `?`.
pub proof fn law_links_read_back(req: JoinRequest)
    requires
        req.job_id matches Some(j) ==> j@.len() > 0,
        opt_plain(req.job_id),
        opt_plain(req.access_code),
        opt_plain(req.link_code),
    ensures
        uri_target(req.uri_text()) == Some((req.place_id, opt_text(req.job_id))),
{
    let lead = "roblox://experiences/start"@;
    let q0 = "placeId"@ + seq!['='] + decimal_int(req.place_id as int);
    lemma_place_alone(req.place_id);
    lemma_param_names();
    let q1 = added(q0, "gameInstanceId"@, req.job_id);
    lemma_param(lead, q0, "&gameInstanceId="@, "gameInstanceId"@, req.job_id);
    let q2 = added(q1, "accessCode"@, req.access_code);
    lemma_param(lead, q1, "&accessCode="@, "accessCode"@, req.access_code);
    let q3 = added(q2, "linkCode"@, req.link_code);
    lemma_param(lead, q2, "&linkCode="@, "linkCode"@, req.link_code);
    assert(req.uri_text() == lead + seq!['?'] + q3);
    lemma_query_behind(q3);
}

/// Links of the game begin with either of its two schemes; nothing else is opened.
pub proof fn law_links_of_the_game(rest: Seq<char>, uri: Seq<char>)
    ensures
        is_game_link("roblox://"@ + rest),
        is_game_link("roblox-player:"@ + rest),
        is_game_link(uri) ==> occurs_at(uri, "roblox://"@, 0) || occurs_at(uri, "roblox-player:"@, 0),
        !is_game_link(uri) ==> uri_target(uri) is None,
        DESKTOP_NAME@ == "rojoin-v4-roblox.desktop"@,
        MIME@ == "x-scheme-handler/roblox"@,
{
    let a = "roblox://"@ + rest;
    let b = "roblox-player:"@ + rest;
    assert(a.subrange(0, "roblox://"@.len() as int) =~= "roblox://"@);
    assert(b.subrange(0, "roblox-player:"@.len() as int) =~= "roblox-player:"@);
}

/// What the parameters of a link say: the last place counts, and the last server that
/// is not empty.
pub proof fn law_parameters_of_a_link(parts: Seq<Seq<char>>, value: Seq<char>)
    ensures
        read_pairs(Seq::empty()) == (None::<i64>, None::<Seq<char>>),
        read_pairs(parts.push("placeId="@ + value)) == (read_i64(value), read_pairs(parts).1),
        value.len() > 0 ==> read_pairs(parts.push("gameInstanceId="@ + value)) == (
            read_pairs(parts).0,
            Some(value),
        ),
        read_pairs(parts.push("gameInstanceId="@)) == read_pairs(parts),
{
    reveal_strlit("placeId=");
    reveal_strlit("placeId");
    reveal_strlit("gameInstanceId=");
    reveal_strlit("gameInstanceId");
    let a = "placeId="@ + value;
    let b = "gameInstanceId="@ + value;
    let c = "gameInstanceId="@;
    lemma_until_is(a, '=', 7);
    lemma_until_is(b, '=', 14);
    lemma_until_is(c, '=', 14);
    assert(a.take(7) =~= "placeId"@);
    assert(a.skip(8) =~= value);
    assert(b.take(14) =~= "gameInstanceId"@);
    assert(b.skip(15) =~= value);
    assert(c.take(14) =~= "gameInstanceId"@);
    assert(c.skip(15) =~= Seq::<char>::empty());
    assert("placeId"@[0] == 'p' && "gameInstanceId"@[0] == 'g');
    assert(parts.push(a).drop_last() =~= parts);
    assert(parts.push(b).drop_last() =~= parts);
    assert(parts.push(c).drop_last() =~= parts);
}

/// The entry that opens links starts the program with the link, for links of the game.
pub proof fn law_what_the_entry_says(exe: Seq<char>)
    ensures
        handler_text(exe)
            == "[Desktop Entry]\nType=Application\nName=RoJoin\nComment=Open Roblox links with RoJoin\nExec=\""@
            + exe + "\" %u\nTerminal=false\nNoDisplay=true\nMimeType=x-scheme-handler/roblox;\n"@,
{
}

} // verus!
