//! Search across games, users and groups, and the links people paste.
//!
//! The search nests its results by content type:
//! `{ searchResults: [ { contentGroupType: "Game", contents: [ ... ] } ] }`.

use crate::number::{
    all_digits, decimal, lemma_decimal_shape, nat_text, only_digits, parse_i64_chars, read_i64,
};
use crate::order::flipped;
use crate::roblox::models::{share_of_votes, vote_percent};
use crate::roblox::{allowed_limit, is_page_limit, page_limit};
use crate::text::{
    cat2, cat5, chars_of, find_first, is_digit, is_digit_spec, is_space_spec,
    law_trimming_takes_the_padding, lemma_find_from, lemma_trimmed_is, occurs, occurs_at, opt_text,
    percent_encode, percent_text, position, same, string_of, trim_chars, trimmed,
};
use vstd::prelude::*;
use vstd::string::*;
use vstd::utf8::encode_utf8;

verus! {

pub const OMNI: &'static str = "https://apis.roblox.com/search-api/omni-search";

pub const USERS: &'static str = "https://users.roblox.com/v1";

pub const GROUPS: &'static str = "https://groups.roblox.com/v1";

#[derive(Debug, Clone, Default)]
pub struct OmniGame {
    pub universe_id: i64,
    pub root_place_id: i64,
    pub name: String,
    pub description: String,
    pub player_count: i64,
    pub total_up_votes: i64,
    pub total_down_votes: i64,
    pub creator_name: String,
    pub creator_has_verified_badge: bool,
    pub is_sponsored: bool,
}

impl OmniGame {
    /// The approval percentage, or `None` when nobody has voted.
    pub fn percent(&self) -> (r: Option<i32>)
        requires
            i64::MIN <= self.total_up_votes + self.total_down_votes <= i64::MAX,
        ensures
            r == vote_percent(self.total_up_votes as int, self.total_down_votes as int),
    {
        share_of_votes(self.total_up_votes, self.total_down_votes)
    }
}

/// One group of results of one kind.
#[derive(Debug)]
pub struct OmniGroup {
    pub content_group_type: String,
    pub contents: Vec<OmniGame>,
}

pub struct GameSearchPage {
    pub games: Vec<OmniGame>,
    pub next: Option<String>,
}

/// The games of one group that are shown: none of another kind, none that are
/// sponsored.
pub open spec fn shown_of(g: OmniGroup) -> Seq<OmniGame> {
    if g.content_group_type@ == "Game"@ {
        g.contents@.filter(|x: OmniGame| !x.is_sponsored)
    } else {
        Seq::empty()
    }
}

/// The games of a search that are shown, in the order of the groups.
pub open spec fn shown_games(groups: Seq<OmniGroup>) -> Seq<OmniGame>
    decreases groups.len(),
{
    if groups.len() == 0 {
        Seq::empty()
    } else {
        shown_games(groups.drop_last()) + shown_of(groups.last())
    }
}

proof fn lemma_filter_step(s: Seq<OmniGame>, i: int)
    requires
        0 <= i < s.len(),
    ensures
        ({
            let keep = |x: OmniGame| !x.is_sponsored;
            s.take(i + 1).filter(keep) == if keep(s[i]) {
                s.take(i).filter(keep).push(s[i])
            } else {
                s.take(i).filter(keep)
            }
        }),
{
    let keep = |x: OmniGame| !x.is_sponsored;
    assert(s.take(i + 1).drop_last() =~= s.take(i));
    assert(s.take(i + 1).last() == s[i]);
    reveal(Seq::filter);
}


/// Keep the games that are shown.
pub fn game_search_page(groups: Vec<OmniGroup>, next: Option<String>) -> (page: GameSearchPage)
    ensures
        page.games@ == shown_games(groups@),
        page.next == next,
{
    let ghost all = groups@;
    let mut left = flipped(groups);
    let mut games: Vec<OmniGame> = Vec::new();
    let ghost mut done: int = 0;
    assert(all.take(0) =~= Seq::<OmniGroup>::empty());
    while left.len() > 0
        invariant
            left.len() + done == all.len(),
            0 <= done,
            forall|k: int| 0 <= k < left.len() ==> #[trigger] left@[k] == all[all.len() - 1 - k],
            games@ == shown_games(all.take(done)),
        decreases left.len(),
    {
        assert(left@[left.len() - 1] == all[done]);
        let group = left.pop();
        assert(all.take(done + 1).drop_last() =~= all.take(done));
        assert(all.take(done + 1).last() == all[done]);
        let ghost before = games@;
        match group {
            Some(g) => {
                assert(g == all[done]);
                let wanted = same(g.content_group_type.as_str(), "Game");
                let contents = g.contents;
                let ghost inside = contents@;
                if wanted {
                    let mut rest = flipped(contents);
                    let ghost mut seen: int = 0;
                    assert(inside.take(0).filter(|x: OmniGame| !x.is_sponsored) =~= Seq::<
                        OmniGame,
                    >::empty()) by {
                        reveal(Seq::filter);
                    }
                    assert(games@ =~= before + inside.take(0).filter(
                        |x: OmniGame| !x.is_sponsored,
                    ));
                    while rest.len() > 0
                        invariant
                            rest.len() + seen == inside.len(),
                            0 <= seen,
                            forall|k: int|
                                0 <= k < rest.len() ==> #[trigger] rest@[k] == inside[inside.len()
                                    - 1 - k],
                            games@ == before + inside.take(seen).filter(
                                |x: OmniGame| !x.is_sponsored,
                            ),
                        decreases rest.len(),
                    {
                        assert(rest@[rest.len() - 1] == inside[seen]);
                        proof {
                            lemma_filter_step(inside, seen);
                        }
                        let ghost kept = inside.take(seen).filter(|x: OmniGame| !x.is_sponsored);
                        match rest.pop() {
                            Some(x) => {
                                if !x.is_sponsored {
                                    games.push(x);
                                    assert(games@ =~= before + kept.push(x));
                                }
                            },
                            None => {},
                        }
                        proof {
                            seen = seen + 1;
                        }
                    }
                    assert(inside.take(inside.len() as int) =~= inside);
                    assert(games@ == before + shown_of(g));
                } else {
                    assert(before + shown_of(g) =~= before);
                }
            },
            None => {},
        }
        proof {
            done = done + 1;
        }
    }
    assert(all.take(all.len() as int) =~= all);
    GameSearchPage { games, next }
}

/// The request for a page of games. The session id is stable for one search: the
/// service uses it for continuity across pages.
pub fn games_url(query: &str, session_id: &str, page_token: Option<&str>) -> (url: String)
    ensures
        url@ == OMNI@ + "?searchQuery="@ + percent_text(query@) + "&sessionId="@ + session_id@ + (
        "&pageToken="@ + (match page_token {
            Some(t) => t@,
            None => ""@,
        })),
{
    let head = cat5(
        OMNI,
        "?searchQuery=",
        urlencode(query).as_str(),
        "&sessionId=",
        session_id,
    );
    let token = match page_token {
        Some(t) => t,
        None => "",
    };
    cat2(head.as_str(), cat2("&pageToken=", token).as_str())
}

/// The request for people by name.
pub fn users_url(query: &str, limit: u32) -> (url: String)
    ensures
        exists|n: u32|
            #![trigger allowed_limit(n)]
            is_page_limit(limit, n) && url@ == USERS@ + "/users/search?keyword="@ + percent_text(
                query@,
            ) + "&limit="@ + decimal(n as nat),
{
    let n: u32 = page_limit(limit);
    assert(allowed_limit(n));
    cat5(
        USERS,
        "/users/search?keyword=",
        urlencode(query).as_str(),
        "&limit=",
        nat_text(n as u64).as_str(),
    )
}

/// The request for groups by name.
pub fn groups_url(query: &str, limit: u32) -> (url: String)
    ensures
        exists|n: u32|
            #![trigger allowed_limit(n)]
            is_page_limit(limit, n) && url@ == GROUPS@ + "/groups/search?keyword="@ + percent_text(
                query@,
            ) + "&limit="@ + decimal(n as nat) + "&prioritizeExactMatch=true"@,
{
    let n: u32 = page_limit(limit);
    assert(allowed_limit(n));
    cat2(
        cat5(
            GROUPS,
            "/groups/search?keyword=",
            urlencode(query).as_str(),
            "&limit=",
            nat_text(n as u64).as_str(),
        ).as_str(),
        "&prioritizeExactMatch=true",
    )
}

/// Minimal percent-encoding for query strings.
pub fn urlencode(s: &str) -> (r: String)
    ensures
        r@ == percent_text(s@),
{
    percent_encode(s)
}

/// A pasted link, broken into everything needed to join it.
#[derive(Debug, Clone, PartialEq, Eq, Default)]
pub struct JoinTarget {
    pub place_id: i64,
    /// A specific running server, from `gameInstanceId`.
    pub job_id: Option<String>,
    /// A reserved server, from `accessCode`.
    pub access_code: Option<String>,
    /// A private server's share link, from `privateServerLinkCode`.
    ///
    /// Not the same thing as `access_code`: the two are joined through different
    /// parameters, so they are carried separately all the way to the launcher.
    pub link_code: Option<String>,
}

/// What stands between the first and the second occurrence of `sep`, or after
/// the first where there is no second.
pub open spec fn second_piece(s: Seq<char>, sep: Seq<char>) -> Option<Seq<char>> {
    match find_first(s, sep) {
        Some(i) => {
            let rest = s.skip(i + sep.len());
            match find_first(rest, sep) {
                Some(j) => Some(rest.take(j)),
                None => Some(rest),
            }
        },
        None => None,
    }
}

/// What stands between the first and the second occurrence of `sep`.
pub fn piece_after(v: &Vec<char>, sep: &str) -> (r: Option<Vec<char>>)
    ensures
        match r {
            Some(p) => second_piece(v@, sep@) == Some(p@),
            None => second_piece(v@, sep@) is None,
        },
{
    let pat = chars_of(sep);
    match position(v, &pat, 0) {
        Some(i) => {
            let rest = tail(v, i + pat.len());
            match position(&rest, &pat, 0) {
                Some(j) => {
                    let mut cut = rest;
                    cut.truncate(j);
                    assert(cut@ =~= v@.skip(i + sep@.len()).take(j as int));
                    Some(cut)
                },
                None => Some(rest),
            }
        },
        None => None,
    }
}

/// What stands from `from` on.
pub fn tail(v: &Vec<char>, from: usize) -> (r: Vec<char>)
    requires
        from <= v.len(),
    ensures
        r@ == v@.skip(from as int),
{
    let mut r: Vec<char> = Vec::new();
    let mut i: usize = from;
    while i < v.len()
        invariant
            from <= i <= v.len(),
            r@ == v@.subrange(from as int, i as int),
        decreases v.len() - i,
    {
        r.push(v[i]);
        assert(r@ =~= v@.subrange(from as int, i as int + 1));
        i = i + 1;
    }
    assert(r@ =~= v@.skip(from as int));
    r
}

/// A parameter's value: everything up to the next separator or fragment.
pub open spec fn param_value(s: Seq<char>) -> Seq<char>
    decreases s.len(),
{
    if s.len() == 0 || s[0] == '&' || s[0] == '#' {
        Seq::empty()
    } else {
        seq![s[0]] + param_value(s.skip(1))
    }
}

/// The value of the parameter `name` behind the separator `sep`, unless it is
/// empty.
pub open spec fn param_behind(url: Seq<char>, sep: char, name: Seq<char>) -> Option<Seq<char>> {
    match second_piece(url, seq![sep] + name + "="@) {
        Some(rest) => if param_value(rest).len() > 0 {
            Some(param_value(rest))
        } else {
            None
        },
        None => None,
    }
}

/// The value of a query parameter of a link. It is looked for as `name=` behind
/// `?` and then behind `&`, so `placeId` is not found inside `rootPlaceId`.
pub open spec fn param_of(url: Seq<char>, name: Seq<char>) -> Option<Seq<char>> {
    match param_behind(url, '?', name) {
        Some(v) => Some(v),
        None => param_behind(url, '&', name),
    }
}

fn value_of(rest: &Vec<char>) -> (value: String)
    ensures
        value@ == param_value(rest@),
{
    let mut k: usize = 0;
    let mut value = String::new();
    assert(rest@.skip(0) =~= rest@);
    while k < rest.len() && rest[k] != '&' && rest[k] != '#'
        invariant
            k <= rest.len(),
            param_value(rest@) == value@ + param_value(rest@.skip(k as int)),
        decreases rest.len() - k,
    {
        let ghost before = value@;
        assert(rest@.skip(k as int).skip(1) =~= rest@.skip(k as int + 1));
        value.push(rest[k]);
        assert(before + (seq![rest@[k as int]] + param_value(rest@.skip(k as int + 1))) =~= value@
            + param_value(rest@.skip(k as int + 1)));
        k = k + 1;
    }
    assert(value@ + Seq::<char>::empty() =~= value@);
    value
}

fn param_after(url: &Vec<char>, sep: char, name: &str) -> (r: Option<String>)
    ensures
        opt_text(r) == param_behind(url@, sep, name@),
{
    let mut needle = String::new();
    needle.push(sep);
    needle.append(name);
    needle.append("=");
    assert(needle@ =~= seq![sep] + name@ + "="@);
    match piece_after(url, needle.as_str()) {
        Some(rest) => {
            let value = value_of(&rest);
            if value.as_str().is_empty() {
                None
            } else {
                Some(value)
            }
        },
        None => None,
    }
}

/// Pull a query parameter out of a link.
pub fn query_param(url: &str, name: &str) -> (r: Option<String>)
    ensures
        opt_text(r) == param_of(url@, name@),
{
    let v = chars_of(url);
    match param_after(&v, '?', name) {
        Some(value) => Some(value),
        None => param_after(&v, '&', name),
    }
}

proof fn lemma_param_value(s: Seq<char>)
    ensures
        param_value(s).len() <= s.len(),
        param_value(s) == s.take(param_value(s).len() as int),
        forall|i: int|
            0 <= i < param_value(s).len() ==> #[trigger] param_value(s)[i] != '&' && param_value(
                s,
            )[i] != '#',
        param_value(s).len() < s.len() ==> s[param_value(s).len() as int] == '&' || s[param_value(
            s,
        ).len() as int] == '#',
    decreases s.len(),
{
    if s.len() > 0 && s[0] != '&' && s[0] != '#' {
        lemma_param_value(s.skip(1));
        let v = param_value(s.skip(1));
        assert(param_value(s) =~= s.take(v.len() as int + 1));
        assert forall|i: int| 0 <= i < param_value(s).len() implies #[trigger] param_value(s)[i]
            != '&' && param_value(s)[i] != '#' by {
            if i > 0 {
                assert(param_value(s)[i] == v[i - 1]);
            }
        }
    } else {
        assert(param_value(s) =~= s.take(0));
    }
}

proof fn lemma_param_value_is(value: Seq<char>, rest: Seq<char>)
    requires
        forall|i: int| 0 <= i < value.len() ==> #[trigger] value[i] != '&' && value[i] != '#',
        rest.len() > 0 ==> rest[0] == '&' || rest[0] == '#',
    ensures
        param_value(value + rest) == value,
    decreases value.len(),
{
    let s = value + rest;
    if value.len() > 0 {
        assert(s[0] == value[0]);
        assert(s.skip(1) =~= value.skip(1) + rest);
        lemma_param_value_is(value.skip(1), rest);
        assert(seq![value[0]] + value.skip(1) =~= value);
    } else {
        assert(s =~= rest);
        assert(param_value(s) =~= value);
    }
}

/// What is found for a parameter is not empty and holds neither `&` nor `#`. It
/// stands in the link right behind the separator, the name and `=`. Behind it the
/// link ends, or goes on with `&`, with `#`, or with the same `?name=` once more.
pub proof fn law_a_parameter_ends_at_its_separator(url: Seq<char>, name: Seq<char>)
    ensures
        match param_of(url, name) {
            Some(v) => {
                &&& v.len() > 0
                &&& !v.contains('&')
                &&& !v.contains('#')
                &&& exists|i: int, sep: char|
                    {
                        let end = i + 2 + name.len() + v.len();
                        &&& sep == '?' || sep == '&'
                        &&& #[trigger] occurs_at(url, seq![sep] + name + seq!['='] + v, i)
                        &&& end == url.len() || url[end] == '&' || url[end] == '#' || occurs_at(
                            url,
                            seq!['?'] + name + seq!['='],
                            end,
                        )
                    }
            },
            None => true,
        },
        !occurs(url, seq!['?'] + name + seq!['=']) && !occurs(url, seq!['&'] + name + seq!['='])
            ==> param_of(url, name) is None,
{
    reveal_strlit("=");
    assert("="@ =~= seq!['=']);
    lemma_find_from(url, seq!['?'] + name + seq!['='], 0);
    lemma_find_from(url, seq!['&'] + name + seq!['='], 0);
    if param_of(url, name) is Some {
        let v = param_of(url, name)->0;
        let sep = if param_behind(url, '?', name) is Some {
            '?'
        } else {
            '&'
        };
        let needle = seq![sep] + name + seq!['='];
        let piece = second_piece(url, needle)->0;
        assert(param_value(piece) == v);
        let i = find_first(url, needle)->0;
        lemma_find_from(url, needle, 0);
        lemma_param_value(piece);
        let rest = url.skip(i + needle.len());
        lemma_find_from(rest, needle, 0);
        let end = i + 2 + name.len() + v.len();
        assert forall|k: int| 0 <= k < v.len() implies v[k] != '&' && v[k] != '#' by {
            assert(param_value(piece)[k] == v[k]);
        }
        let full = seq![sep] + name + seq!['='] + v;
        assert(url.subrange(i, i + full.len()) =~= full) by {
            assert forall|k: int| 0 <= k < full.len() implies url.subrange(i, i + full.len())[k]
                == full[k] by {
                if k < needle.len() {
                    assert(url.subrange(i, i + needle.len())[k] == needle[k]);
                } else {
                    assert(v[k - needle.len()] == piece[k - needle.len()]);
                }
            }
        }
        assert(occurs_at(url, full, i));
        if end < url.len() {
            if v.len() < piece.len() {
                assert(piece[v.len() as int] == url[end]);
            } else {
                let j = find_first(rest, needle)->0;
                assert(j == v.len());
                assert(url.subrange(end, end + needle.len()) =~= rest.subrange(
                    j,
                    j + needle.len(),
                ));
                assert(url[end] == needle[0]) by {
                    assert(url.subrange(end, end + needle.len())[0] == needle[0]);
                }
            }
        }
    }
}

/// A text without the characters that separate parameters.
pub open spec fn plain(s: Seq<char>) -> bool {
    !s.contains('?') && !s.contains('&') && !s.contains('#')
}

/// Parameters as a link carries them: names and values joined by `=`, the first
/// behind `lead` and each further one behind `&`.
pub open spec fn written(pairs: Seq<(Seq<char>, Seq<char>)>, lead: char) -> Seq<char>
    decreases pairs.len(),
{
    if pairs.len() == 0 {
        Seq::empty()
    } else {
        seq![lead] + pairs[0].0 + seq!['='] + pairs[0].1 + written(pairs.skip(1), '&')
    }
}

/// Parameters that a link can carry: plain names without `=`, each once, and plain
/// values that are not empty.
pub open spec fn carriable(pairs: Seq<(Seq<char>, Seq<char>)>) -> bool {
    &&& forall|i: int|
        0 <= i < pairs.len() ==> plain(#[trigger] pairs[i].0) && !pairs[i].0.contains('=') && plain(
            pairs[i].1,
        ) && pairs[i].1.len() > 0
    &&& forall|i: int, j: int|
        0 <= i < j < pairs.len() ==> (#[trigger] pairs[i]).0 != (#[trigger] pairs[j]).0
}

/// The end of a link: nothing, or a fragment.
pub open spec fn fragment(s: Seq<char>) -> bool {
    !s.contains('?') && !s.contains('&') && (s.len() > 0 ==> s[0] == '#')
}

proof fn lemma_search_goes_on(front: Seq<char>, s: Seq<char>, sep: char, name: Seq<char>)
    requires
        forall|p: int|
            0 <= p < front.len() ==> !occurs_at(front + s, seq![sep] + name + seq!['='], p),
    ensures
        param_behind(front + s, sep, name) == param_behind(s, sep, name),
{
    reveal_strlit("=");
    assert("="@ =~= seq!['=']);
    let needle = seq![sep] + name + seq!['='];
    let t = front + s;
    let n = front.len() as int;
    lemma_find_from(t, needle, 0);
    lemma_find_from(s, needle, 0);
    assert forall|p: int| p >= n implies occurs_at(t, needle, p) == occurs_at(s, needle, p - n) by {
        if p + needle.len() <= t.len() {
            assert(t.subrange(p, p + needle.len()) =~= s.subrange(p - n, p - n + needle.len()));
        }
    }
    match find_first(s, needle) {
        Some(k) => {
            assert(occurs_at(t, needle, k + n));
            let f = find_first(t, needle)->0;
            assert(occurs_at(s, needle, f - n));
            assert(f == k + n);
            assert(t.skip(f + needle.len()) =~= s.skip(k + needle.len()));
        },
        None => {
            if find_first(t, needle) is Some {
                let f = find_first(t, needle)->0;
                assert(occurs_at(s, needle, f - n));
            }
        },
    }
}

proof fn lemma_needs_separator(t: Seq<char>, sep: char, name: Seq<char>, p: int)
    requires
        occurs_at(t, seq![sep] + name + seq!['='], p),
    ensures
        0 <= p < t.len(),
        t[p] == sep,
        forall|k: int| 0 <= k < name.len() ==> #[trigger] t[p + 1 + k] == name[k],
        t[p + 1 + name.len()] == '=',
{
    let needle = seq![sep] + name + seq!['='];
    let found = t.subrange(p, p + needle.len());
    assert(found[0] == needle[0]);
    assert forall|k: int| 0 <= k < name.len() implies #[trigger] t[p + 1 + k] == name[k] by {
        assert(found[k + 1] == needle[k + 1]);
    }
    assert(found[name.len() as int + 1] == needle[name.len() as int + 1]);
}

proof fn lemma_no_separator_no_parameter(s: Seq<char>, sep: char, name: Seq<char>)
    requires
        !s.contains(sep),
    ensures
        param_behind(s, sep, name) is None,
{
    reveal_strlit("=");
    assert("="@ =~= seq!['=']);
    let needle = seq![sep] + name + seq!['='];
    lemma_find_from(s, needle, 0);
    if find_first(s, needle) is Some {
        lemma_needs_separator(s, sep, name, find_first(s, needle)->0);
    }
}

/// The first parameter of a row is passed over where another is looked for.
proof fn lemma_other_parameter(
    lead: char,
    other: Seq<char>,
    value: Seq<char>,
    rest: Seq<char>,
    sep: char,
    name: Seq<char>,
)
    requires
        sep == '?' || sep == '&',
        plain(other),
        plain(value),
        !other.contains('='),
        !name.contains('='),
        lead != sep || other != name,
    ensures
        param_behind(seq![lead] + other + seq!['='] + value + rest, sep, name) == param_behind(
            rest,
            sep,
            name,
        ),
{
    let front = seq![lead] + other + seq!['='] + value;
    let t = front + rest;
    let needle = seq![sep] + name + seq!['='];
    assert forall|p: int| 0 <= p < front.len() implies !occurs_at(t, needle, p) by {
        if occurs_at(t, needle, p) {
            lemma_needs_separator(t, sep, name, p);
            if p == 0 {
                assert(t[1 + other.len() as int] == '=');
                if name.len() < other.len() {
                    assert(t[1 + name.len() as int] == other[name.len() as int]);
                    assert(other.contains('='));
                } else if other.len() < name.len() {
                    assert(t[0 + 1 + other.len() as int] == name[other.len() as int]);
                    assert(name.contains('='));
                } else {
                    assert forall|k: int| 0 <= k < name.len() implies name[k] == other[k] by {
                        assert(t[0 + 1 + k] == name[k]);
                    }
                    assert(other =~= name);
                }
            } else if p <= other.len() {
                assert(t[p] == other[p - 1]);
            } else if p > other.len() + 1 {
                assert(t[p] == value[p - 2 - other.len()]);
            }
        }
    }
    lemma_search_goes_on(front, rest, sep, name);
}

/// The first parameter of a row is found.
proof fn lemma_this_parameter(sep: char, name: Seq<char>, value: Seq<char>, rest: Seq<char>)
    requires
        sep == '?' || sep == '&',
        plain(value),
        value.len() > 0,
        rest.len() > 0 ==> rest[0] == '&' || rest[0] == '#',
    ensures
        param_behind(seq![sep] + name + seq!['='] + value + rest, sep, name) == Some(value),
{
    reveal_strlit("=");
    assert("="@ =~= seq!['=']);
    let needle = seq![sep] + name + seq!['='];
    let t = seq![sep] + name + seq!['='] + value + rest;
    lemma_find_from(t, needle, 0);
    assert(t.subrange(0, needle.len() as int) =~= needle);
    assert(occurs_at(t, needle, 0));
    assert(find_first(t, needle) == Some(0int));
    let behind = t.skip(needle.len() as int);
    assert(behind =~= value + rest);
    lemma_find_from(behind, needle, 0);
    match find_first(behind, needle) {
        Some(j) => {
            lemma_needs_separator(behind, sep, name, j);
            if j < value.len() {
                assert(behind[j] == value[j]);
            }
            let left = rest.take(j - value.len());
            assert(behind.take(j) =~= value + left);
            lemma_param_value_is(value, left);
        },
        None => {
            lemma_param_value_is(value, rest);
        },
    }
}

proof fn lemma_written_starts(pairs: Seq<(Seq<char>, Seq<char>)>, end: Seq<char>)
    requires
        fragment(end),
    ensures
        ({
            let s = written(pairs, '&') + end;
            s.len() > 0 ==> s[0] == '&' || s[0] == '#'
        }),
{
}

proof fn lemma_written_has_no_mark(pairs: Seq<(Seq<char>, Seq<char>)>, end: Seq<char>)
    requires
        carriable(pairs),
        fragment(end),
    ensures
        !(written(pairs, '&') + end).contains('?'),
    decreases pairs.len(),
{
    let s = written(pairs, '&') + end;
    if pairs.len() > 0 {
        lemma_carriable_rest(pairs);
        lemma_written_has_no_mark(pairs.skip(1), end);
        let rest = written(pairs.skip(1), '&') + end;
        let front = seq!['&'] + pairs[0].0 + seq!['='] + pairs[0].1;
        assert(s =~= front + rest);
        assert forall|i: int| 0 <= i < s.len() implies s[i] != '?' by {
            let n = pairs[0].0.len() as int;
            if i >= front.len() {
                assert(s[i] == rest[i - front.len()]);
            } else if 1 <= i <= n {
                assert(s[i] == pairs[0].0[i - 1]);
            } else if i > n + 1 {
                assert(s[i] == pairs[0].1[i - n - 2]);
            }
        }
    } else {
        assert(s =~= end);
    }
}

proof fn lemma_carriable_rest(pairs: Seq<(Seq<char>, Seq<char>)>)
    requires
        carriable(pairs),
        pairs.len() > 0,
    ensures
        carriable(pairs.skip(1)),
{
    let r = pairs.skip(1);
    assert forall|i: int| 0 <= i < r.len() implies plain(#[trigger] r[i].0) && !r[i].0.contains('=')
        && plain(r[i].1) && r[i].1.len() > 0 by {
        assert(r[i] == pairs[i + 1]);
    }
    assert forall|i: int, j: int| 0 <= i < j < r.len() implies (#[trigger] r[i]).0 != (
    #[trigger] r[j]).0 by {
        assert(r[i] == pairs[i + 1]);
        assert(r[j] == pairs[j + 1]);
    }
}

proof fn lemma_found_behind_ampersand(
    pairs: Seq<(Seq<char>, Seq<char>)>,
    end: Seq<char>,
    name: Seq<char>,
)
    requires
        carriable(pairs),
        fragment(end),
        !name.contains('='),
    ensures
        forall|k: int|
            0 <= k < pairs.len() && (#[trigger] pairs[k]).0 == name ==> param_behind(
                written(pairs, '&') + end,
                '&',
                name,
            ) == Some(pairs[k].1),
        (forall|k: int| 0 <= k < pairs.len() ==> (#[trigger] pairs[k]).0 != name) ==> param_behind(
            written(pairs, '&') + end,
            '&',
            name,
        ) is None,
    decreases pairs.len(),
{
    if pairs.len() == 0 {
        assert(written(pairs, '&') + end =~= end);
        lemma_no_separator_no_parameter(end, '&', name);
    } else {
        lemma_carriable_rest(pairs);
        let later = pairs.skip(1);
        let rest = written(later, '&') + end;
        lemma_found_behind_ampersand(later, end, name);
        assert(written(pairs, '&') + end =~= seq!['&'] + pairs[0].0 + seq!['='] + pairs[0].1
            + rest);
        if pairs[0].0 == name {
            lemma_written_starts(later, end);
            lemma_this_parameter('&', name, pairs[0].1, rest);
            assert forall|k: int| 0 <= k < pairs.len() && (#[trigger] pairs[k]).0 == name implies k
                == 0 by {
                if k > 0 {
                    assert(pairs[0].0 != pairs[k].0);
                }
            }
        } else {
            lemma_other_parameter('&', pairs[0].0, pairs[0].1, rest, '&', name);
            assert forall|k: int| 0 <= k < pairs.len() && (#[trigger] pairs[k]).0 == name implies (
            param_behind(rest, '&', name) == Some(pairs[k].1)) by {
                assert(later[k - 1] == pairs[k]);
            }
            assert((forall|k: int| 0 <= k < pairs.len() ==> (#[trigger] pairs[k]).0 != name) ==> (
            forall|k: int| 0 <= k < later.len() ==> (#[trigger] later[k]).0 != name)) by {
                assert(forall|k: int|
                    0 <= k < later.len() ==> #[trigger] later[k] == pairs[k + 1]);
            }
        }
    }
}

/// A link gives back what was put into it: for each of its parameters the value
/// that was written, the first behind `?` and the others behind `&`, and nothing for
/// a name that is not among them.
pub proof fn law_parameters_read_back(
    head: Seq<char>,
    pairs: Seq<(Seq<char>, Seq<char>)>,
    end: Seq<char>,
    name: Seq<char>,
)
    requires
        !head.contains('?'),
        !head.contains('&'),
        carriable(pairs),
        fragment(end),
        !name.contains('='),
    ensures
        forall|k: int|
            0 <= k < pairs.len() && (#[trigger] pairs[k]).0 == name ==> param_of(
                head + written(pairs, '?') + end,
                name,
            ) == Some(pairs[k].1),
        (forall|k: int| 0 <= k < pairs.len() ==> (#[trigger] pairs[k]).0 != name) ==> param_of(
            head + written(pairs, '?') + end,
            name,
        ) is None,
{
    let url = head + written(pairs, '?') + end;
    let tail = written(pairs, '?') + end;
    assert(url =~= head + tail);
    assert forall|sep: char, p: int|
        (sep == '?' || sep == '&') && 0 <= p < head.len() implies !(#[trigger] occurs_at(
        url,
        seq![sep] + name + seq!['='],
        p,
    )) by {
        if occurs_at(url, seq![sep] + name + seq!['='], p) {
            lemma_needs_separator(url, sep, name, p);
            assert(url[p] == head[p]);
        }
    }
    lemma_search_goes_on(head, tail, '?', name);
    lemma_search_goes_on(head, tail, '&', name);
    if pairs.len() == 0 {
        assert(tail =~= end);
        lemma_no_separator_no_parameter(end, '?', name);
        lemma_no_separator_no_parameter(end, '&', name);
    } else {
        lemma_carriable_rest(pairs);
        let later = pairs.skip(1);
        let rest = written(later, '&') + end;
        assert(tail =~= seq!['?'] + pairs[0].0 + seq!['='] + pairs[0].1 + rest);
        lemma_written_has_no_mark(later, end);
        lemma_found_behind_ampersand(later, end, name);
        assert(forall|k: int| 0 <= k < later.len() ==> #[trigger] later[k] == pairs[k + 1]);
        if pairs[0].0 == name {
            lemma_written_starts(later, end);
            lemma_this_parameter('?', name, pairs[0].1, rest);
            assert forall|k: int| 0 <= k < pairs.len() && (#[trigger] pairs[k]).0 == name implies k
                == 0 by {
                if k > 0 {
                    assert(pairs[0].0 != pairs[k].0);
                }
            }
        } else {
            lemma_other_parameter('?', pairs[0].0, pairs[0].1, rest, '?', name);
            lemma_no_separator_no_parameter(rest, '?', name);
            lemma_other_parameter('?', pairs[0].0, pairs[0].1, rest, '&', name);
            assert forall|k: int| 0 <= k < pairs.len() && (#[trigger] pairs[k]).0 == name implies (
            param_behind(rest, '&', name) == Some(pairs[k].1)) by {
                assert(later[k - 1] == pairs[k]);
            }
        }
    }
}

/// A link with two parameters gives back both.
pub proof fn law_two_parameters_read_back(
    head: Seq<char>,
    a: Seq<char>,
    x: Seq<char>,
    b: Seq<char>,
    y: Seq<char>,
)
    requires
        !head.contains('?'),
        !head.contains('&'),
        carriable(seq![(a, x), (b, y)]),
    ensures
        ({
            let url = head + seq!['?'] + a + seq!['='] + x + seq!['&'] + b + seq!['='] + y;
            param_of(url, a) == Some(x) && param_of(url, b) == Some(y)
        }),
{
    let pairs = seq![(a, x), (b, y)];
    let nothing = Seq::<char>::empty();
    let url = head + seq!['?'] + a + seq!['='] + x + seq!['&'] + b + seq!['='] + y;
    assert(pairs[0] == (a, x) && pairs[1] == (b, y));
    assert(!pairs[0].0.contains('=') && !pairs[1].0.contains('='));
    reveal_with_fuel(written, 3);
    assert(pairs.skip(1) =~= seq![(b, y)]);
    assert(pairs.skip(1).skip(1) =~= Seq::<(Seq<char>, Seq<char>)>::empty());
    assert(head + written(pairs, '?') + nothing =~= url);
    law_parameters_read_back(head, pairs, nothing, a);
    law_parameters_read_back(head, pairs, nothing, b);
}

/// The digits that a text starts with.
pub open spec fn leading_digits(s: Seq<char>) -> Seq<char>
    decreases s.len(),
{
    if s.len() > 0 && is_digit_spec(s[0]) {
        seq![s[0]] + leading_digits(s.skip(1))
    } else {
        Seq::empty()
    }
}

fn digits_at_start(v: &Vec<char>) -> (r: Vec<char>)
    ensures
        r@ == leading_digits(v@),
{
    let mut r: Vec<char> = Vec::new();
    let mut k: usize = 0;
    assert(v@.skip(0) =~= v@);
    while k < v.len() && is_digit(v[k])
        invariant
            k <= v.len(),
            leading_digits(v@) == r@ + leading_digits(v@.skip(k as int)),
        decreases v.len() - k,
    {
        let ghost before = r@;
        assert(v@.skip(k as int).skip(1) =~= v@.skip(k as int + 1));
        r.push(v[k]);
        assert(before + (seq![v@[k as int]] + leading_digits(v@.skip(k as int + 1))) =~= r@
            + leading_digits(v@.skip(k as int + 1)));
        k = k + 1;
    }
    assert(r@ + Seq::<char>::empty() =~= r@);
    r
}

/// The place id in digits right behind the first `mark`.
pub open spec fn id_behind(s: Seq<char>, mark: Seq<char>) -> Option<i64> {
    match second_piece(s, mark) {
        Some(rest) => read_i64(leading_digits(rest)),
        None => None,
    }
}

fn id_after(v: &Vec<char>, mark: &str) -> (r: Option<i64>)
    ensures
        r == id_behind(v@, mark@),
{
    match piece_after(v, mark) {
        Some(rest) => parse_i64_chars(&digits_at_start(&rest)),
        None => None,
    }
}

/// The place that a pasted link or a bare place id names. A bare id has eight
/// digits or more: a game genuinely named with short digits must still be
/// searched for.
pub open spec fn place_named(input: Seq<char>) -> Option<i64> {
    let s = trimmed(input);
    match id_behind(s, "/games/"@) {
        Some(id) => Some(id),
        None => match id_behind(s, "placeId="@) {
            Some(id) => Some(id),
            None => if s.len() >= 8 && all_digits(s) {
                read_i64(s)
            } else {
                None
            },
        },
    }
}

/// Recognise a pasted link or a bare place id.
pub fn resolve_place_id(input: &str) -> (r: Option<i64>)
    ensures
        r == place_named(input@),
{
    let s = trim_chars(&chars_of(input));
    match id_after(&s, "/games/") {
        Some(id) => {
            return Some(id);
        },
        None => {},
    }
    match id_after(&s, "placeId=") {
        Some(id) => {
            return Some(id);
        },
        None => {},
    }
    assert(s@.skip(0) =~= s@);
    if s.len() >= 8 && only_digits(&s, 0) {
        return parse_i64_chars(&s);
    }
    None
}

/// A server id is only taken seriously with more than eight bytes: a stray short
/// value is far more likely junk.
pub open spec fn long_enough(v: Option<Seq<char>>) -> Option<Seq<char>> {
    match v {
        Some(t) => if encode_utf8(t).len() > 8 {
            Some(t)
        } else {
            None
        },
        None => None,
    }
}

/// The link's share code, under either of the names it goes by.
pub open spec fn share_code(s: Seq<char>) -> Option<Seq<char>> {
    match param_of(s, "privateServerLinkCode"@) {
        Some(c) => Some(c),
        None => param_of(s, "linkCode"@),
    }
}

/// The target is what the link names.
pub open spec fn target_is(t: JoinTarget, input: Seq<char>) -> bool {
    let s = trimmed(input);
    &&& place_named(input) == Some(t.place_id)
    &&& opt_text(t.job_id) == long_enough(param_of(s, "gameInstanceId"@))
    &&& opt_text(t.access_code) == param_of(s, "accessCode"@)
    &&& opt_text(t.link_code) == share_code(s)
}

/// Recognise a pasted link, including one that names a specific server: the game
/// page, `games/start`, the `roblox://` deep link, a private server link, and a
/// bare place id. Anything else is a search term.
pub fn resolve_join_target(input: &str) -> (r: Option<JoinTarget>)
    ensures
        match r {
            Some(t) => target_is(t, input@),
            None => place_named(input@) is None,
        },
{
    let place_id: i64 = match resolve_place_id(input) {
        Some(id) => id,
        None => {
            return None;
        },
    };
    let s = string_of(&trim_chars(&chars_of(input)));
    let job_id = match query_param(s.as_str(), "gameInstanceId") {
        Some(v) => {
            let long = v.as_str().as_bytes().len() > 8;
            if long {
                Some(v)
            } else {
                None
            }
        },
        None => None,
    };
    let access_code = query_param(s.as_str(), "accessCode");
    let link_code = match query_param(s.as_str(), "privateServerLinkCode") {
        Some(c) => Some(c),
        None => query_param(s.as_str(), "linkCode"),
    };
    Some(JoinTarget { place_id, job_id, access_code, link_code })
}

/// Digits are read up to the first character that is none.
pub proof fn lemma_leading_digits(d: Seq<char>, rest: Seq<char>)
    requires
        all_digits(d),
        rest.len() > 0 ==> !is_digit_spec(rest[0]),
    ensures
        leading_digits(d + rest) == d,
    decreases d.len(),
{
    let s = d + rest;
    if d.len() > 0 {
        assert(s[0] == d[0]);
        assert(s.skip(1) =~= d.skip(1) + rest);
        lemma_leading_digits(d.skip(1), rest);
        assert(seq![d[0]] + d.skip(1) =~= d);
    } else {
        assert(s =~= rest);
        assert(leading_digits(s) =~= d);
    }
}

/// `mark` stands in `s` nowhere before `end`.
pub open spec fn absent_before(s: Seq<char>, mark: Seq<char>, end: int) -> bool {
    forall|p: int| 0 <= p < end ==> !occurs_at(s, mark, p)
}

proof fn lemma_first_found(head: Seq<char>, mark: Seq<char>, rest: Seq<char>)
    requires
        mark.len() > 0,
        absent_before(head + mark + rest, mark, head.len() as int),
    ensures
        find_first(head + mark + rest, mark) == Some(head.len() as int),
        (head + mark + rest).skip(head.len() as int + mark.len()) == rest,
{
    let s = head + mark + rest;
    let h = head.len() as int;
    lemma_find_from(s, mark, 0);
    assert(s.subrange(h, h + mark.len()) =~= mark);
    assert(occurs_at(s, mark, h));
    assert(s.skip(h + mark.len()) =~= rest);
}

proof fn lemma_digits_before_mark(d: Seq<char>, rest: Seq<char>, mark: Seq<char>)
    requires
        all_digits(d),
        mark.len() > 0,
        !is_digit_spec(mark[0]),
        rest.len() > 0 ==> !is_digit_spec(rest[0]),
    ensures
        match find_first(d + rest, mark) {
            Some(j) => leading_digits((d + rest).take(j)) == d,
            None => leading_digits(d + rest) == d,
        },
{
    let s = d + rest;
    lemma_find_from(s, mark, 0);
    match find_first(s, mark) {
        Some(j) => {
            assert(s.subrange(j, j + mark.len())[0] == mark[0]);
            assert(s[j] == mark[0]);
            if j < d.len() {
                assert(s[j] == d[j]);
            }
            let left = rest.take(j - d.len());
            assert(s.take(j) =~= d + left);
            lemma_leading_digits(d, left);
        },
        None => {
            lemma_leading_digits(d, rest);
        },
    }
}

proof fn lemma_id_found(head: Seq<char>, mark: Seq<char>, d: Seq<char>, rest: Seq<char>)
    requires
        all_digits(d),
        mark.len() > 0,
        !is_digit_spec(mark[0]),
        rest.len() > 0 ==> !is_digit_spec(rest[0]),
        absent_before(head + mark + d + rest, mark, head.len() as int),
    ensures
        id_behind(head + mark + d + rest, mark) == read_i64(d),
{
    assert(head + mark + d + rest =~= head + mark + (d + rest));
    lemma_first_found(head, mark, d + rest);
    lemma_digits_before_mark(d, rest, mark);
}

proof fn lemma_place_digits(id: i64)
    requires
        id >= 0,
    ensures
        decimal(id as nat).len() > 0,
        all_digits(decimal(id as nat)),
        is_digit_spec(decimal(id as nat).last()),
        read_i64(decimal(id as nat)) == Some(id),
{
    let d = decimal(id as nat);
    lemma_decimal_shape(id as nat);
    assert(is_digit_spec(d[0]));
    assert(is_digit_spec(d[d.len() - 1]));
}

proof fn lemma_no_id(s: Seq<char>, mark: Seq<char>)
    requires
        forall|p: int|
            occurs_at(s, mark, p) ==> p + mark.len() == s.len() || !is_digit_spec(
                #[trigger] s[p + mark.len()],
            ),
    ensures
        id_behind(s, mark) is None,
{
    lemma_find_from(s, mark, 0);
    match find_first(s, mark) {
        Some(i) => {
            let rest = s.skip(i + mark.len());
            lemma_find_from(rest, mark, 0);
            if rest.len() > 0 {
                assert(rest[0] == s[i + mark.len()]);
            }
            let piece = second_piece(s, mark)->0;
            if piece.len() > 0 {
                assert(piece[0] == rest[0]);
            }
            assert(leading_digits(piece) =~= Seq::<char>::empty());
        },
        None => {},
    }
}

/// White space around what was pasted.
pub open spec fn padding(s: Seq<char>) -> bool {
    forall|i: int| 0 <= i < s.len() ==> is_space_spec(#[trigger] s[i])
}

/// The link to a game's page names the place whose id stands behind `/games/`,
/// whatever follows the id and whatever white space is around the link.
pub proof fn law_game_pages_name_their_place(
    left: Seq<char>,
    head: Seq<char>,
    id: i64,
    rest: Seq<char>,
    right: Seq<char>,
)
    requires
        padding(left),
        padding(right),
        id >= 0,
        rest.len() > 0 ==> !is_digit_spec(rest[0]) && !is_space_spec(rest.last()),
        head.len() > 0 ==> !is_space_spec(head[0]),
        absent_before(
            head + "/games/"@ + decimal(id as nat) + rest,
            "/games/"@,
            head.len() as int,
        ),
    ensures
        place_named(left + (head + "/games/"@ + decimal(id as nat) + rest) + right) == Some(id),
{
    reveal_strlit("/games/");
    let s = head + "/games/"@ + decimal(id as nat) + rest;
    lemma_place_digits(id);
    let d = decimal(id as nat);
    assert(s[0] == if head.len() > 0 {
        head[0]
    } else {
        '/'
    });
    assert(s.last() == if rest.len() > 0 {
        rest.last()
    } else {
        d.last()
    });
    law_trimming_takes_the_padding(left, s, right);
    lemma_id_found(head, "/games/"@, d, rest);
}

/// A link that names no place behind `/games/` names the one behind `placeId=`.
pub proof fn law_start_links_name_their_place(
    left: Seq<char>,
    head: Seq<char>,
    id: i64,
    rest: Seq<char>,
    right: Seq<char>,
)
    requires
        padding(left),
        padding(right),
        id >= 0,
        rest.len() > 0 ==> !is_digit_spec(rest[0]) && !is_space_spec(rest.last()),
        head.len() > 0 ==> !is_space_spec(head[0]),
        ({
            let s = head + "placeId="@ + decimal(id as nat) + rest;
            &&& absent_before(s, "placeId="@, head.len() as int)
            &&& forall|p: int|
                occurs_at(s, "/games/"@, p) ==> p + 7 == s.len() || !is_digit_spec(
                    #[trigger] s[p + 7],
                )
        }),
    ensures
        place_named(left + (head + "placeId="@ + decimal(id as nat) + rest) + right) == Some(id),
{
    reveal_strlit("/games/");
    reveal_strlit("placeId=");
    let s = head + "placeId="@ + decimal(id as nat) + rest;
    lemma_place_digits(id);
    let d = decimal(id as nat);
    assert(s[0] == if head.len() > 0 {
        head[0]
    } else {
        'p'
    });
    assert(s.last() == if rest.len() > 0 {
        rest.last()
    } else {
        d.last()
    });
    law_trimming_takes_the_padding(left, s, right);
    lemma_no_id(s, "/games/"@);
    lemma_id_found(head, "placeId="@, d, rest);
}

/// A number on its own is a place id with eight digits or more, and a search term
/// with fewer.
pub proof fn law_bare_numbers(left: Seq<char>, id: i64, right: Seq<char>)
    requires
        padding(left),
        padding(right),
        id >= 0,
    ensures
        place_named(left + decimal(id as nat) + right) == (if id >= 10_000_000 {
            Some(id)
        } else {
            None
        }),
{
    reveal_strlit("/games/");
    reveal_strlit("placeId=");
    let s = decimal(id as nat);
    lemma_place_digits(id);
    assert(is_digit_spec(s[0]));
    law_trimming_takes_the_padding(left, s, right);
    assert forall|p: int| !occurs_at(s, "/games/"@, p) by {
        if occurs_at(s, "/games/"@, p) {
            assert(s.subrange(p, p + 7)[0] == '/');
            assert(is_digit_spec(s[p]));
        }
    }
    assert forall|p: int| !occurs_at(s, "placeId="@, p) by {
        if occurs_at(s, "placeId="@, p) {
            assert(s.subrange(p, p + 8)[0] == 'p');
            assert(is_digit_spec(s[p]));
        }
    }
    lemma_no_id(s, "/games/"@);
    lemma_no_id(s, "placeId="@);
    lemma_decimal_length(id as nat);
}

proof fn lemma_decimal_length(n: nat)
    ensures
        (decimal(n).len() >= 8) == (n >= 10_000_000),
{
    reveal_with_fuel(decimal, 9);
}

/// Words without a place id in them are a search term.
pub proof fn law_words_are_a_search(s: Seq<char>)
    requires
        s.len() > 0 ==> !is_space_spec(s[0]) && !is_space_spec(s.last()),
        forall|p: int|
            occurs_at(s, "/games/"@, p) ==> p + 7 == s.len() || !is_digit_spec(#[trigger] s[p + 7]),
        forall|p: int|
            occurs_at(s, "placeId="@, p) ==> p + 8 == s.len() || !is_digit_spec(
                #[trigger] s[p + 8],
            ),
        s.len() < 8 || exists|i: int| 0 <= i < s.len() && !is_digit_spec(#[trigger] s[i]),
    ensures
        place_named(s) is None,
{
    reveal_strlit("/games/");
    reveal_strlit("placeId=");
    lemma_trimmed_is(s);
    lemma_no_id(s, "/games/"@);
    lemma_no_id(s, "placeId="@);
}

/// The server that a link asks for is the one its parameters name: the running one
/// by `gameInstanceId`, where that is longer than eight bytes, the reserved one by
/// `accessCode`, and the private one by `privateServerLinkCode`, or else by
/// `linkCode`. A link without them asks for none.
pub proof fn law_links_name_their_server(
    t: JoinTarget,
    head: Seq<char>,
    pairs: Seq<(Seq<char>, Seq<char>)>,
    end: Seq<char>,
)
    requires
        !head.contains('?'),
        !head.contains('&'),
        carriable(pairs),
        fragment(end),
        ({
            let s = head + written(pairs, '?') + end;
            (s.len() > 0 ==> !is_space_spec(s[0]) && !is_space_spec(s.last())) && target_is(t, s)
        }),
    ensures
        forall|k: int|
            0 <= k < pairs.len() && (#[trigger] pairs[k]).0 == "gameInstanceId"@ ==> opt_text(
                t.job_id,
            ) == (if encode_utf8(pairs[k].1).len() > 8 {
                Some(pairs[k].1)
            } else {
                None
            }),
        forall|k: int|
            0 <= k < pairs.len() && (#[trigger] pairs[k]).0 == "accessCode"@ ==> opt_text(
                t.access_code,
            ) == Some(pairs[k].1),
        forall|k: int|
            0 <= k < pairs.len() && (#[trigger] pairs[k]).0 == "privateServerLinkCode"@
                ==> opt_text(t.link_code) == Some(pairs[k].1),
        (forall|k: int|
            0 <= k < pairs.len() ==> (#[trigger] pairs[k]).0 != "privateServerLinkCode"@)
            ==> forall|k: int|
            0 <= k < pairs.len() && (#[trigger] pairs[k]).0 == "linkCode"@ ==> opt_text(
                t.link_code,
            ) == Some(pairs[k].1),
        (forall|k: int| 0 <= k < pairs.len() ==> (#[trigger] pairs[k]).0 != "gameInstanceId"@)
            ==> t.job_id is None,
        (forall|k: int| 0 <= k < pairs.len() ==> (#[trigger] pairs[k]).0 != "accessCode"@)
            ==> t.access_code is None,
        (forall|k: int|
            0 <= k < pairs.len() ==> (#[trigger] pairs[k]).0 != "privateServerLinkCode"@
                && pairs[k].0 != "linkCode"@) ==> t.link_code is None,
{
    reveal_strlit("gameInstanceId");
    reveal_strlit("accessCode");
    reveal_strlit("privateServerLinkCode");
    reveal_strlit("linkCode");
    lemma_trimmed_is(head + written(pairs, '?') + end);
    law_parameters_read_back(head, pairs, end, "gameInstanceId"@);
    law_parameters_read_back(head, pairs, end, "accessCode"@);
    law_parameters_read_back(head, pairs, end, "privateServerLinkCode"@);
    law_parameters_read_back(head, pairs, end, "linkCode"@);
}

/// The games that a search shows are the results of the kind `Game` that nobody has
/// paid for, group by group and in the order within each.
pub proof fn law_which_games_are_shown(groups: Seq<OmniGroup>, g: OmniGroup)
    ensures
        shown_games(Seq::empty()).len() == 0,
        g.content_group_type@ == "Game"@ ==> shown_games(groups.push(g)) == shown_games(groups)
            + g.contents@.filter(|x: OmniGame| !x.is_sponsored),
        g.content_group_type@ != "Game"@ ==> shown_games(groups.push(g)) == shown_games(groups),
{
    assert(groups.push(g).drop_last() =~= groups);
    assert(shown_games(groups) + Seq::<OmniGame>::empty() =~= shown_games(groups));
}

/// Where games, people and groups are searched for.
pub proof fn law_search_services()
    ensures
        OMNI@ == "https://apis.roblox.com/search-api/omni-search"@,
        USERS@ == "https://users.roblox.com/v1"@,
        GROUPS@ == "https://groups.roblox.com/v1"@,
{
}

} // verus!
