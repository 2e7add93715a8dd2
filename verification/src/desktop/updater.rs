//! Updates: which version is newer, which file to take, and whether what was
//! downloaded may replace the program.

use crate::number::{decimal, digits_value, lemma_decimal_shape};
use crate::roblox::search::{leading_digits, lemma_leading_digits};
use crate::text::{
    ascii_lowercase, cat3, chars_of, ends_with, ends_with_spec, is_digit, is_digit_spec, range_text,
    to_ascii_lower,
};
use vstd::prelude::*;
use vstd::string::*;

verus! {

/// Where releases are published.
pub const RELEASE_REPO: &'static str = "ikottgicki-rgb/rojoin";

/// The version of this program.
pub const CURRENT: &'static str = "0.1.0";

/// A smaller download is not a real build.
pub const LEAST_BYTES: usize = 1_000_000;

/// A published release.
#[derive(Debug)]
pub struct Release {
    pub tag_name: String,
    pub assets: Vec<Asset>,
}

/// A file of a release.
#[derive(Debug)]
pub struct Asset {
    pub name: String,
    pub browser_download_url: String,
}

#[derive(Debug, Clone, PartialEq, Eq)]
pub enum Status {
    /// No releases are configured for this build.
    NotConfigured,
    UpToDate,
    Available { version: String, url: String },
}

impl Status {
    pub open spec fn words(&self) -> Seq<char> {
        match self {
            Status::NotConfigured => "Updates are not set up for this build yet."@,
            Status::UpToDate => "You are on the latest version ("@ + CURRENT@ + ")."@,
            Status::Available { version, url } => "Version "@ + version@ + " is available."@,
        }
    }

    pub fn message(&self) -> (r: String)
        ensures
            r@ == self.words(),
    {
        match self {
            Status::NotConfigured => "Updates are not set up for this build yet.".to_owned(),
            Status::UpToDate => cat3("You are on the latest version (", CURRENT, ")."),
            Status::Available { version, url } => cat3(
                "Version ",
                version.as_str(),
                " is available.",
            ),
        }
    }
}

/// The file is an archive, by its name.
pub open spec fn names_archive(name: Seq<char>) -> bool {
    let n = ascii_lowercase(name);
    ||| ends_with_spec(n, ".zip"@)
    ||| ends_with_spec(n, ".tar"@)
    ||| ends_with_spec(n, ".gz"@)
    ||| ends_with_spec(n, ".xz"@)
    ||| ends_with_spec(n, ".7z"@)
    ||| ends_with_spec(n, ".bz2"@)
}

pub fn is_archive(name: &str) -> (r: bool)
    ensures
        r == names_archive(name@),
{
    let n = to_ascii_lower(name);
    ends_with(n.as_str(), ".zip") || ends_with(n.as_str(), ".tar") || ends_with(n.as_str(), ".gz")
        || ends_with(n.as_str(), ".xz") || ends_with(n.as_str(), ".7z") || ends_with(
        n.as_str(),
        ".bz2",
    )
}

/// How the file for a platform ends.
pub open spec fn platform_suffix(windows: bool) -> Seq<char> {
    if windows {
        ".exe"@
    } else {
        ".AppImage"@
    }
}

/// The file can replace the program on this platform.
pub open spec fn is_wanted(a: Asset, windows: bool) -> bool {
    ends_with_spec(a.name@, platform_suffix(windows)) && !names_archive(a.name@)
}

/// The file this platform should download: the runnable one, never the archive
/// around it. What is downloaded is written straight over the program.
pub fn wanted_asset(assets: &Vec<Asset>, windows: bool) -> (r: Option<&Asset>)
    ensures
        match r {
            Some(a) => is_wanted(*a, windows) && exists|i: int|
                0 <= i < assets.len() && *a == #[trigger] assets@[i] && forall|k: int|
                    0 <= k < i ==> !is_wanted(#[trigger] assets@[k], windows),
            None => forall|k: int|
                0 <= k < assets.len() ==> !is_wanted(#[trigger] assets@[k], windows),
        },
{
    let mut i: usize = 0;
    while i < assets.len()
        invariant
            i <= assets.len(),
            forall|k: int| 0 <= k < i ==> !is_wanted(#[trigger] assets@[k], windows),
        decreases assets.len() - i,
    {
        let suffix = if windows {
            ".exe"
        } else {
            ".AppImage"
        };
        if ends_with(assets[i].name.as_str(), suffix) && !is_archive(assets[i].name.as_str()) {
            assert(is_wanted(assets@[i as int], windows));
            return Some(&assets[i]);
        }
        i = i + 1;
    }
    None
}

/// The bytes begin like a program of this platform: `MZ` on Windows, an ELF
/// header elsewhere.
pub open spec fn is_program(bytes: Seq<u8>, windows: bool) -> bool {
    if windows {
        bytes.len() >= 2 && bytes[0] == 0x4d && bytes[1] == 0x5a
    } else {
        bytes.len() >= 4 && bytes[0] == 0x7f && bytes[1] == 0x45 && bytes[2] == 0x4c && bytes[3]
            == 0x46
    }
}

/// The last line of defence before the program is overwritten: a truncated
/// download, an error page or an archive all fail here.
pub fn looks_executable(bytes: &[u8], windows: bool) -> (r: bool)
    ensures
        r == is_program(bytes@, windows),
{
    if windows {
        bytes.len() >= 2 && bytes[0] == 0x4d && bytes[1] == 0x5a
    } else {
        bytes.len() >= 4 && bytes[0] == 0x7f && bytes[1] == 0x45 && bytes[2] == 0x4c && bytes[3]
            == 0x46
    }
}

/// Whether a download may replace the program, and why not.
pub fn install(bytes: &[u8], windows: bool) -> (r: std::result::Result<(), String>)
    ensures
        match r {
            Ok(()) => bytes@.len() >= LEAST_BYTES && is_program(bytes@, windows),
            Err(e) => if bytes@.len() < LEAST_BYTES {
                e@ == "that download is too small to be a real build"@
            } else {
                !is_program(bytes@, windows) && e@
                    == "that download is not a runnable build, so it was left alone. Download the new version by hand instead."@
            },
        },
{
    if bytes.len() < LEAST_BYTES {
        return Err("that download is too small to be a real build".to_owned());
    }
    if !looks_executable(bytes, windows) {
        return Err(
            "that download is not a runnable build, so it was left alone. Download the new version by hand instead.".to_owned(),
        );
    }
    Ok(())
}

/// Where one part of a version ends: at a dot or a dash.
pub open spec fn part_end(s: Seq<char>) -> nat
    decreases s.len(),
{
    if s.len() == 0 || s[0] == '.' || s[0] == '-' {
        0
    } else {
        1 + part_end(s.skip(1))
    }
}

/// The number that a part of a version begins with; zero where there is none, or
/// none of 64 bits.
pub open spec fn part_number(part: Seq<char>) -> nat {
    let v = digits_value(leading_digits(part));
    if v <= u64::MAX {
        v
    } else {
        0
    }
}

/// The numbers of a version.
pub open spec fn numbers_of(v: Seq<char>) -> Seq<nat>
    decreases v.len(),
{
    let k = part_end(v);
    if k < v.len() {
        seq![part_number(v.take(k as int))] + numbers_of(v.skip(k as int + 1))
    } else {
        seq![part_number(v)]
    }
}

/// The number at a place; zero past the end.
pub open spec fn number_at(v: Seq<nat>, i: int) -> nat {
    if 0 <= i < v.len() {
        v[i]
    } else {
        0
    }
}

/// From place `i` on, the first number that differs is greater in `a`.
pub open spec fn greater_from(a: Seq<nat>, b: Seq<nat>, i: int) -> bool
    decreases (if a.len() > b.len() { a.len() } else { b.len() }) - i,
{
    if i < 0 || (i >= a.len() && i >= b.len()) {
        false
    } else if number_at(a, i) != number_at(b, i) {
        number_at(a, i) > number_at(b, i)
    } else {
        greater_from(a, b, i + 1)
    }
}

/// A version is newer than another.
pub open spec fn newer(candidate: Seq<char>, current: Seq<char>) -> bool {
    greater_from(numbers_of(candidate), numbers_of(current), 0)
}

proof fn lemma_part_end(s: Seq<char>, k: int)
    requires
        0 <= k <= s.len(),
        forall|i: int| 0 <= i < k ==> s[i] != '.' && s[i] != '-',
        k < s.len() ==> s[k] == '.' || s[k] == '-',
    ensures
        part_end(s) == k,
    decreases s.len(),
{
    if k > 0 {
        assert(s[0] != '.' && s[0] != '-');
        assert forall|i: int| 0 <= i < k - 1 implies s.skip(1)[i] != '.' && s.skip(1)[i]
            != '-' by {
            assert(s.skip(1)[i] == s[i + 1]);
        }
        lemma_part_end(s.skip(1), k - 1);
    }
}

/// The number that the digits from `from` on denote, before `to`.
fn number_between(v: &Vec<char>, from: usize, to: usize) -> (n: u64)
    requires
        from <= to <= v.len(),
    ensures
        n == part_number(v@.subrange(from as int, to as int)),
{
    let ghost part = v@.subrange(from as int, to as int);
    let mut i: usize = from;
    let mut n: u64 = 0;
    let mut fits = true;
    assert(part.skip(0) =~= part);
    let ghost mut seen: Seq<char> = Seq::empty();
    assert(seen + leading_digits(part) =~= leading_digits(part));
    while i < to && is_digit(v[i])
        invariant
            from <= i <= to <= v.len(),
            part == v@.subrange(from as int, to as int),
            seen + leading_digits(part.skip(i - from)) == leading_digits(part),
            fits ==> n == digits_value(seen),
            !fits ==> digits_value(seen) > u64::MAX,
        decreases to - i,
    {
        let d: u64 = (v[i] as u64) - ('0' as u64);
        assert(part.skip(i - from)[0] == v@[i as int]);
        assert(part.skip(i - from).skip(1) =~= part.skip(i - from + 1));
        let ghost longer = seen.push(v@[i as int]);
        assert(seen + (seq![v@[i as int]] + leading_digits(part.skip(i - from + 1))) =~= longer
            + leading_digits(part.skip(i - from + 1)));
        assert(longer.drop_last() =~= seen);
        assert(digits_value(longer) == digits_value(seen) * 10 + d);
        if fits {
            let wide: u128 = (n as u128) * 10 + (d as u128);
            if wide > u64::MAX as u128 {
                fits = false;
            } else {
                n = wide as u64;
            }
        }
        proof {
            seen = longer;
        }
        i = i + 1;
    }
    proof {
        if i < to {
            assert(part.skip(i - from)[0] == v@[i as int]);
        }
        assert(leading_digits(part.skip(i - from)) =~= Seq::<char>::empty());
        assert(seen =~= leading_digits(part));
    }
    if fits {
        n
    } else {
        0
    }
}

pub open spec fn as_nats(v: Seq<u64>) -> Seq<nat> {
    v.map_values(|n: u64| n as nat)
}

/// The numbers of a version.
pub fn version_numbers(version: &str) -> (out: Vec<u64>)
    ensures
        as_nats(out@) == numbers_of(version@),
{
    let v = chars_of(version);
    let mut out: Vec<u64> = Vec::new();
    let mut start: usize = 0;
    assert(v@.skip(0) =~= v@);
    assert(as_nats(out@) + numbers_of(v@) =~= numbers_of(v@));
    loop
        invariant
            start <= v.len(),
            v@ == version@,
            as_nats(out@) + numbers_of(v@.skip(start as int)) == numbers_of(version@),
        decreases v.len() - start,
    {
        let ghost rest = v@.skip(start as int);
        let ghost before = as_nats(out@);
        let mut end: usize = start;
        while end < v.len() && v[end] != '.' && v[end] != '-'
            invariant
                start <= end <= v.len(),
                rest == v@.skip(start as int),
                forall|i: int| 0 <= i < end - start ==> rest[i] != '.' && rest[i] != '-',
            decreases v.len() - end,
        {
            assert(rest[end - start] == v@[end as int]);
            end = end + 1;
        }
        proof {
            if end < v.len() {
                assert(rest[end - start] == v@[end as int]);
            }
            lemma_part_end(rest, end - start);
        }
        let n: u64 = number_between(&v, start, end);
        assert(v@.subrange(start as int, end as int) =~= rest.take(end - start));
        out.push(n);
        assert(as_nats(out@) =~= before.push(n as nat));
        if end < v.len() {
            assert(rest.skip(end - start + 1) =~= v@.skip(end + 1));
            assert(before + (seq![n as nat] + numbers_of(v@.skip(end + 1))) =~= as_nats(out@)
                + numbers_of(v@.skip(end + 1)));
            start = end + 1;
        } else {
            assert(rest.take(end - start) =~= rest);
            assert(before + seq![n as nat] =~= as_nats(out@));
            return out;
        }
    }
}

/// Whether a version is newer. Numbers are compared as numbers, so 0.10.0 is
/// newer than 0.9.0.
pub fn is_newer(candidate: &str, current: &str) -> (r: bool)
    ensures
        r == newer(candidate@, current@),
{
    let a = version_numbers(candidate);
    let b = version_numbers(current);
    let n: usize = if a.len() > b.len() {
        a.len()
    } else {
        b.len()
    };
    let ghost x = as_nats(a@);
    let ghost y = as_nats(b@);
    let mut i: usize = 0;
    while i < n
        invariant
            i <= n,
            n == (if a.len() > b.len() { a.len() } else { b.len() }),
            x == as_nats(a@),
            y == as_nats(b@),
            x == numbers_of(candidate@),
            y == numbers_of(current@),
            greater_from(x, y, 0) == greater_from(x, y, i as int),
        decreases n - i,
    {
        let p: u64 = if i < a.len() {
            a[i]
        } else {
            0
        };
        let q: u64 = if i < b.len() {
            b[i]
        } else {
            0
        };
        assert(number_at(x, i as int) == p);
        assert(number_at(y, i as int) == q);
        if p != q {
            return p > q;
        }
        i = i + 1;
    }
    false
}

proof fn lemma_greater_from(a: Seq<nat>, b: Seq<nat>, i: int)
    requires
        0 <= i,
    ensures
        greater_from(a, b, i) <==> exists|k: int|
            i <= k && number_at(a, k) > #[trigger] number_at(b, k) && forall|j: int|
                i <= j < k ==> number_at(a, j) == #[trigger] number_at(b, j),
    decreases (if a.len() > b.len() { a.len() } else { b.len() }) - i,
{
    if i < a.len() || i < b.len() {
        if number_at(a, i) == number_at(b, i) {
            lemma_greater_from(a, b, i + 1);
            if greater_from(a, b, i + 1) {
                let k = choose|k: int|
                    i + 1 <= k && number_at(a, k) > #[trigger] number_at(b, k) && forall|j: int|
                        i + 1 <= j < k ==> number_at(a, j) == #[trigger] number_at(b, j);
                assert(i <= k && number_at(a, k) > number_at(b, k));
            }
        } else if number_at(a, i) > number_at(b, i) {
            assert(greater_from(a, b, i));
        }
    }
}

/// Being newer is an order: no version is newer than itself, no two are newer
/// than each other, and what is newer than something newer is newer.
pub proof fn law_newer_is_an_order(a: Seq<char>, b: Seq<char>, c: Seq<char>)
    ensures
        !newer(a, a),
        newer(a, b) ==> !newer(b, a),
        newer(a, b) && newer(b, c) ==> newer(a, c),
{
    let x = numbers_of(a);
    let y = numbers_of(b);
    let z = numbers_of(c);
    lemma_greater_from(x, x, 0);
    lemma_greater_from(x, y, 0);
    lemma_greater_from(y, x, 0);
    lemma_greater_from(y, z, 0);
    lemma_greater_from(x, z, 0);
    if newer(a, b) {
        let k = choose|k: int|
            0 <= k && number_at(x, k) > #[trigger] number_at(y, k) && forall|j: int|
                0 <= j < k ==> number_at(x, j) == #[trigger] number_at(y, j);
        if newer(b, a) {
            let m = choose|m: int|
                0 <= m && number_at(y, m) > #[trigger] number_at(x, m) && forall|j: int|
                    0 <= j < m ==> number_at(y, j) == #[trigger] number_at(x, j);
            if m < k {
                assert(number_at(x, m) == number_at(y, m));
            } else if k < m {
                assert(number_at(y, k) == number_at(x, k));
            }
        }
        if newer(b, c) {
            let m = choose|m: int|
                0 <= m && number_at(y, m) > #[trigger] number_at(z, m) && forall|j: int|
                    0 <= j < m ==> number_at(y, j) == #[trigger] number_at(z, j);
            let p = if k < m {
                k
            } else {
                m
            };
            assert(number_at(x, p) == number_at(y, p) || p == k);
            assert(number_at(y, p) == number_at(z, p) || p == m);
            assert(number_at(x, p) > number_at(z, p));
            assert forall|j: int| 0 <= j < p implies number_at(x, j) == #[trigger] number_at(
                z,
                j,
            ) by {
                assert(number_at(x, j) == number_at(y, j));
                assert(number_at(y, j) == number_at(z, j));
            }
        }
    }
}

/// A tag without the letters `v` in front of it.
pub open spec fn without_v(tag: Seq<char>) -> Seq<char>
    decreases tag.len(),
{
    if tag.len() > 0 && tag[0] == 'v' {
        without_v(tag.skip(1))
    } else {
        tag
    }
}

fn version_of(tag: &str) -> (r: String)
    ensures
        r@ == without_v(tag@),
{
    let v = chars_of(tag);
    let mut k: usize = 0;
    assert(v@.skip(0) =~= v@);
    while k < v.len() && v[k] == 'v'
        invariant
            k <= v.len(),
            without_v(v@) == without_v(v@.skip(k as int)),
        decreases v.len() - k,
    {
        assert(v@.skip(k as int).skip(1) =~= v@.skip(k as int + 1));
        k = k + 1;
    }
    let r = range_text(&v, k, v.len());
    assert(r@ =~= v@.skip(k as int));
    r
}

/// Some file of the release can replace the program.
pub open spec fn offers(assets: Seq<Asset>, windows: bool) -> bool {
    exists|i: int| 0 <= i < assets.len() && is_wanted(#[trigger] assets[i], windows)
}

/// What the latest release means. One that could not be read, is not newer or
/// has no file for this platform means that nothing is offered.
pub fn check(release: Option<Release>, windows: bool) -> (r: Status)
    ensures
        match r {
            Status::Available { version, url } => release is Some && version@ == without_v(
                release->0.tag_name@,
            ) && newer(version@, CURRENT@) && exists|i: int|
                0 <= i < release->0.assets.len() && is_wanted(
                    #[trigger] release->0.assets@[i],
                    windows,
                ) && url@ == release->0.assets@[i].browser_download_url@ && forall|k: int|
                    0 <= k < i ==> !is_wanted(#[trigger] release->0.assets@[k], windows),
            Status::UpToDate => release is None || !newer(
                without_v(release->0.tag_name@),
                CURRENT@,
            ) || !offers(release->0.assets@, windows),
            Status::NotConfigured => false,
        },
{
    let release = match release {
        Some(r) => r,
        None => {
            return Status::UpToDate;
        },
    };
    let latest = version_of(release.tag_name.as_str());
    if !is_newer(latest.as_str(), CURRENT) {
        return Status::UpToDate;
    }
    match wanted_asset(&release.assets, windows) {
        Some(asset) => Status::Available {
            version: latest,
            url: asset.browser_download_url.clone(),
        },
        None => Status::UpToDate,
    }
}

proof fn lemma_number_of_digits(d: Seq<char>, rest: Seq<char>, n: nat)
    requires
        d == decimal(n),
        rest.len() > 0 ==> !is_digit_spec(rest[0]),
        n <= u64::MAX,
    ensures
        part_number(d + rest) == n,
{
    lemma_decimal_shape(n);
    lemma_leading_digits(d, rest);
}

/// A version is read number by number: what stands before a dot or a dash, and then
/// the rest. A part counts for the number that it begins with.
pub proof fn law_versions_are_read_by_their_numbers(n: nat, extra: Seq<char>, rest: Seq<char>)
    requires
        n <= u64::MAX,
        extra.len() > 0 ==> !is_digit_spec(extra[0]),
        !extra.contains('.'),
        !extra.contains('-'),
    ensures
        numbers_of(decimal(n) + extra) == seq![n],
        numbers_of(decimal(n) + extra + seq!['.'] + rest) == seq![n] + numbers_of(rest),
        numbers_of(decimal(n) + extra + seq!['-'] + rest) == seq![n] + numbers_of(rest),
{
    let d = decimal(n);
    let part = d + extra;
    lemma_decimal_shape(n);
    lemma_number_of_digits(d, extra, n);
    assert forall|i: int| 0 <= i < part.len() implies part[i] != '.' && part[i] != '-' by {
        if i < d.len() {
            assert(part[i] == d[i]);
            assert(is_digit_spec(d[i]));
        } else {
            assert(part[i] == extra[i - d.len()]);
        }
    }
    lemma_part_end(part, part.len() as int);
    assert(numbers_of(part) =~= seq![n]);
    let dot = part + seq!['.'] + rest;
    lemma_part_end(dot, part.len() as int);
    assert(dot.take(part.len() as int) =~= part);
    assert(dot.skip(part.len() as int + 1) =~= rest);
    let dash = part + seq!['-'] + rest;
    lemma_part_end(dash, part.len() as int);
    assert(dash.take(part.len() as int) =~= part);
    assert(dash.skip(part.len() as int + 1) =~= rest);
}

/// The first number that differs decides: a version is newer where its own is greater.
/// Numbers that are missing count as zero.
pub proof fn law_the_first_difference_decides(a: Seq<char>, b: Seq<char>, k: int)
    requires
        k >= 0,
        forall|j: int|
            0 <= j < k ==> number_at(numbers_of(a), j) == #[trigger] number_at(numbers_of(b), j),
        number_at(numbers_of(a), k) != number_at(numbers_of(b), k),
    ensures
        newer(a, b) <==> number_at(numbers_of(a), k) > number_at(numbers_of(b), k),
{
    let x = numbers_of(a);
    let y = numbers_of(b);
    lemma_greater_from(x, y, 0);
    lemma_greater_from(y, x, 0);
    if newer(a, b) {
        let m = choose|m: int|
            0 <= m && number_at(x, m) > #[trigger] number_at(y, m) && forall|j: int|
                0 <= j < m ==> number_at(x, j) == #[trigger] number_at(y, j);
        if k < m {
            assert(number_at(x, k) == number_at(y, k));
        } else if m < k {
            assert(number_at(x, m) == number_at(y, m));
        }
    } else if number_at(x, k) > number_at(y, k) {
        assert(number_at(x, k) > number_at(y, k) && forall|j: int|
            0 <= j < k ==> number_at(x, j) == #[trigger] number_at(y, j));
    }
}

/// Missing numbers count as zero.
pub proof fn law_missing_numbers_are_zero(v: Seq<nat>, i: int)
    ensures
        0 <= i < v.len() ==> number_at(v, i) == v[i],
        i >= v.len() ==> number_at(v, i) == 0,
{
}

/// The letter in front of a tag is no part of the version.
pub proof fn law_tags_name_versions(v: Seq<char>)
    ensures
        without_v(seq!['v'] + v) == without_v(v),
        v.len() > 0 && v[0] != 'v' ==> without_v(v) == v,
{
    assert((seq!['v'] + v).skip(1) =~= v);
}

/// What can replace the program: a file of the platform's own kind, and no archive.
pub proof fn law_what_can_replace_the_program(a: Asset)
    ensures
        is_wanted(a, true) <==> ends_with_spec(a.name@, ".exe"@) && !names_archive(a.name@),
        is_wanted(a, false) <==> ends_with_spec(a.name@, ".AppImage"@) && !names_archive(a.name@),
        names_archive(a.name@) <==> {
            let n = ascii_lowercase(a.name@);
            ends_with_spec(n, ".zip"@) || ends_with_spec(n, ".tar"@) || ends_with_spec(n, ".gz"@)
                || ends_with_spec(n, ".xz"@) || ends_with_spec(n, ".7z"@) || ends_with_spec(
                n,
                ".bz2"@,
            )
        },
{
}

/// How a program begins: with `MZ` on Windows, and elsewhere with the mark of an ELF
/// file.
pub proof fn law_how_programs_begin(bytes: Seq<u8>)
    ensures
        is_program(bytes, true) <==> bytes.len() >= 2 && bytes.take(2) == seq![77u8, 90u8],
        is_program(bytes, false) <==> bytes.len() >= 4 && bytes.take(4)
            == seq![127u8, 69u8, 76u8, 70u8],
        LEAST_BYTES == 1_000_000,
        RELEASE_REPO@ == "ikottgicki-rgb/rojoin"@,
        CURRENT@ == "0.1.0"@,
{
    if bytes.len() >= 2 {
        if is_program(bytes, true) {
            assert(bytes.take(2) =~= seq![77u8, 90u8]);
        }
        assert(bytes.take(2)[0] == bytes[0] && bytes.take(2)[1] == bytes[1]);
    }
    if bytes.len() >= 4 {
        if is_program(bytes, false) {
            assert(bytes.take(4) =~= seq![127u8, 69u8, 76u8, 70u8]);
        }
        assert(bytes.take(4)[0] == bytes[0] && bytes.take(4)[1] == bytes[1] && bytes.take(4)[2]
            == bytes[2] && bytes.take(4)[3] == bytes[3]);
    }
}

/// What is said of updates.
pub proof fn law_what_is_said_of_updates(s: Status)
    ensures
        match s {
            Status::NotConfigured => s.words() == "Updates are not set up for this build yet."@,
            Status::UpToDate => s.words() == "You are on the latest version ("@ + CURRENT@ + ")."@,
            Status::Available { version, url } => s.words() == "Version "@ + version@
                + " is available."@,
        },
{
}

} // verus!
