//! Integers and their decimal notation.

use crate::text::{chars_of, is_digit, is_digit_spec};
use vstd::prelude::*;
use vstd::string::*;

verus! {

/// The character for one decimal digit.
pub open spec fn digit_char(d: int) -> char {
    (('0' as u32) + d) as char
}

/// The decimal notation of a natural number.
pub open spec fn decimal(n: nat) -> Seq<char>
    decreases n,
{
    if n < 10 {
        seq![digit_char(n as int)]
    } else {
        decimal(n / 10).push(digit_char((n % 10) as int))
    }
}

/// The decimal notation of an integer.
pub open spec fn decimal_int(n: int) -> Seq<char> {
    if n < 0 {
        seq!['-'] + decimal((-n) as nat)
    } else {
        decimal(n as nat)
    }
}

pub open spec fn all_digits(s: Seq<char>) -> bool {
    forall|i: int| 0 <= i < s.len() ==> is_digit_spec(#[trigger] s[i])
}

pub open spec fn digit_value(c: char) -> nat {
    (c as u32 - '0' as u32) as nat
}

/// The number that a row of digits denotes.
pub open spec fn digits_value(s: Seq<char>) -> nat
    decreases s.len(),
{
    if s.len() == 0 {
        0
    } else {
        digits_value(s.drop_last()) * 10 + digit_value(s.last())
    }
}

/// What a text reads as in decimal: an optional sign, then one or more digits.
pub open spec fn read_int(s: Seq<char>) -> Option<int> {
    if s.len() > 0 && (s[0] == '-' || s[0] == '+') {
        let body = s.skip(1);
        if body.len() > 0 && all_digits(body) {
            Some(if s[0] == '-' { -(digits_value(body) as int) } else { digits_value(body) as int })
        } else {
            None
        }
    } else if s.len() > 0 && all_digits(s) {
        Some(digits_value(s) as int)
    } else {
        None
    }
}

/// What a text reads as in decimal, where the sign may only be a plus.
pub open spec fn read_nat(s: Seq<char>) -> Option<nat> {
    let body = if s.len() > 0 && s[0] == '+' { s.skip(1) } else { s };
    if body.len() > 0 && all_digits(body) {
        Some(digits_value(body))
    } else {
        None
    }
}

/// The 64-bit integer a text reads as, as `str::parse` has it.
pub open spec fn read_i64(s: Seq<char>) -> Option<i64> {
    match read_int(s) {
        Some(n) => if i64::MIN <= n <= i64::MAX { Some(n as i64) } else { None },
        None => None,
    }
}

pub open spec fn read_u32(s: Seq<char>) -> Option<u32> {
    match read_nat(s) {
        Some(n) => if n <= u32::MAX { Some(n as u32) } else { None },
        None => None,
    }
}

pub fn digit(d: u8) -> (c: char)
    requires
        d < 10,
    ensures
        c == digit_char(d as int),
        is_digit_spec(c),
        digit_value(c) == d,
{
    (48u8 + d) as char
}

pub proof fn lemma_decimal_shape(n: nat)
    ensures
        decimal(n).len() > 0,
        all_digits(decimal(n)),
        digits_value(decimal(n)) == n,
        n > 0 ==> decimal(n)[0] != '0',
    decreases n,
{
    if n < 10 {
        let s = decimal(n);
        assert(s.drop_last() =~= Seq::<char>::empty());
        assert(digits_value(s.drop_last()) == 0);
        assert(s.last() == digit_char(n as int));
    } else {
        lemma_decimal_shape(n / 10);
        let s = decimal(n);
        assert(s.drop_last() =~= decimal(n / 10));
        assert(s[0] == decimal(n / 10)[0]);
    }
}

/// Reading an integer's notation gives the integer back.
pub proof fn law_decimal_reads_back(n: int)
    ensures
        read_int(decimal_int(n)) == Some(n),
        n >= 0 ==> read_nat(decimal_int(n)) == Some(n as nat),
{
    if n < 0 {
        lemma_decimal_shape((-n) as nat);
        assert(decimal_int(n).skip(1) =~= decimal((-n) as nat));
    } else {
        lemma_decimal_shape(n as nat);
        assert(is_digit_spec(decimal(n as nat)[0]));
    }
}

/// Append the decimal notation of `n`.
fn push_decimal(s: &mut String, n: u64)
    ensures
        final(s)@ == old(s)@ + decimal(n as nat),
    decreases n,
{
    if n >= 10 {
        push_decimal(s, n / 10);
    }
    s.push(digit((n % 10) as u8));
    assert(s@ =~= old(s)@ + decimal(n as nat));
}

pub fn nat_text(n: u64) -> (s: String)
    ensures
        s@ == decimal(n as nat),
{
    let mut s = String::new();
    push_decimal(&mut s, n);
    assert(s@ =~= decimal(n as nat));
    s
}

pub fn int_text(n: i64) -> (s: String)
    ensures
        s@ == decimal_int(n as int),
{
    let mut s = String::new();
    if n < 0 {
        s.push('-');
        let m: u64 = if n == i64::MIN {
            0x8000_0000_0000_0000u64
        } else {
            (-n) as u64
        };
        push_decimal(&mut s, m);
        assert(s@ =~= decimal_int(n as int));
    } else {
        push_decimal(&mut s, n as u64);
        assert(s@ =~= decimal_int(n as int));
    }
    s
}

pub fn only_digits(v: &Vec<char>, from: usize) -> (r: bool)
    requires
        from <= v.len(),
    ensures
        r == all_digits(v@.skip(from as int)),
{
    let mut i: usize = from;
    while i < v.len()
        invariant
            from <= i <= v.len(),
            forall|k: int| from <= k < i ==> is_digit_spec(#[trigger] v@[k]),
        decreases v.len() - i,
    {
        if !is_digit(v[i]) {
            assert(!is_digit_spec(v@.skip(from as int)[i - from]));
            return false;
        }
        i = i + 1;
    }
    assert forall|k: int| 0 <= k < v@.skip(from as int).len() implies is_digit_spec(
        #[trigger] v@.skip(from as int)[k],
    ) by {
        assert(is_digit_spec(v@[from + k]));
    }
    true
}

/// Longer rows of digits denote no smaller numbers.
pub proof fn lemma_digits_value_grows(s: Seq<char>, i: int)
    requires
        0 <= i <= s.len(),
    ensures
        digits_value(s.take(i)) <= digits_value(s),
    decreases s.len() - i,
{
    if i < s.len() {
        lemma_digits_value_grows(s, i + 1);
        assert(s.take(i + 1).drop_last() =~= s.take(i));
    } else {
        assert(s.take(i) =~= s);
    }
}

/// The number that the digits of `v` from `from` on denote, if it is at most
/// `most`.
fn bounded_digits(v: &Vec<char>, from: usize, most: u64) -> (r: Option<u64>)
    requires
        from <= v.len(),
        all_digits(v@.skip(from as int)),
    ensures
        match r {
            Some(n) => n == digits_value(v@.skip(from as int)) && n <= most,
            None => digits_value(v@.skip(from as int)) > most,
        },
{
    let ghost s = v@.skip(from as int);
    let mut n: u64 = 0;
    let mut i: usize = from;
    assert(s.take(0) =~= Seq::<char>::empty());
    while i < v.len()
        invariant
            from <= i <= v.len(),
            s == v@.skip(from as int),
            all_digits(s),
            n == digits_value(s.take(i - from)),
            n <= most,
        decreases v.len() - i,
    {
        assert(s[i - from] == v@[i as int]);
        assert(is_digit_spec(s[i - from]));
        let d: u64 = (v[i] as u64) - ('0' as u64);
        assert(s.take(i - from + 1).drop_last() =~= s.take(i - from));
        assert(s.take(i - from + 1).last() == v@[i as int]);
        let wide: u128 = (n as u128) * 10 + (d as u128);
        assert(wide == digits_value(s.take(i - from + 1)));
        if wide > most as u128 {
            proof {
                lemma_digits_value_grows(s, i - from + 1);
            }
            return None;
        }
        n = wide as u64;
        i = i + 1;
    }
    assert(s.take(s.len() as int) =~= s);
    Some(n)
}

/// Read a 64-bit integer.
pub fn parse_i64(t: &str) -> (r: Option<i64>)
    ensures
        r == read_i64(t@),
{
    let v = chars_of(t);
    parse_i64_chars(&v)
}

pub fn parse_i64_chars(v: &Vec<char>) -> (r: Option<i64>)
    ensures
        r == read_i64(v@),
{
    if v.len() == 0 {
        return None;
    }
    let signed = v[0] == '-' || v[0] == '+';
    let from: usize = if signed { 1 } else { 0 };
    assert(v@.skip(0) =~= v@);
    if from == v.len() || !only_digits(v, from) {
        return None;
    }
    if v[0] == '-' {
        match bounded_digits(v, from, 0x8000_0000_0000_0000) {
            Some(n) => Some(
                if n == 0x8000_0000_0000_0000 {
                    i64::MIN
                } else {
                    -(n as i64)
                },
            ),
            None => None,
        }
    } else {
        match bounded_digits(v, from, 0x7fff_ffff_ffff_ffff) {
            Some(n) => Some(n as i64),
            None => None,
        }
    }
}

/// Read a natural number below two to the thirty-second.
pub fn parse_u32(t: &str) -> (r: Option<u32>)
    ensures
        r == read_u32(t@),
{
    let v = chars_of(t);
    if v.len() == 0 {
        return None;
    }
    let from: usize = if v[0] == '+' { 1 } else { 0 };
    assert(v@.skip(0) =~= v@);
    if from == v.len() || !only_digits(&v, from) {
        return None;
    }
    match bounded_digits(&v, from, 0xffff_ffff) {
        Some(n) => Some(n as u32),
        None => None,
    }
}


/// Read an index below `n`.
pub fn parse_index(t: &str, n: usize) -> (r: Option<usize>)
    ensures
        match r {
            Some(k) => k < n && read_nat(t@) == Some(k as nat),
            None => read_nat(t@) is None || read_nat(t@)->0 >= n,
        },
{
    let v = chars_of(t);
    if v.len() == 0 {
        return None;
    }
    let from: usize = if v[0] == '+' { 1 } else { 0 };
    assert(v@.skip(0) =~= v@);
    if from == v.len() || !only_digits(&v, from) {
        return None;
    }
    if n == 0 {
        return None;
    }
    match bounded_digits(&v, from, (n - 1) as u64) {
        Some(k) => Some(k as usize),
        None => None,
    }
}

/// A text reads as a number of 64 bits exactly where its number is one, and of 32 bits
/// likewise: what does not fit is not cut, it is refused.
pub proof fn law_numbers_that_fit_are_read(n: int)
    ensures
        i64::MIN <= n <= i64::MAX ==> read_i64(decimal_int(n)) == Some(n as i64),
        n < i64::MIN || n > i64::MAX ==> read_i64(decimal_int(n)) is None,
        0 <= n <= u32::MAX ==> read_u32(decimal_int(n)) == Some(n as u32),
        n > u32::MAX ==> read_u32(decimal_int(n)) is None,
{
    law_decimal_reads_back(n);
}

/// What is no number is not read: nothing at all, a sign alone, or anything with a
/// character that is neither a digit nor the sign in front.
pub proof fn law_words_are_no_numbers(s: Seq<char>, i: int)
    ensures
        read_int(Seq::empty()) is None,
        read_int(seq!['-']) is None,
        read_int(seq!['+']) is None,
        0 <= i < s.len() && !is_digit_spec(s[i]) && !(i == 0 && (s[i] == '-' || s[i] == '+'))
            ==> read_int(s) is None && read_nat(s) is None,
{
    if 0 <= i < s.len() && !is_digit_spec(s[i]) {
        assert(i > 0 ==> s.skip(1)[i - 1] == s[i]);
    }
}

} // verus!
