//! Where session cookies are kept: in the system's keyring, one per account, or
//! in a file of its own where there is no keyring.

use crate::text::{cat2, chars_of, is_alnum, is_alnum_spec, opt_text, trim, trimmed};
use vstd::prelude::*;
use vstd::string::*;

verus! {

pub const SERVICE: &'static str = "se.sphinxly.rojoin-v4";

/// The ASCII letters and digits of a text.
pub open spec fn letters_and_digits(s: Seq<char>) -> Seq<char>
    decreases s.len(),
{
    if s.len() == 0 {
        Seq::empty()
    } else {
        let before = letters_and_digits(s.drop_last());
        if is_alnum_spec(s.last()) {
            before.push(s.last())
        } else {
            before
        }
    }
}

/// The name of an account's file. Whatever could be part of a path is left out.
pub fn fallback_name(account_id: &str) -> (r: String)
    ensures
        r@ == "session-"@ + letters_and_digits(account_id@),
{
    let v = chars_of(account_id);
    let mut safe = String::new();
    let mut i: usize = 0;
    assert(v@.take(0) =~= Seq::<char>::empty());
    while i < v.len()
        invariant
            i <= v.len(),
            safe@ == letters_and_digits(v@.take(i as int)),
        decreases v.len() - i,
    {
        assert(v@.take(i as int + 1).drop_last() =~= v@.take(i as int));
        if is_alnum(v[i]) {
            safe.push(v[i]);
        }
        i = i + 1;
    }
    assert(v@.take(v@.len() as int) =~= v@);
    cat2("session-", safe.as_str())
}

proof fn lemma_only_letters_and_digits(s: Seq<char>, i: int)
    requires
        0 <= i < letters_and_digits(s).len(),
    ensures
        is_alnum_spec(letters_and_digits(s)[i]),
    decreases s.len(),
{
    let before = letters_and_digits(s.drop_last());
    if i < before.len() {
        lemma_only_letters_and_digits(s.drop_last(), i);
    }
}

/// An account id cannot lead out of the directory: the file's name holds letters,
/// digits and one dash, so no separator and no dot.
pub proof fn law_file_names_stay_put(account_id: Seq<char>, i: int)
    requires
        0 <= i < ("session-"@ + letters_and_digits(account_id)).len(),
    ensures
        is_alnum_spec(("session-"@ + letters_and_digits(account_id))[i])
            || ("session-"@ + letters_and_digits(account_id))[i] == '-',
{
    reveal_strlit("session-");
    if i >= 8 {
        lemma_only_letters_and_digits(account_id, i - 8);
    }
}

/// The cookie of an account: the keyring's unless that is empty, else the file's
/// without the white space around it, unless that is empty too.
pub open spec fn cookie_of(keyring: Option<String>, file: Option<String>) -> Option<Seq<char>> {
    if keyring is Some && keyring->0@.len() > 0 {
        Some(keyring->0@)
    } else {
        match file {
            Some(t) => if trimmed(t@).len() > 0 {
                Some(trimmed(t@))
            } else {
                None
            },
            None => None,
        }
    }
}

/// The cookie of an account, from what the keyring and the file hold.
pub fn load(keyring: Option<String>, file: Option<String>) -> (r: Option<String>)
    ensures
        opt_text(r) == cookie_of(keyring, file),
{
    match keyring {
        Some(c) => {
            if !c.as_str().is_empty() {
                return Some(c);
            }
        },
        None => {},
    }
    match file {
        Some(t) => {
            let c = trim(t.as_str());
            if c.as_str().is_empty() {
                None
            } else {
                Some(c)
            }
        },
        None => None,
    }
}

/// What is to be done after an attempt to store a cookie in the keyring.
#[derive(Debug, Clone, Copy, PartialEq, Eq, Structural)]
pub enum Stored {
    /// Remove the account's file: it must not linger with a stale cookie.
    RemoveFile,
    /// Write the account's file.
    WriteFile,
}

pub fn store(in_keyring: bool) -> (r: Stored)
    ensures
        r == (if in_keyring { Stored::RemoveFile } else { Stored::WriteFile }),
{
    if in_keyring {
        Stored::RemoveFile
    } else {
        Stored::WriteFile
    }
}

/// The name of an account's file keeps its letters and digits, in their order, and
/// leaves everything else out.
pub proof fn law_letters_and_digits_are_kept(s: Seq<char>)
    ensures
        letters_and_digits(s) == s.filter(
            |c: char| '0' <= c <= '9' || 'A' <= c <= 'Z' || 'a' <= c <= 'z',
        ),
    decreases s.len(),
{
    reveal(Seq::filter);
    if s.len() > 0 {
        law_letters_and_digits_are_kept(s.drop_last());
    }
    assert(letters_and_digits(s) =~= s.filter(
        |c: char| '0' <= c <= '9' || 'A' <= c <= 'Z' || 'a' <= c <= 'z',
    ));
}

/// The keyring's cookie counts where there is one, and the file's without it; a blank
/// one counts as none.
pub proof fn law_which_cookie_counts(keyring: Option<String>, file: Option<String>)
    ensures
        keyring matches Some(k) ==> (k@.len() > 0 ==> cookie_of(keyring, file) == Some(k@)),
        (keyring is None || keyring->0@.len() == 0) ==> match file {
            Some(t) => cookie_of(keyring, file) == (if trimmed(t@).len() > 0 {
                Some(trimmed(t@))
            } else {
                None
            }),
            None => cookie_of(keyring, file) is None,
        },
        SERVICE@ == "se.sphinxly.rojoin-v4"@,
{
}

} // verus!
