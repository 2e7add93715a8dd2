//! JSON documents that hold settings: reading a member, and changing one.

use crate::json::{is_word, json_quote, quoted};
use crate::launcher::sober::{
    members_at, object_at, shape_of, stripped_lines, FlagShape, FlagValue,
};
use crate::number::{decimal_int, int_text};
use crate::text::{lines_of, opt_text};
use vstd::prelude::*;

verus! {

/// The member of a document's object under a name, as JSON text. Nothing where
/// the text is no JSON or has no such member.
pub uninterp spec fn member(text: Seq<char>, key: Seq<char>) -> Option<Seq<char>>;

/// Whether the value at a JSON pointer is an object. Nothing where the text is no
/// JSON or has no such value.
pub uninterp spec fn object_kind(text: Seq<char>, pointer: Seq<char>) -> Option<bool>;

/// The document with a member put into the object at a JSON pointer, written out
/// again. Nothing where that cannot be done.
pub uninterp spec fn inserted(
    text: Seq<char>,
    pointer: Seq<char>,
    key: Seq<char>,
    value: Seq<char>,
) -> Option<Seq<char>>;

/// The document with a member taken out of the object at a JSON pointer, written
/// out again. Nothing where that cannot be done.
pub uninterp spec fn removed(text: Seq<char>, pointer: Seq<char>, key: Seq<char>) -> Option<
    Seq<char>,
>;

/// JSON that is written out as it is read: a boolean, an empty object, a number
/// that fits, or a string as it is quoted.
pub open spec fn is_canonical(value: Seq<char>) -> bool {
    ||| value == "true"@
    ||| value == "false"@
    ||| value == "{}"@
    ||| exists|n: i64| value == #[trigger] decimal_int(n as int)
    ||| exists|s: Seq<char>| value == #[trigger] quoted(s)
    ||| exists|s: Seq<char>| #[trigger] is_word(s) && value == "\""@ + s + "\""@
}

/// A member that does not change when the document is written out again.
pub open spec fn is_settled(m: Option<Seq<char>>) -> bool {
    match m {
        Some(v) => is_canonical(v),
        None => true,
    }
}

/// The text is JSON that can be put into a document.
pub open spec fn is_json(value: Seq<char>) -> bool {
    is_canonical(value) || object_kind(value, Seq::empty()) is Some
}

/// The text is an object.
pub open spec fn is_document(text: Seq<char>) -> bool {
    object_kind(text, Seq::empty()) == Some(true)
}

/// A name that a JSON pointer holds as it is.
pub open spec fn is_plain_key(key: Seq<char>) -> bool {
    !key.contains('/') && !key.contains('~')
}

/// The text is an object whose members do not change by being written out again.
pub open spec fn is_flat(text: Seq<char>) -> bool {
    &&& is_document(text)
    &&& forall|k: Seq<char>| is_settled(#[trigger] member(text, k))
}

/// Every member but one is as it was, where it does not change by being written
/// out again; and none becomes such a one.
pub open spec fn keeps_others(before: Seq<char>, after: Seq<char>, key: Seq<char>) -> bool {
    forall|k: Seq<char>|
        #![trigger member(before, k)]
        #![trigger member(after, k)]
        k != key && (is_settled(member(before, k)) || is_settled(member(after, k))) ==> member(
            after,
            k,
        ) == member(before, k)
}

/// Some pair has this name.
pub open spec fn names(pairs: Seq<(Seq<char>, Seq<char>)>, name: Seq<char>) -> bool {
    exists|i: int| 0 <= i < pairs.len() && (#[trigger] pairs[i]).0 == name
}

/// The pairs are the members of an object: no others, and each flag's value as it
/// is shown.
pub open spec fn lists(pairs: Seq<(Seq<char>, Seq<char>)>, text: Seq<char>) -> bool {
    &&& forall|i: int| 0 <= i < pairs.len() ==> member(text, (#[trigger] pairs[i]).0) is Some
    &&& forall|k: Seq<char>, v: FlagShape|
        #![trigger member(text, k), shape_text(v)]
        member(text, k) == Some(shape_json(v)) ==> pairs.contains((k, shape_text(v)))
}

/// The object at a pointer has the same names before and after, but for one.
pub open spec fn keeps_names(
    before: Seq<char>,
    after: Seq<char>,
    pointer: Seq<char>,
    key: Seq<char>,
) -> bool {
    match (object_at(before, pointer), object_at(after, pointer)) {
        (Some(a), Some(b)) => forall|k: Seq<char>|
            k != key ==> #[trigger] names(b, k) == names(a, k),
        _ => false,
    }
}

/// The object at a pointer has the same members before and after, but for one, as
/// far as they do not change by being written out again.
pub open spec fn keeps_members(
    before: Seq<char>,
    after: Seq<char>,
    pointer: Seq<char>,
    key: Seq<char>,
) -> bool {
    match (members_at(before, pointer), members_at(after, pointer)) {
        (Some(a), Some(b)) => forall|m: (Seq<char>, Option<Seq<char>>, Seq<char>)|
            #![trigger a.contains(m)]
            #![trigger b.contains(m)]
            m.0 != key && is_canonical(m.2) ==> a.contains(m) == b.contains(m),
        _ => false,
    }
}

/// A change below a member at the top leaves every other member as it was, as far
/// as it does not change by being written out again.
pub open spec fn keeps_rest(before: Seq<char>, after: Seq<char>, pointer: Seq<char>) -> bool {
    forall|top: Seq<char>|
        #[trigger] is_plain_key(top) && pointer == "/"@ + top ==> keeps_others(before, after, top)
}

/// The text without its comments.
pub open spec fn plain(text: Seq<char>) -> Seq<char> {
    stripped_lines(lines_of(text))
}

/// Nothing in the text is taken for a comment: without comments it reads the same.
pub open spec fn is_uncommented(text: Seq<char>) -> bool {
    &&& forall|k: Seq<char>| #[trigger] member(plain(text), k) == member(text, k)
    &&& forall|p: Seq<char>| #[trigger] object_kind(plain(text), p) == object_kind(text, p)
    &&& forall|p: Seq<char>| #[trigger] object_at(plain(text), p) == object_at(text, p)
}

/// An object without members, written with `Value::to_string`. The contract says
/// how it is written, that it is an object, and that it has no members.
#[verifier::external_body]
pub(crate) fn json_object() -> (r: String)
    ensures
        r@ == "{}"@,
        is_document(r@),
        forall|k: Seq<char>| #[trigger] member(r@, k) is None,
{
    serde_json::Value::Object(serde_json::Map::new()).to_string()
}

/// Reads `text` with `serde_json::from_str`, looks a member up with `Value::get`
/// and writes it with `Value::to_string`. The contract gives the result a name: it
/// depends on the arguments alone.
#[verifier::external_body]
pub(crate) fn json_member(text: &str, key: &str) -> (r: Option<String>)
    ensures
        opt_text(r) == member(text@, key@),
{
    let value: serde_json::Value = serde_json::from_str(text).ok()?;
    Some(value.get(key)?.to_string())
}

/// Reads `text` with `serde_json::from_str` and asks of the value at `pointer`,
/// found with `Value::pointer`, whether it is an object. The contract gives the
/// result a name: it depends on the arguments alone.
#[verifier::external_body]
pub(crate) fn json_kind(text: &str, pointer: &str) -> (r: Option<bool>)
    ensures
        r == object_kind(text@, pointer@),
{
    let value: serde_json::Value = serde_json::from_str(text).ok()?;
    Some(value.pointer(pointer)?.is_object())
}

/// Reads `text` with `serde_json::from_str`, puts a member into the object at
/// `pointer` with `Map::insert`, and writes the document with
/// `serde_json::to_string_pretty`. The contract gives the result a name. It says
/// that JSON can be put into an object, and into no other value; that a flag's value
/// is listed there as it is shown, beside the names that were there, and leaves every
/// canonical member as it was, there and at the top; that nothing in
/// what is written is taken for a comment; and of a change at the top that a
/// canonical value reads back, that the members of an object with canonical members
/// are listed below its name, and that another member is left as it was, where it is
/// canonical or absent. Two things are left unsaid: a number that is no integer may
/// be rounded by being read, and a document that nests too deeply for the reader
/// cannot be read again.
#[verifier::external_body]
pub(crate) fn json_insert(text: &str, pointer: &str, key: &str, value: &str) -> (r: Option<String>)
    ensures
        opt_text(r) == inserted(text@, pointer@, key@, value@),
        r is Some ==> object_kind(text@, pointer@) == Some(true),
        is_json(value@) && object_kind(text@, pointer@) == Some(true) ==> r is Some,
        r matches Some(t) ==> is_uncommented(t@),
        r matches Some(t) ==> forall|v: FlagShape|
            value@ == #[trigger] shape_json(v) ==> keeps_names(text@, t@, pointer@, key@)
                && keeps_members(text@, t@, pointer@, key@) && keeps_rest(text@, t@, pointer@) && (
            object_at(t@, pointer@) matches Some(pairs) && pairs.contains((key@, shape_text(v)))),
        r matches Some(t) ==> pointer@.len() == 0 ==> {
            &&& is_canonical(value@) || is_flat(value@) ==> is_document(t@)
            &&& is_canonical(value@) ==> member(t@, key@) == Some(value@)
            &&& is_flat(value@) && is_plain_key(key@) ==> object_kind(t@, "/"@ + key@) == Some(true)
                && (object_at(t@, "/"@ + key@) matches Some(pairs) && lists(pairs, value@))
            &&& is_document(t@) ==> keeps_others(text@, t@, key@)
        },
{
    let mut doc: serde_json::Value = serde_json::from_str(text).ok()?;
    let value: serde_json::Value = serde_json::from_str(value).ok()?;
    doc.pointer_mut(pointer)?.as_object_mut()?.insert(key.to_owned(), value);
    serde_json::to_string_pretty(&doc).ok()
}

/// Reads `text` with `serde_json::from_str`, takes a member out of the object at
/// `pointer` with `Map::remove`, and writes the document with
/// `serde_json::to_string_pretty`. The contract gives the result a name. It says
/// that it can be done to an object and to no other value; that the member is listed
/// there no longer, and every other name still is; that every canonical member is left
/// as it was, there and at the top; and that nothing in what is written is taken for a
/// comment.
#[verifier::external_body]
pub(crate) fn json_remove(text: &str, pointer: &str, key: &str) -> (r: Option<String>)
    ensures
        opt_text(r) == removed(text@, pointer@, key@),
        r is Some <==> object_kind(text@, pointer@) == Some(true),
        r matches Some(t) ==> is_uncommented(t@) && keeps_names(text@, t@, pointer@, key@)
            && keeps_members(text@, t@, pointer@, key@) && keeps_rest(text@, t@, pointer@) && (
        object_at(t@, pointer@) matches Some(pairs) && !names(pairs, key@)),
{
    let mut doc: serde_json::Value = serde_json::from_str(text).ok()?;
    doc.pointer_mut(pointer)?.as_object_mut()?.remove(key);
    serde_json::to_string_pretty(&doc).ok()
}

/// A flag's value as it is shown.
pub open spec fn shape_text(v: FlagShape) -> Seq<char> {
    match v {
        FlagShape::Bool(b) => if b {
            "true"@
        } else {
            "false"@
        },
        FlagShape::Int(n) => decimal_int(n as int),
        FlagShape::Text(t) => t,
    }
}

/// A flag's value as JSON.
pub open spec fn shape_json(v: FlagShape) -> Seq<char> {
    match v {
        FlagShape::Bool(b) => if b {
            "true"@
        } else {
            "false"@
        },
        FlagShape::Int(n) => decimal_int(n as int),
        FlagShape::Text(t) => quoted(t),
    }
}

/// A flag's value as JSON.
pub fn flag_json(v: &FlagValue) -> (r: String)
    ensures
        r@ == shape_json(shape_of(*v)),
        is_canonical(r@),
{
    match v {
        FlagValue::Bool(b) => if *b {
            "true".to_owned()
        } else {
            "false".to_owned()
        },
        FlagValue::Int(n) => {
            let r = int_text(*n);
            assert(r@ == decimal_int(*n as int));
            r
        },
        FlagValue::Text(t) => {
            let r = json_quote(t.as_str());
            assert(r@ == quoted(t@));
            r
        },
    }
}

/// No flag behind this one has its name.
pub open spec fn is_last_of_name(flags: Seq<(Seq<char>, FlagShape)>, i: int) -> bool {
    forall|j: int| i < j < flags.len() ==> (#[trigger] flags[j]).0 != flags[i].0
}

/// Some flag has this name.
pub open spec fn is_flag_of(flags: Seq<(Seq<char>, FlagShape)>, name: Seq<char>) -> bool {
    exists|i: int| 0 <= i < flags.len() && (#[trigger] flags[i]).0 == name
}

/// The document holds these flags and nothing else; of several of one name it
/// holds the last.
pub open spec fn holds_flags(doc: Seq<char>, flags: Seq<(Seq<char>, FlagShape)>) -> bool {
    &&& is_document(doc)
    &&& forall|k: Seq<char>| !is_flag_of(flags, k) ==> #[trigger] member(doc, k) is None
    &&& forall|i: int|
        0 <= i < flags.len() && is_last_of_name(flags, i) ==> member(doc, (#[trigger] flags[i]).0)
            == Some(shape_json(flags[i].1))
}

/// The flags, as a matter of what they say.
pub open spec fn shapes(flags: Seq<(String, FlagValue)>) -> Seq<(Seq<char>, FlagShape)> {
    flags.map_values(|f: (String, FlagValue)| (f.0@, shape_of(f.1)))
}

/// A document of flags. Each reads back as it was written.
pub fn flags_document(flags: &Vec<(String, FlagValue)>) -> (doc: String)
    ensures
        holds_flags(doc@, shapes(flags@)),
{
    let mut doc = json_object();
    let top = "";
    proof {
        reveal_strlit("");
        assert(top@ =~= Seq::<char>::empty());
    }
    let ghost all = shapes(flags@);
    let mut i: usize = 0;
    while i < flags.len()
        invariant
            i <= flags.len(),
            all == shapes(flags@),
            top@ == Seq::<char>::empty(),
            holds_flags(doc@, all.take(i as int)),
        decreases flags.len() - i,
    {
        let value = flag_json(&flags[i].1);
        let ghost before = doc@;
        match json_insert(doc.as_str(), top, flags[i].0.as_str(), value.as_str()) {
            Some(t) => {
                proof {
                    lemma_one_more_flag(before, t@, all, i as int);
                }
                doc = t;
            },
            None => {
                assert(false);
            },
        }
        i = i + 1;
    }
    assert(all.take(all.len() as int) =~= all);
    doc
}

proof fn lemma_one_more_flag(
    before: Seq<char>,
    after: Seq<char>,
    all: Seq<(Seq<char>, FlagShape)>,
    i: int,
)
    requires
        0 <= i < all.len(),
        holds_flags(before, all.take(i)),
        is_document(after),
        keeps_others(before, after, all[i].0),
        member(after, all[i].0) == Some(shape_json(all[i].1)),
    ensures
        holds_flags(after, all.take(i + 1)),
{
    let flags = all.take(i + 1);
    assert forall|k: Seq<char>| !is_flag_of(flags, k) implies #[trigger] member(after, k) is None by {
        assert(flags[i].0 != k);
        assert forall|j: int| 0 <= j < all.take(i).len() implies (#[trigger] all.take(i)[j]).0
            != k by {
            assert(flags[j].0 != k);
        }
        assert(member(before, k) is None);
    }
    assert forall|k: int| 0 <= k < flags.len() && is_last_of_name(flags, k) implies member(
        after,
        (#[trigger] flags[k]).0,
    ) == Some(shape_json(flags[k].1)) by {
        if k < i {
            assert(flags[i].0 != flags[k].0);
            let earlier = all.take(i);
            assert(is_last_of_name(earlier, k)) by {
                assert forall|j: int| k < j < earlier.len() implies (#[trigger] earlier[j]).0
                    != earlier[k].0 by {
                    assert(flags[j].0 != flags[k].0);
                }
            }
            assert(earlier[k] == flags[k]);
            lemma_shapes_are_canonical(flags[k].1);
            assert(is_settled(member(before, flags[k].0)));
        }
    }
}

proof fn lemma_shapes_are_canonical(v: FlagShape)
    ensures
        is_canonical(shape_json(v)),
{
    match v {
        FlagShape::Bool(b) => {},
        FlagShape::Int(n) => {
            assert(shape_json(v) == decimal_int(n as int));
        },
        FlagShape::Text(t) => {
            assert(shape_json(v) == quoted(t));
        },
    }
}

/// A document of flags has members that do not change by being written out again.
pub proof fn lemma_flags_are_flat(doc: Seq<char>, flags: Seq<(Seq<char>, FlagShape)>)
    requires
        holds_flags(doc, flags),
    ensures
        is_flat(doc),
{
    assert forall|k: Seq<char>| is_settled(#[trigger] member(doc, k)) by {
        if is_flag_of(flags, k) {
            let i = lemma_last_of_name(flags, k);
            lemma_shapes_are_canonical(flags[i].1);
            assert(member(doc, flags[i].0) == Some(shape_json(flags[i].1)));
        }
    }
}

/// A flag of a name has a last one of that name.
pub proof fn lemma_last_of_name(flags: Seq<(Seq<char>, FlagShape)>, name: Seq<char>) -> (i: int)
    requires
        is_flag_of(flags, name),
    ensures
        0 <= i < flags.len(),
        flags[i].0 == name,
        is_last_of_name(flags, i),
    decreases flags.len(),
{
    let n = flags.len() - 1;
    if flags[n].0 == name {
        n
    } else {
        let earlier = flags.drop_last();
        let at = choose|i: int| 0 <= i < flags.len() && (#[trigger] flags[i]).0 == name;
        assert(earlier[at].0 == name);
        let i = lemma_last_of_name(earlier, name);
        assert forall|j: int| i < j < flags.len() implies (#[trigger] flags[j]).0 != flags[i].0 by {
            if j < n {
                assert(earlier[j].0 != earlier[i].0);
            }
        }
        i
    }
}

/// A flag's value as JSON and as it is shown: the same for a switch and a number,
/// and in quotes or without them for a text.
pub proof fn law_flag_values_are_written(v: FlagShape)
    ensures
        match v {
            FlagShape::Bool(true) => shape_text(v) == "true"@ && shape_json(v) == "true"@,
            FlagShape::Bool(false) => shape_text(v) == "false"@ && shape_json(v) == "false"@,
            FlagShape::Int(n) => shape_text(v) == decimal_int(n as int) && shape_json(v)
                == decimal_int(n as int),
            FlagShape::Text(t) => shape_text(v) == t && shape_json(v) == quoted(t),
        },
{
}

} // verus!
