//! Small helpers for class and attribute values.

use vstd::prelude::*;

verus! {

/// What `str::trim` leaves of a text: the text without the whitespace at its
/// two ends, where whitespace is what Unicode's property `White_Space` holds.
pub uninterp spec fn trimmed(text: Seq<char>) -> Seq<char>;

/// `str::trim`: the part of `text` between its leading and its trailing
/// whitespace.
#[verifier::external_body]
fn trim<'a>(text: &'a str) -> (rest: &'a str)
    ensures
        rest@ == trimmed(text@),
{
    text.trim()
}

/// A class list with one more entry: `base`, a space and `extra`; `base` alone
/// where `extra` is empty.
pub open spec fn join_class_spec(base: Seq<char>, extra: Seq<char>) -> Seq<char> {
    if extra.len() == 0 {
        base
    } else {
        base + seq![' '] + extra
    }
}

/// The class list `base` with what `extra` holds between its leading and
/// trailing whitespace as one more entry; `base` alone where that is nothing,
/// or where there is no `extra`.
pub open spec fn merge_class_spec(base: Seq<char>, extra: Option<Seq<char>>) -> Seq<char> {
    match extra {
        Some(extra) => join_class_spec(base, trimmed(extra)),
        None => base,
    }
}

/// The class list `base` with `extra` as one more entry, taken as it is;
/// `base` alone where `extra` is empty.
pub fn join_class(base: &str, extra: &str) -> (class: String)
    ensures
        class@ == join_class_spec(base@, extra@),
{
    let mut class = String::from_str(base);
    if !extra.is_empty() {
        class.append(" ");
        class.append(extra);
        proof {
            reveal_strlit(" ");
            assert(" "@ =~= seq![' ']);
        }
    }
    class
}

/// Merges a base class with an optional extra class. An extra class that is
/// empty or only whitespace counts as none; whitespace around it is dropped.
pub fn merge_class(base: &str, extra: Option<String>) -> (class: String)
    ensures
        class@ == merge_class_spec(
            base@,
            match extra {
                Some(extra) => Some(extra@),
                None => None,
            },
        ),
{
    match extra {
        Some(extra) => join_class(base, trim(extra.as_str())),
        None => String::from_str(base),
    }
}

/// The text of a boolean data attribute: `"true"` or `"false"`.
pub fn data_bool(value: bool) -> (text: &'static str)
    ensures
        text@ == (if value {
            "true"@
        } else {
            "false"@
        }),
{
    if value {
        "true"
    } else {
        "false"
    }
}

/// A value with a fixed text of its own, for use as a class or as the value
/// of a data attribute.
pub trait AsStaticStr {
    fn as_str(&self) -> &'static str;
}

} // verus!
