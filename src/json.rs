use vstd::prelude::*;

use crate::text::utf8_len;

verus! {

/// A JSON document as the analysis reads it.
///
/// Object members keep their order; a lookup takes the first member with the key.
#[derive(Debug)]
pub enum Json {
    Null,
    Bool(bool),
    /// A number, kept as its text.
    Number(String),
    Str(String),
    Array(Vec<Json>),
    Object(Vec<(String, Json)>),
}

/// The member named `k` among `fields[j..]`, the first one that has that name.
pub open spec fn member_from(fields: Seq<(String, Json)>, k: Seq<char>, j: int) -> Option<Json>
    decreases fields.len() - j,
{
    if j < 0 || j >= fields.len() {
        None
    } else if fields[j].0@ == k {
        Some(fields[j].1)
    } else {
        member_from(fields, k, j + 1)
    }
}

/// A borrowed optional value, read as the value itself.
pub open spec fn deref_opt(o: Option<&Json>) -> Option<Json> {
    match o {
        Some(v) => Some(*v),
        None => None,
    }
}

/// The value that field `k` selects in `v`: a member of an object, nothing otherwise.
pub open spec fn field_of(v: Json, k: Seq<char>) -> Option<Json> {
    match v {
        Json::Object(fields) => member_from(fields@, k, 0),
        _ => None,
    }
}

/// The size that a selected value counts for: the bytes of a string, the
/// elements of an array, one for anything else or for a missing value.
pub open spec fn size_of(v: Option<Json>) -> nat {
    match v {
        Some(Json::Str(s)) => utf8_len(s@) as nat,
        Some(Json::Array(items)) => items.len() as nat,
        _ => 1,
    }
}

/// What a selected value contributes to the next level: the elements of an
/// array, the value itself otherwise, nothing when it is missing.
pub open spec fn spread(v: Option<Json>) -> Seq<Json> {
    match v {
        Some(Json::Array(items)) => items@,
        Some(c) => seq![c],
        None => Seq::empty(),
    }
}

/// The values that field `k` selects from each of `parents`, in order.
pub open spec fn children(parents: Seq<Json>, k: Seq<char>) -> Seq<Json>
    decreases parents.len(),
{
    if parents.len() == 0 {
        Seq::empty()
    } else {
        children(parents.drop_last(), k) + spread(field_of(parents.last(), k))
    }
}

impl Json {
    /// The member named `k` when `self` is an object.
    pub fn field<'a>(&'a self, k: &String) -> (r: Option<&'a Json>)
        ensures
            deref_opt(r) == field_of(*self, k@),
    {
        match self {
            Json::Object(fields) => {
                let mut j: usize = 0;
                while j < fields.len()
                    invariant
                        j <= fields.len(),
                        field_of(*self, k@) == member_from(fields@, k@, 0),
                        member_from(fields@, k@, 0) == member_from(fields@, k@, j as int),
                    decreases fields.len() - j,
                {
                    if fields[j].0 == *k {
                        assert(member_from(fields@, k@, j as int) == Some(fields@[j as int].1));
                        return Some(&fields[j].1);
                    }
                    j = j + 1;
                }
                None
            },
            _ => None,
        }
    }
}

/// The size that `v` counts for (see `size_of`).
pub fn size_of_selected(v: Option<&Json>) -> (r: usize)
    ensures
        r == size_of(deref_opt(v)),
{
    match v {
        Some(Json::Str(s)) => crate::text::utf8_byte_len(s),
        Some(Json::Array(items)) => items.len(),
        _ => 1,
    }
}

} // verus!
