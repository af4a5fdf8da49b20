//! What stands where in a document.
use vstd::prelude::*;

use crate::json::{
    items_view, lemma_array_view, lemma_object_view, members_view, Json, JsonNumber, JsonView,
    NumberView,
};
use crate::table::lookup;
use crate::text::same_text;

verus! {

/// The member of an object with this key; nothing else has members.
pub open spec fn member_value(value: JsonView, key: Seq<char>) -> Option<JsonView> {
    match value {
        JsonView::Object(members) => lookup(members, key),
        _ => None,
    }
}

/// The text that a value is.
pub open spec fn text_value(value: JsonView) -> Option<Seq<char>> {
    match value {
        JsonView::Text(text) => Some(text),
        _ => None,
    }
}

/// The number from zero up that a value is.
pub open spec fn unsigned_value(value: JsonView) -> Option<u64> {
    match value {
        JsonView::Number(NumberView::Unsigned(n)) => Some(n),
        _ => None,
    }
}

/// The whole number of sixty-four bits that a value is.
pub open spec fn signed_value(value: JsonView) -> Option<i64> {
    match value {
        JsonView::Number(NumberView::Unsigned(n)) => if n <= i64::MAX {
            Some(n as i64)
        } else {
            None
        },
        JsonView::Number(NumberView::Negative(n)) => Some(n),
        _ => None,
    }
}

/// The text in a member of an object.
pub open spec fn member_text(value: JsonView, key: Seq<char>) -> Option<Seq<char>> {
    match member_value(value, key) {
        Some(inner) => text_value(inner),
        None => None,
    }
}

/// The number from zero up in a member of an object.
pub open spec fn member_unsigned(value: JsonView, key: Seq<char>) -> Option<u64> {
    match member_value(value, key) {
        Some(inner) => unsigned_value(inner),
        None => None,
    }
}

/// Whether a text that may be missing is this one.
pub open spec fn is_text(text: Option<&str>, expected: Option<Seq<char>>) -> bool {
    match expected {
        Some(chars) => text is Some && text->0@ == chars,
        None => text is None,
    }
}

/// Whether a value that may be missing is this one.
pub open spec fn is_value(value: Option<&Json>, expected: Option<JsonView>) -> bool {
    match expected {
        Some(tree) => value is Some && value->0@ == tree,
        None => value is None,
    }
}

impl Json {
    /// The member of an object with this key.
    pub fn get(&self, key: &str) -> (found: Option<&Json>)
        ensures
            is_value(found, member_value(self@, key@)),
    {
        match self {
            Json::Object(members) => {
                let ghost views = members_view(members@);
                proof {
                    lemma_object_view(*members);
                }
                let mut i: usize = members.len();
                assert(views.take(i as int) =~= views);
                while i > 0
                    invariant
                        i <= members.len(),
                        views == members_view(members@),
                        self@ == JsonView::Object(views),
                        lookup(views, key@) == lookup(views.take(i as int), key@),
                    decreases i,
                {
                    i = i - 1;
                    assert(views.take(i + 1).drop_last() =~= views.take(i as int));
                    assert(views.take(i + 1).last() == (members@[i as int].0@, members@[i as int].1@));
                    if same_text(members[i].0.as_str(), key) {
                        return Some(&members[i].1);
                    }
                }
                None
            },
            _ => None,
        }
    }

    /// The text that the value is.
    pub fn as_str(&self) -> (text: Option<&str>)
        ensures
            is_text(text, text_value(self@)),
    {
        match self {
            Json::Text(text) => Some(text.as_str()),
            _ => None,
        }
    }

    /// The number from zero up that the value is.
    pub fn as_u64(&self) -> (n: Option<u64>)
        ensures
            n == unsigned_value(self@),
    {
        match self {
            Json::Number(JsonNumber::Unsigned(n)) => Some(*n),
            _ => None,
        }
    }

    /// The whole number that the value is, where sixty-four bits hold it.
    pub fn as_i64(&self) -> (n: Option<i64>)
        ensures
            n == signed_value(self@),
    {
        match self {
            Json::Number(JsonNumber::Unsigned(n)) => if *n <= 0x7fff_ffff_ffff_ffff {
                Some(*n as i64)
            } else {
                None
            },
            Json::Number(JsonNumber::Negative(n)) => Some(*n),
            _ => None,
        }
    }

    pub fn is_null(&self) -> (is: bool)
        ensures
            is == (self@ is Null),
    {
        match self {
            Json::Null => true,
            _ => false,
        }
    }

    /// The items of an array.
    pub fn as_array(&self) -> (items: Option<&Vec<Json>>)
        ensures
            match items {
                Some(items) => self@ == JsonView::Array(items_view(items@)),
                None => !(self@ is Array),
            },
    {
        match self {
            Json::Array(items) => {
                proof {
                    lemma_array_view(*items);
                }
                Some(items)
            },
            _ => None,
        }
    }

    /// The text in a member.
    pub fn text_at(&self, key: &str) -> (text: Option<&str>)
        ensures
            is_text(text, member_text(self@, key@)),
    {
        match self.get(key) {
            Some(value) => value.as_str(),
            None => None,
        }
    }

    /// The number from zero up in a member.
    pub fn unsigned_at(&self, key: &str) -> (n: Option<u64>)
        ensures
            n == member_unsigned(self@, key@),
    {
        match self.get(key) {
            Some(value) => value.as_u64(),
            None => None,
        }
    }
}

} // verus!
