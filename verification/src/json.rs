//! Values of the JavaScript object notation, their canonical form and their compact text.
use vstd::prelude::*;
use vstd::string::StringExecFns;

use crate::text::{
    chars_of, decimal, decimal_text, digit_char, same_text, signed_decimal, signed_decimal_text,
};

verus! {

/// A number: an integer, or the digits of any other number as they are written.
#[derive(Debug, Clone, PartialEq, Eq)]
pub enum JsonNumber {
    Unsigned(u64),
    Negative(i64),
    Real(String),
}

/// A value. The members of an object keep the order in which they were given.
#[derive(Debug, PartialEq, Eq)]
pub enum Json {
    Null,
    Bool(bool),
    Number(JsonNumber),
    Text(String),
    Array(Vec<Json>),
    Object(Vec<(String, Json)>),
}

pub ghost enum NumberView {
    Unsigned(u64),
    Negative(i64),
    Real(Seq<char>),
}

/// A value as a mathematical tree.
pub ghost enum JsonView {
    Null,
    Bool(bool),
    Number(NumberView),
    Text(Seq<char>),
    Array(Seq<JsonView>),
    Object(Seq<(Seq<char>, JsonView)>),
}

impl View for JsonNumber {
    type V = NumberView;

    open spec fn view(&self) -> NumberView {
        match self {
            JsonNumber::Unsigned(n) => NumberView::Unsigned(*n),
            JsonNumber::Negative(n) => NumberView::Negative(*n),
            JsonNumber::Real(digits) => NumberView::Real(digits@),
        }
    }
}

/// The value as a mathematical tree.
pub open spec fn tree(value: Json) -> JsonView
    decreases value,
{
    match value {
        Json::Null => JsonView::Null,
        Json::Bool(b) => JsonView::Bool(b),
        Json::Number(n) => JsonView::Number(n@),
        Json::Text(text) => JsonView::Text(text@),
        Json::Array(items) => JsonView::Array(
            Seq::new(
                items@.len(),
                |i: int|
                    if 0 <= i < items@.len() {
                        tree(items@[i])
                    } else {
                        JsonView::Null
                    },
            ),
        ),
        Json::Object(members) => JsonView::Object(
            Seq::new(
                members@.len(),
                |i: int|
                    if 0 <= i < members@.len() {
                        (members@[i].0@, tree(members@[i].1))
                    } else {
                        (Seq::empty(), JsonView::Null)
                    },
            ),
        ),
    }
}

impl View for Json {
    type V = JsonView;

    open spec fn view(&self) -> JsonView {
        tree(*self)
    }
}

/// The members of an object as mathematical values.
pub open spec fn members_view(members: Seq<(String, Json)>) -> Seq<(Seq<char>, JsonView)> {
    Seq::new(members.len(), |i: int| (members[i].0@, members[i].1@))
}

/// The items of an array as mathematical values.
pub open spec fn items_view(items: Seq<Json>) -> Seq<JsonView> {
    Seq::new(items.len(), |i: int| items[i]@)
}

/// The tree of an object.
pub proof fn lemma_object_view(members: Vec<(String, Json)>)
    ensures
        Json::Object(members)@ == JsonView::Object(members_view(members@)),
{
    assert(Json::Object(members)@->Object_0 =~= members_view(members@));
}

/// The tree of an array.
pub proof fn lemma_array_view(items: Vec<Json>)
    ensures
        Json::Array(items)@ == JsonView::Array(items_view(items@)),
{
    assert(Json::Array(items)@->Array_0 =~= items_view(items@));
}

impl Clone for Json {
    fn clone(&self) -> (copy: Json)
        ensures
            copy@ == self@,
        decreases self,
    {
        match self {
            Json::Null => Json::Null,
            Json::Bool(b) => Json::Bool(*b),
            Json::Number(n) => Json::Number(copy_number(n)),
            Json::Text(text) => Json::Text(text.clone()),
            Json::Array(items) => {
                let mut copies: Vec<Json> = Vec::new();
                let mut i: usize = 0;
                while i < items.len()
                    invariant
                        i <= items.len(),
                        copies.len() == i,
                        forall|j: int| 0 <= j < i ==> (#[trigger] copies[j])@ == items[j]@,
                        *self == Json::Array(*items),
                    decreases items.len() - i,
                {
                    assert(decreases_to!(*self => self->Array_0));
                    copies.push(items[i].clone());
                    i = i + 1;
                }
                proof {
                    lemma_array_view(copies);
                    lemma_array_view(*items);
                    assert(items_view(copies@) =~= items_view(items@));
                }
                Json::Array(copies)
            },
            Json::Object(members) => {
                let mut copies: Vec<(String, Json)> = Vec::new();
                let mut i: usize = 0;
                while i < members.len()
                    invariant
                        i <= members.len(),
                        copies.len() == i,
                        forall|j: int|
                            0 <= j < i ==> (#[trigger] copies[j]).0@ == members[j].0@
                                && copies[j].1@ == members[j].1@,
                        *self == Json::Object(*members),
                    decreases members.len() - i,
                {
                    assert(decreases_to!(*self => self->Object_0));
                    assert(decreases_to!(members@[i as int] => members@[i as int].1));
                    copies.push((members[i].0.clone(), members[i].1.clone()));
                    i = i + 1;
                }
                proof {
                    lemma_object_view(copies);
                    lemma_object_view(*members);
                    assert(members_view(copies@) =~= members_view(members@));
                }
                Json::Object(copies)
            },
        }
    }
}

fn copy_number(n: &JsonNumber) -> (copy: JsonNumber)
    ensures
        copy@ == n@,
{
    match n {
        JsonNumber::Unsigned(n) => JsonNumber::Unsigned(*n),
        JsonNumber::Negative(n) => JsonNumber::Negative(*n),
        JsonNumber::Real(digits) => JsonNumber::Real(digits.clone()),
    }
}

/// Whether `a` comes before `b` in the order of their characters.
pub open spec fn precedes(a: Seq<char>, b: Seq<char>) -> bool
    decreases a.len(),
{
    if b.len() == 0 {
        false
    } else if a.len() == 0 {
        true
    } else if a[0] != b[0] {
        a[0] < b[0]
    } else {
        precedes(a.skip(1), b.skip(1))
    }
}

fn text_precedes(a: &str, b: &str) -> (before: bool)
    ensures
        before == precedes(a@, b@),
{
    let left = chars_of(a);
    let right = chars_of(b);
    let mut i: usize = 0;
    assert(a@.skip(0) =~= a@);
    assert(b@.skip(0) =~= b@);
    while i < left.len() && i < right.len() && left[i] == right[i]
        invariant
            left@ == a@,
            right@ == b@,
            i <= left.len(),
            i <= right.len(),
            precedes(a@.skip(i as int), b@.skip(i as int)) == precedes(a@, b@),
        decreases left.len() - i,
    {
        assert(a@.skip(i as int).skip(1) =~= a@.skip(i + 1));
        assert(b@.skip(i as int).skip(1) =~= b@.skip(i + 1));
        i = i + 1;
    }
    if i >= right.len() {
        false
    } else if i >= left.len() {
        true
    } else {
        left[i] < right[i]
    }
}

/// Nothing comes before itself.
pub proof fn precedes_irreflexive(a: Seq<char>)
    ensures
        !precedes(a, a),
    decreases a.len(),
{
    if a.len() > 0 {
        precedes_irreflexive(a.skip(1));
    }
}

/// Of two different texts exactly one comes first.
pub proof fn precedes_total(a: Seq<char>, b: Seq<char>)
    ensures
        a != b ==> (precedes(a, b) <==> !precedes(b, a)),
    decreases a.len(),
{
    if a.len() == 0 || b.len() == 0 {
        if a.len() == 0 && b.len() == 0 {
            assert(a =~= b);
        }
    } else if a[0] == b[0] {
        precedes_total(a.skip(1), b.skip(1));
        if a.skip(1) == b.skip(1) {
            assert(a =~= seq![a[0]] + a.skip(1));
            assert(b =~= seq![b[0]] + b.skip(1));
        }
    }
}

/// What comes before something that comes before a third comes before the third.
pub proof fn precedes_transitive(a: Seq<char>, b: Seq<char>, c: Seq<char>)
    requires
        precedes(a, b),
        precedes(b, c),
    ensures
        precedes(a, c),
    decreases a.len(),
{
    if a.len() > 0 && a[0] == b[0] && b[0] == c[0] {
        precedes_transitive(a.skip(1), b.skip(1), c.skip(1));
    }
}

/// Puts a member in its place among sorted members, instead of one with the same key.
pub open spec fn insert_member(
    sorted: Seq<(Seq<char>, JsonView)>,
    key: Seq<char>,
    value: JsonView,
) -> Seq<(Seq<char>, JsonView)>
    decreases sorted.len(),
{
    if sorted.len() == 0 {
        seq![(key, value)]
    } else if sorted[0].0 == key {
        seq![(key, value)] + sorted.skip(1)
    } else if precedes(key, sorted[0].0) {
        seq![(key, value)] + sorted
    } else {
        seq![sorted[0]] + insert_member(sorted.skip(1), key, value)
    }
}

/// The members in the order of their keys; of several with one key the last.
pub open spec fn sorted_members(members: Seq<(Seq<char>, JsonView)>) -> Seq<(Seq<char>, JsonView)>
    decreases members.len(),
{
    if members.len() == 0 {
        Seq::empty()
    } else {
        insert_member(sorted_members(members.drop_last()), members.last().0, members.last().1)
    }
}

/// The same value with the members of every object in the order of their keys.
pub open spec fn canonical(value: JsonView) -> JsonView
    decreases value,
{
    match value {
        JsonView::Array(items) => JsonView::Array(canonical_items(items)),
        JsonView::Object(members) => JsonView::Object(sorted_members(canonical_values(members))),
        _ => value,
    }
}

/// The items of an array once they are canonical.
pub open spec fn canonical_items(items: Seq<JsonView>) -> Seq<JsonView>
    decreases items,
{
    Seq::new(
        items.len(),
        |i: int|
            if 0 <= i < items.len() {
                canonical(items[i])
            } else {
                JsonView::Null
            },
    )
}

/// The members of an object once their values are canonical.
pub open spec fn canonical_values(members: Seq<(Seq<char>, JsonView)>) -> Seq<
    (Seq<char>, JsonView),
>
    decreases members,
{
    Seq::new(
        members.len(),
        |i: int|
            if 0 <= i < members.len() {
                (members[i].0, canonical(members[i].1))
            } else {
                (Seq::empty(), JsonView::Null)
            },
    )
}

proof fn lemma_insert_at(
    sorted: Seq<(Seq<char>, JsonView)>,
    key: Seq<char>,
    value: JsonView,
    at: int,
)
    requires
        0 <= at <= sorted.len(),
        forall|j: int|
            0 <= j < at ==> (#[trigger] sorted[j]).0 != key && !precedes(key, sorted[j].0),
        at < sorted.len() ==> sorted[at].0 == key || precedes(key, sorted[at].0),
    ensures
        insert_member(sorted, key, value) == (if at < sorted.len() && sorted[at].0 == key {
            sorted.update(at, (key, value))
        } else {
            sorted.insert(at, (key, value))
        }),
    decreases at,
{
    if at == 0 {
        if sorted.len() == 0 {
            assert(sorted.insert(0, (key, value)) =~= seq![(key, value)]);
        } else if sorted[0].0 == key {
            assert(sorted.update(0, (key, value)) =~= seq![(key, value)] + sorted.skip(1));
        } else {
            assert(sorted.insert(0, (key, value)) =~= seq![(key, value)] + sorted);
        }
    } else {
        let rest = sorted.skip(1);
        assert forall|j: int| 0 <= j < at - 1 implies (#[trigger] rest[j]).0 != key && !precedes(
            key,
            rest[j].0,
        ) by {
            assert(rest[j] == sorted[j + 1]);
        }
        lemma_insert_at(rest, key, value, at - 1);
        if at < sorted.len() && sorted[at].0 == key {
            assert(sorted.update(at, (key, value)) =~= seq![sorted[0]] + rest.update(
                at - 1,
                (key, value),
            ));
        } else {
            assert(sorted.insert(at, (key, value)) =~= seq![sorted[0]] + rest.insert(
                at - 1,
                (key, value),
            ));
        }
    }
}

fn place_member(members: &mut Vec<(String, Json)>, key: String, value: Json)
    ensures
        members_view(final(members)@) == insert_member(members_view(old(members)@), key@, value@),
{
    let ghost before = members_view(members@);
    let mut at: usize = 0;
    while at < members.len() && !same_text(members[at].0.as_str(), key.as_str())
        && !text_precedes(key.as_str(), members[at].0.as_str())
        invariant
            at <= members.len(),
            before == members_view(members@),
            forall|j: int|
                0 <= j < at ==> (#[trigger] before[j]).0 != key@ && !precedes(key@, before[j].0),
        decreases members.len() - at,
    {
        at = at + 1;
    }
    proof {
        lemma_insert_at(before, key@, value@, at as int);
    }
    if at < members.len() && same_text(members[at].0.as_str(), key.as_str()) {
        let ghost (k, v) = (key@, value@);
        members.set(at, (key, value));
        assert(members_view(members@) =~= before.update(at as int, (k, v)));
    } else {
        let ghost (k, v) = (key@, value@);
        members.insert(at, (key, value));
        assert(members_view(members@) =~= before.insert(at as int, (k, v)));
    }
}

/// The same value with the members of every object in the order of their keys.
pub fn canonicalize_json(value: &Json) -> (result: Json)
    ensures
        result@ == canonical(value@),
    decreases value,
{
    match value {
        Json::Array(items) => {
            let mut done: Vec<Json> = Vec::new();
            let mut i: usize = 0;
            while i < items.len()
                invariant
                    i <= items.len(),
                    done.len() == i,
                    forall|j: int| 0 <= j < i ==> (#[trigger] done[j])@ == canonical(items[j]@),
                    *value == Json::Array(*items),
                decreases items.len() - i,
            {
                assert(decreases_to!(*value => value->Array_0));
                done.push(canonicalize_json(&items[i]));
                i = i + 1;
            }
            proof {
                lemma_array_view(*items);
                lemma_array_view(done);
                assert(canonical_items(items_view(items@)) =~= items_view(done@));
            }
            Json::Array(done)
        },
        Json::Object(members) => {
            let mut done: Vec<(String, Json)> = Vec::new();
            let mut i: usize = 0;
            let ghost all = members_view(members@);
            let ghost wanted = canonical_values(all);
            assert(members_view(done@) =~= Seq::empty());
            assert(wanted.take(0) =~= Seq::empty());
            while i < members.len()
                invariant
                    i <= members.len(),
                    all == members_view(members@),
                    wanted == canonical_values(all),
                    members_view(done@) == sorted_members(wanted.take(i as int)),
                    *value == Json::Object(*members),
                decreases members.len() - i,
            {
                assert(decreases_to!(*value => value->Object_0));
                assert(decreases_to!(members@[i as int] => members@[i as int].1));
                let member = canonicalize_json(&members[i].1);
                place_member(&mut done, members[i].0.clone(), member);
                i = i + 1;
                assert(wanted.take(i as int).drop_last() =~= wanted.take(i - 1));
            }
            proof {
                lemma_object_view(*members);
                lemma_object_view(done);
                assert(wanted.take(i as int) =~= wanted);
            }
            Json::Object(done)
        },
        _ => value.clone(),
    }
}

/// How a character stands in a quoted string: quotation marks, backslashes and control
/// characters are escaped.
pub open spec fn escaped(c: char) -> Seq<char> {
    if c == '"' || c == '\\' {
        seq!['\\', c]
    } else if c == '\u{8}' {
        seq!['\\', 'b']
    } else if c == '\t' {
        seq!['\\', 't']
    } else if c == '\n' {
        seq!['\\', 'n']
    } else if c == '\u{c}' {
        seq!['\\', 'f']
    } else if c == '\r' {
        seq!['\\', 'r']
    } else if (c as u32) < 32 {
        seq!['\\', 'u', '0', '0', digit_char(c as int / 16), digit_char(c as int % 16)]
    } else {
        seq![c]
    }
}

/// The characters of a string as they stand between its quotation marks.
pub open spec fn escaped_text(text: Seq<char>) -> Seq<char>
    decreases text.len(),
{
    if text.len() == 0 {
        Seq::empty()
    } else {
        escaped(text[0]) + escaped_text(text.drop_first())
    }
}

/// The text of a string with its quotation marks.
pub open spec fn json_quoted(text: Seq<char>) -> Seq<char> {
    seq!['"'] + escaped_text(text) + seq!['"']
}

/// Quotes a string with `serde_json::to_string`, which cannot fail on a string: every character
/// stands for itself but quotation marks, backslashes and control characters, which are
/// escaped.
#[verifier::external_body]
fn quote(text: &str) -> (quoted: String)
    ensures
        quoted@ == json_quoted(text@),
{
    serde_json::to_string(text).expect("a string has a text")
}

proof fn lemma_escapes_differ(a: char, b: char, x: Seq<char>, y: Seq<char>)
    requires
        escaped(a) + x == escaped(b) + y,
    ensures
        a == b,
        x == y,
{
    let left = escaped(a) + x;
    let right = escaped(b) + y;
    assert(left[0] == right[0] && escaped(a)[0] == left[0] && escaped(b)[0] == right[0]);
    if escaped(a).len() > 1 || escaped(b).len() > 1 {
        assert(left[0] == '\\');
        assert(escaped(a).len() > 1 && escaped(b).len() > 1);
        assert(left[1] == escaped(a)[1] && right[1] == escaped(b)[1]);
        if escaped(a).len() == 6 || escaped(b).len() == 6 {
            assert(left[1] == 'u');
            assert(escaped(a).len() == 6 && escaped(b).len() == 6);
            assert(left[4] == escaped(a)[4] && right[4] == escaped(b)[4]);
            assert(left[5] == escaped(a)[5] && right[5] == escaped(b)[5]);
            assert(a as int == 16 * (a as int / 16) + a as int % 16);
            assert(b as int == 16 * (b as int / 16) + b as int % 16);
        }
    }
    assert(a == b);
    assert(x =~= left.skip(escaped(a).len() as int));
    assert(y =~= right.skip(escaped(b).len() as int));
}

/// Different strings have different texts.
pub proof fn quoted_strings_differ(a: Seq<char>, b: Seq<char>)
    requires
        json_quoted(a) == json_quoted(b),
    ensures
        a == b,
{
    let left = json_quoted(a);
    let right = json_quoted(b);
    assert(left.skip(1) =~= escaped_text(a) + seq!['"'] + Seq::<char>::empty());
    assert(right.skip(1) =~= escaped_text(b) + seq!['"'] + Seq::<char>::empty());
    quoted_strings_end(a, b, Seq::empty(), Seq::empty());
}

/// A string ends where its quotation mark stands, whatever follows.
pub proof fn quoted_strings_end(a: Seq<char>, b: Seq<char>, x: Seq<char>, y: Seq<char>)
    requires
        escaped_text(a) + seq!['"'] + x == escaped_text(b) + seq!['"'] + y,
    ensures
        a == b,
        x == y,
    decreases a.len(),
{
    let left = escaped_text(a) + seq!['"'] + x;
    let right = escaped_text(b) + seq!['"'] + y;
    if a.len() == 0 && b.len() == 0 {
        assert(x =~= left.skip(1));
        assert(y =~= right.skip(1));
        assert(a =~= b);
    } else if a.len() == 0 {
        assert(left[0] == '"');
        assert(right[0] == escaped(b[0])[0]);
        assert(false);
    } else if b.len() == 0 {
        assert(right[0] == '"');
        assert(left[0] == escaped(a[0])[0]);
        assert(false);
    } else {
        let rest_a = escaped_text(a.drop_first()) + seq!['"'] + x;
        let rest_b = escaped_text(b.drop_first()) + seq!['"'] + y;
        assert(left =~= escaped(a[0]) + rest_a);
        assert(right =~= escaped(b[0]) + rest_b);
        lemma_escapes_differ(a[0], b[0], rest_a, rest_b);
        quoted_strings_end(a.drop_first(), b.drop_first(), x, y);
        assert(a =~= seq![a[0]] + a.drop_first());
        assert(b =~= seq![b[0]] + b.drop_first());
    }
}

/// The compact text of a value: no white space, the members of an object in their order.
pub open spec fn json_text(value: JsonView) -> Seq<char>
    decreases value, 0nat,
{
    match value {
        JsonView::Null => "null"@,
        JsonView::Bool(b) => if b {
            "true"@
        } else {
            "false"@
        },
        JsonView::Number(NumberView::Unsigned(n)) => decimal(n as nat),
        JsonView::Number(NumberView::Negative(n)) => signed_decimal(n as int),
        JsonView::Number(NumberView::Real(digits)) => digits,
        JsonView::Text(text) => json_quoted(text),
        JsonView::Array(items) => "["@ + items_text(items, items.len()) + "]"@,
        JsonView::Object(members) => "{"@ + members_text(members, members.len()) + "}"@,
    }
}

/// The texts of the first `count` items with commas in between.
pub open spec fn items_text(items: Seq<JsonView>, count: nat) -> Seq<char>
    decreases items, count,
{
    if count == 0 || count > items.len() {
        Seq::empty()
    } else if count == 1 {
        json_text(items[0])
    } else {
        items_text(items, (count - 1) as nat) + ","@ + json_text(items[count - 1])
    }
}

/// The texts of the first `count` members with commas in between.
pub open spec fn members_text(members: Seq<(Seq<char>, JsonView)>, count: nat) -> Seq<char>
    decreases members, count,
{
    if count == 0 || count > members.len() {
        Seq::empty()
    } else {
        let member = json_quoted(members[count - 1].0) + ":"@ + json_text(members[count - 1].1);
        if count == 1 {
            member
        } else {
            members_text(members, (count - 1) as nat) + ","@ + member
        }
    }
}

fn append_json(text: &mut String, value: &Json)
    ensures
        final(text)@ == old(text)@ + json_text(value@),
    decreases value,
{
    let ghost before = text@;
    match value {
        Json::Null => text.append("null"),
        Json::Bool(b) => if *b {
            text.append("true")
        } else {
            text.append("false")
        },
        Json::Number(n) => match n {
            JsonNumber::Unsigned(n) => text.append(decimal_text(*n as u128).as_str()),
            JsonNumber::Negative(n) => text.append(signed_decimal_text(*n).as_str()),
            JsonNumber::Real(digits) => text.append(digits.as_str()),
        },
        Json::Text(inner) => text.append(quote(inner.as_str()).as_str()),
        Json::Array(items) => {
            proof {
                lemma_array_view(*items);
            }
            let ghost views = items_view(items@);
            text.append("[");
            let mut i: usize = 0;
            assert(text@ =~= before + "["@ + items_text(views, 0));
            while i < items.len()
                invariant
                    i <= items.len(),
                    views == items_view(items@),
                    *value == Json::Array(*items),
                    text@ == before + "["@ + items_text(views, i as nat),
                decreases items.len() - i,
            {
                assert(decreases_to!(*value => value->Array_0));
                if i > 0 {
                    text.append(",");
                }
                append_json(text, &items[i]);
                i = i + 1;
                assert(text@ =~= before + "["@ + items_text(views, i as nat));
            }
            text.append("]");
            assert(text@ =~= before + json_text(value@));
        },
        Json::Object(members) => {
            proof {
                lemma_object_view(*members);
            }
            let ghost views = members_view(members@);
            text.append("{");
            let mut i: usize = 0;
            assert(text@ =~= before + "{"@ + members_text(views, 0));
            while i < members.len()
                invariant
                    i <= members.len(),
                    views == members_view(members@),
                    *value == Json::Object(*members),
                    text@ == before + "{"@ + members_text(views, i as nat),
                decreases members.len() - i,
            {
                assert(decreases_to!(*value => value->Object_0));
                assert(decreases_to!(members@[i as int] => members@[i as int].1));
                if i > 0 {
                    text.append(",");
                }
                text.append(quote(members[i].0.as_str()).as_str());
                text.append(":");
                append_json(text, &members[i].1);
                i = i + 1;
                assert(text@ =~= before + "{"@ + members_text(views, i as nat));
            }
            text.append("}");
            assert(text@ =~= before + json_text(value@));
        },
    }
}

impl Json {
    /// The compact text of the value.
    pub fn to_text(&self) -> (text: String)
        ensures
            text@ == json_text(self@),
    {
        let mut text = String::new();
        append_json(&mut text, self);
        assert(text@ =~= json_text(self@));
        text
    }
}

/// The keys are strictly increasing.
pub open spec fn keys_increase(members: Seq<(Seq<char>, JsonView)>) -> bool {
    forall|i: int, j: int|
        0 <= i < j < members.len() ==> precedes((#[trigger] members[i]).0, (
        #[trigger] members[j]).0)
}

/// Whether a member with this key is among them.
pub open spec fn has_key(members: Seq<(Seq<char>, JsonView)>, key: Seq<char>) -> bool {
    exists|i: int| 0 <= i < members.len() && (#[trigger] members[i]).0 == key
}

proof fn lemma_insert_member(
    sorted: Seq<(Seq<char>, JsonView)>,
    key: Seq<char>,
    value: JsonView,
)
    requires
        keys_increase(sorted),
    ensures
        keys_increase(insert_member(sorted, key, value)),
        insert_member(sorted, key, value).len() > 0,
        insert_member(sorted, key, value)[0].0 == key || (sorted.len() > 0 && insert_member(
            sorted,
            key,
            value,
        )[0] == sorted[0]),
        !has_key(sorted, key) ==> forall|member: (Seq<char>, JsonView)| #[trigger]
            insert_member(sorted, key, value).contains(member) <==> sorted.contains(member)
                || member == (key, value),
    decreases sorted.len(),
{
    let result = insert_member(sorted, key, value);
    if sorted.len() == 0 {
        assert(result =~= seq![(key, value)]);
        assert(result[0] == (key, value));
    } else if sorted[0].0 == key {
        assert(has_key(sorted, key));
        assert forall|i: int, j: int| 0 <= i < j < result.len() implies precedes(
            (#[trigger] result[i]).0,
            (#[trigger] result[j]).0,
        ) by {
            assert(result[j] == sorted[j]);
            assert(result[i].0 == sorted[i].0);
        }
    } else if precedes(key, sorted[0].0) {
        assert forall|i: int, j: int| 0 <= i < j < result.len() implies precedes(
            (#[trigger] result[i]).0,
            (#[trigger] result[j]).0,
        ) by {
            assert(result[j] == sorted[j - 1]);
            if i == 0 {
                if j > 1 {
                    assert(precedes(sorted[0].0, sorted[j - 1].0));
                    precedes_transitive(key, sorted[0].0, sorted[j - 1].0);
                }
            } else {
                assert(result[i] == sorted[i - 1]);
            }
        }
        assert forall|member: (Seq<char>, JsonView)| #[trigger]
            result.contains(member) <==> sorted.contains(member) || member == (key, value) by {
            if sorted.contains(member) {
                let at = choose|i: int| 0 <= i < sorted.len() && sorted[i] == member;
                assert(result[at + 1] == member);
            }
            if member == (key, value) {
                assert(result[0] == member);
            }
            if result.contains(member) {
                let at = choose|i: int| 0 <= i < result.len() && result[i] == member;
                if at > 0 {
                    assert(sorted[at - 1] == member);
                }
            }
        }
    } else {
        let rest = sorted.skip(1);
        let inner = insert_member(rest, key, value);
        assert forall|i: int, j: int| 0 <= i < j < rest.len() implies precedes(
            (#[trigger] rest[i]).0,
            (#[trigger] rest[j]).0,
        ) by {
            assert(rest[i] == sorted[i + 1] && rest[j] == sorted[j + 1]);
        }
        lemma_insert_member(rest, key, value);
        precedes_total(key, sorted[0].0);
        assert(precedes(sorted[0].0, inner[0].0)) by {
            if inner[0].0 != key {
                assert(rest[0] == sorted[1]);
            }
        }
        assert forall|i: int, j: int| 0 <= i < j < result.len() implies precedes(
            (#[trigger] result[i]).0,
            (#[trigger] result[j]).0,
        ) by {
            assert(result[j] == inner[j - 1]);
            if i == 0 {
                if j > 1 {
                    assert(precedes(inner[0].0, inner[j - 1].0));
                    precedes_transitive(sorted[0].0, inner[0].0, inner[j - 1].0);
                }
            } else {
                assert(result[i] == inner[i - 1]);
            }
        }
        if !has_key(sorted, key) {
            assert(!has_key(rest, key)) by {
                if has_key(rest, key) {
                    let at = choose|i: int| 0 <= i < rest.len() && (#[trigger] rest[i]).0 == key;
                    assert(sorted[at + 1].0 == key);
                }
            }
            assert forall|member: (Seq<char>, JsonView)| #[trigger]
                result.contains(member) <==> sorted.contains(member) || member == (
                key,
                value,
            ) by {
                if result.contains(member) {
                    let at = choose|i: int| 0 <= i < result.len() && result[i] == member;
                    if at > 0 {
                        assert(inner[at - 1] == member);
                        assert(inner.contains(member));
                        if rest.contains(member) {
                            let k = choose|i: int| 0 <= i < rest.len() && rest[i] == member;
                            assert(sorted[k + 1] == member);
                        }
                    } else {
                        assert(sorted[0] == member);
                    }
                }
                if sorted.contains(member) || member == (key, value) {
                    if sorted.contains(member) {
                        let at = choose|i: int| 0 <= i < sorted.len() && sorted[i] == member;
                        if at == 0 {
                            assert(result[0] == member);
                        } else {
                            assert(rest[at - 1] == member);
                            assert(inner.contains(member));
                        }
                    }
                    if inner.contains(member) {
                        let k = choose|i: int| 0 <= i < inner.len() && inner[i] == member;
                        assert(result[k + 1] == member);
                    }
                }
            }
        }
    }
}

/// No two members have the same key.
pub open spec fn keys_differ(members: Seq<(Seq<char>, JsonView)>) -> bool {
    forall|i: int, j: int|
        0 <= i < j < members.len() ==> (#[trigger] members[i]).0 != (#[trigger] members[j]).0
}

/// Sorting brings the keys in order, and where no key occurs twice keeps exactly the members.
pub proof fn sorting_keeps_the_members(members: Seq<(Seq<char>, JsonView)>)
    ensures
        keys_increase(sorted_members(members)),
        keys_differ(members) ==> forall|member: (Seq<char>, JsonView)| #[trigger]
            sorted_members(members).contains(member) <==> members.contains(member),
    decreases members.len(),
{
    if members.len() > 0 {
        let front = members.drop_last();
        let sorted = sorted_members(front);
        let last = members.last();
        sorting_keeps_the_members(front);
        lemma_insert_member(sorted, last.0, last.1);
        if keys_differ(members) {
            assert(keys_differ(front)) by {
                assert forall|i: int, j: int| 0 <= i < j < front.len() implies (
                #[trigger] front[i]).0 != (#[trigger] front[j]).0 by {
                    assert(front[i] == members[i] && front[j] == members[j]);
                }
            }
            assert(!has_key(sorted, last.0)) by {
                if has_key(sorted, last.0) {
                    let at = choose|i: int|
                        0 <= i < sorted.len() && (#[trigger] sorted[i]).0 == last.0;
                    assert(sorted.contains(sorted[at]));
                    assert(front.contains(sorted[at]));
                    let k = choose|i: int| 0 <= i < front.len() && front[i] == sorted[at];
                    assert(members[k].0 == members[members.len() - 1].0);
                }
            }
            assert forall|member: (Seq<char>, JsonView)| #[trigger]
                sorted_members(members).contains(member) <==> members.contains(member) by {
                if members.contains(member) {
                    let at = choose|i: int| 0 <= i < members.len() && members[i] == member;
                    if at < front.len() {
                        assert(front[at] == member);
                        assert(front.contains(member));
                        assert(sorted.contains(member));
                    }
                }
                if sorted_members(members).contains(member) {
                    if sorted.contains(member) {
                        assert(front.contains(member));
                        let k = choose|i: int| 0 <= i < front.len() && front[i] == member;
                        assert(members[k] == member);
                    } else {
                        assert(members[members.len() - 1] == member);
                    }
                }
            }
        }
    }
}

proof fn lemma_sorted_is_unique(
    a: Seq<(Seq<char>, JsonView)>,
    b: Seq<(Seq<char>, JsonView)>,
)
    requires
        keys_increase(a),
        keys_increase(b),
        forall|member: (Seq<char>, JsonView)|
            #![trigger a.contains(member)]
            #![trigger b.contains(member)]
            a.contains(member) <==> b.contains(member),
    ensures
        a == b,
    decreases a.len(),
{
    if a.len() == 0 {
        if b.len() > 0 {
            assert(b.contains(b[0]));
            assert(a.contains(b[0]));
        }
        assert(a =~= b);
    } else {
        assert(a.contains(a[0]));
        assert(b.contains(a[0]));
        let at = choose|i: int| 0 <= i < b.len() && b[i] == a[0];
        assert(b.contains(b[0]));
        assert(a.contains(b[0]));
        let bt = choose|i: int| 0 <= i < a.len() && a[i] == b[0];
        if at > 0 {
            assert(precedes(b[0].0, b[at].0));
            if bt > 0 {
                assert(precedes(a[0].0, a[bt].0));
                precedes_transitive(a[0].0, a[bt].0, a[0].0);
            }
            precedes_irreflexive(a[0].0);
        }
        assert(a[0] == b[0]);
        let ra = a.skip(1);
        let rb = b.skip(1);
        assert forall|i: int, j: int| 0 <= i < j < ra.len() implies precedes(
            (#[trigger] ra[i]).0,
            (#[trigger] ra[j]).0,
        ) by {
            assert(ra[i] == a[i + 1] && ra[j] == a[j + 1]);
        }
        assert forall|i: int, j: int| 0 <= i < j < rb.len() implies precedes(
            (#[trigger] rb[i]).0,
            (#[trigger] rb[j]).0,
        ) by {
            assert(rb[i] == b[i + 1] && rb[j] == b[j + 1]);
        }
        assert forall|member: (Seq<char>, JsonView)|
            #![trigger ra.contains(member)]
            #![trigger rb.contains(member)]
            ra.contains(member) <==> rb.contains(member) by {
            if ra.contains(member) {
                let k = choose|i: int| 0 <= i < ra.len() && ra[i] == member;
                assert(a[k + 1] == member);
                assert(a.contains(member));
                assert(b.contains(member));
                let m = choose|i: int| 0 <= i < b.len() && b[i] == member;
                if m == 0 {
                    assert(precedes(a[0].0, a[k + 1].0));
                    precedes_irreflexive(a[0].0);
                }
                assert(rb[m - 1] == member);
            }
            if rb.contains(member) {
                let k = choose|i: int| 0 <= i < rb.len() && rb[i] == member;
                assert(b[k + 1] == member);
                assert(b.contains(member));
                assert(a.contains(member));
                let m = choose|i: int| 0 <= i < a.len() && a[i] == member;
                if m == 0 {
                    assert(precedes(b[0].0, b[k + 1].0));
                    precedes_irreflexive(b[0].0);
                }
                assert(ra[m - 1] == member);
            }
        }
        lemma_sorted_is_unique(ra, rb);
        assert(a =~= seq![a[0]] + ra);
        assert(b =~= seq![b[0]] + rb);
    }
}

/// The order in which the members of an object are given does not matter to its canonical
/// form.
pub proof fn canonical_form_ignores_order(
    a: Seq<(Seq<char>, JsonView)>,
    b: Seq<(Seq<char>, JsonView)>,
)
    requires
        keys_differ(a),
        keys_differ(b),
        forall|member: (Seq<char>, JsonView)|
            #![trigger a.contains(member)]
            #![trigger b.contains(member)]
            a.contains(member) <==> b.contains(member),
    ensures
        canonical(JsonView::Object(a)) == canonical(JsonView::Object(b)),
{
    let ca = canonical_values(a);
    let cb = canonical_values(b);
    assert(keys_differ(ca)) by {
        assert forall|i: int, j: int| 0 <= i < j < ca.len() implies (#[trigger] ca[i]).0 != (
        #[trigger] ca[j]).0 by {
            assert(a[i].0 != a[j].0);
        }
    }
    assert(keys_differ(cb)) by {
        assert forall|i: int, j: int| 0 <= i < j < cb.len() implies (#[trigger] cb[i]).0 != (
        #[trigger] cb[j]).0 by {
            assert(b[i].0 != b[j].0);
        }
    }
    sorting_keeps_the_members(ca);
    sorting_keeps_the_members(cb);
    let sa = sorted_members(ca);
    let sb = sorted_members(cb);
    assert forall|member: (Seq<char>, JsonView)|
        #![trigger sa.contains(member)]
        #![trigger sb.contains(member)]
        sa.contains(member) <==> sb.contains(member) by {
        assert(sa.contains(member) <==> ca.contains(member));
        assert(sb.contains(member) <==> cb.contains(member));
        if ca.contains(member) {
            let k = choose|i: int| 0 <= i < ca.len() && ca[i] == member;
            assert(a.contains(a[k]));
            assert(b.contains(a[k]));
            let m = choose|i: int| 0 <= i < b.len() && b[i] == a[k];
            assert(cb[m] == member);
        }
        if cb.contains(member) {
            let k = choose|i: int| 0 <= i < cb.len() && cb[i] == member;
            assert(b.contains(b[k]));
            assert(a.contains(b[k]));
            let m = choose|i: int| 0 <= i < a.len() && a[i] == b[k];
            assert(ca[m] == member);
        }
    }
    lemma_sorted_is_unique(sa, sb);
}

proof fn lemma_inserted_members(
    sorted: Seq<(Seq<char>, JsonView)>,
    key: Seq<char>,
    value: JsonView,
)
    ensures
        forall|i: int|
            0 <= i < insert_member(sorted, key, value).len() ==> sorted.contains(
                #[trigger] insert_member(sorted, key, value)[i],
            ) || insert_member(sorted, key, value)[i] == (key, value),
    decreases sorted.len(),
{
    let result = insert_member(sorted, key, value);
    if sorted.len() > 0 {
        let rest = sorted.skip(1);
        lemma_inserted_members(rest, key, value);
        assert forall|i: int| 0 <= i < result.len() implies sorted.contains(#[trigger] result[i])
            || result[i] == (key, value) by {
            if sorted[0].0 == key {
                if i > 0 {
                    assert(result[i] == sorted[i]);
                }
            } else if precedes(key, sorted[0].0) {
                if i > 0 {
                    assert(result[i] == sorted[i - 1]);
                }
            } else if i == 0 {
                assert(result[0] == sorted[0]);
            } else {
                let inner = insert_member(rest, key, value);
                assert(result[i] == inner[i - 1]);
                if rest.contains(inner[i - 1]) {
                    let k = choose|k: int| 0 <= k < rest.len() && rest[k] == inner[i - 1];
                    assert(sorted[k + 1] == result[i]);
                }
            }
        }
    }
}

proof fn lemma_sorted_from(members: Seq<(Seq<char>, JsonView)>)
    ensures
        forall|i: int|
            0 <= i < sorted_members(members).len() ==> members.contains(
                #[trigger] sorted_members(members)[i],
            ),
    decreases members.len(),
{
    if members.len() > 0 {
        let front = members.drop_last();
        lemma_sorted_from(front);
        let sorted = sorted_members(front);
        lemma_inserted_members(sorted, members.last().0, members.last().1);
        assert forall|i: int| 0 <= i < sorted_members(members).len() implies members.contains(
            #[trigger] sorted_members(members)[i],
        ) by {
            let member = sorted_members(members)[i];
            if sorted.contains(member) {
                let k = choose|k: int| 0 <= k < sorted.len() && sorted[k] == member;
                assert(front.contains(sorted[k]));
                let m = choose|m: int| 0 <= m < front.len() && front[m] == member;
                assert(members[m] == member);
            } else {
                assert(members[members.len() - 1] == member);
            }
        }
    }
}

proof fn lemma_sorting_sorted(members: Seq<(Seq<char>, JsonView)>)
    requires
        keys_increase(members),
    ensures
        sorted_members(members) == members,
{
    assert(keys_differ(members)) by {
        assert forall|i: int, j: int| 0 <= i < j < members.len() implies (#[trigger] members[i]).0
            != (#[trigger] members[j]).0 by {
            precedes_irreflexive(members[i].0);
        }
    }
    sorting_keeps_the_members(members);
    lemma_sorted_is_unique(sorted_members(members), members);
}

/// A canonical value is its own canonical form.
pub proof fn canonical_form_is_final(value: JsonView)
    ensures
        canonical(canonical(value)) == canonical(value),
    decreases value,
{
    match value {
        JsonView::Array(items) => {
            let once = canonical_items(items);
            assert forall|i: int| 0 <= i < items.len() implies canonical(#[trigger] once[i])
                == once[i] by {
                canonical_form_is_final(items[i]);
            }
            assert(canonical_items(once) =~= once);
        },
        JsonView::Object(members) => {
            let values = canonical_values(members);
            let once = sorted_members(values);
            sorting_keeps_the_members(values);
            lemma_sorted_from(values);
            assert forall|i: int| 0 <= i < once.len() implies canonical((#[trigger] once[i]).1)
                == once[i].1 by {
                assert(values.contains(once[i]));
                let k = choose|k: int| 0 <= k < values.len() && values[k] == once[i];
                assert(decreases_to!(members[k] => members[k].1));
                canonical_form_is_final(members[k].1);
            }
            assert(canonical_values(once) =~= once);
            lemma_sorting_sorted(once);
        },
        _ => {},
    }
}

} // verus!
