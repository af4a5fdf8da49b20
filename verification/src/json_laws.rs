//! What the text of a JSON value says of the value.

use vstd::prelude::*;

use crate::json::{
    canonical, canonical_items, canonical_values, escaped_text, insert_member, items_text,
    json_quoted, json_text, members_text, quoted_strings_end, sorted_members, JsonView, NumberView,
};
use crate::text::{decimal, lemma_quotient, numbers_read_back};

verus! {

/// Whether every number of a value is whole, and kept as unsigned unless it is below zero.
pub open spec fn is_whole(value: JsonView) -> bool
    decreases value,
{
    match value {
        JsonView::Number(NumberView::Negative(n)) => n < 0,
        JsonView::Number(NumberView::Real(_)) => false,
        JsonView::Array(items) => forall|i: int|
            0 <= i < items.len() ==> is_whole(#[trigger] items[i]),
        JsonView::Object(members) => forall|i: int|
            0 <= i < members.len() ==> is_whole((#[trigger] members[i]).1),
        _ => true,
    }
}

/// Whether no digit stands at the start of a text.
pub open spec fn starts_without_digit(text: Seq<char>) -> bool {
    text.len() == 0 || !('0' <= text[0] && text[0] <= '9')
}

/// A number is written in at least one digit and in nothing else.
pub proof fn lemma_decimal_digits(n: nat)
    ensures
        decimal(n).len() > 0,
        forall|i: int|
            0 <= i < decimal(n).len() ==> '0' <= (#[trigger] decimal(n)[i]) && decimal(n)[i]
                <= '9',
    decreases n,
{
    if n >= 10 {
        lemma_quotient(n, 10);
        lemma_decimal_digits(n / 10);
    }
}

/// A number ends where its digits end.
pub proof fn numbers_end(n: nat, m: nat, x: Seq<char>, y: Seq<char>)
    requires
        decimal(n) + x == decimal(m) + y,
        starts_without_digit(x),
        starts_without_digit(y),
    ensures
        n == m,
        x == y,
{
    let p = decimal(n);
    let q = decimal(m);
    let left = p + x;
    let right = q + y;
    lemma_decimal_digits(n);
    lemma_decimal_digits(m);
    if p.len() < q.len() {
        assert(right[p.len() as int] == q[p.len() as int]);
        assert(left[p.len() as int] == x[0]);
    }
    if q.len() < p.len() {
        assert(left[q.len() as int] == p[q.len() as int]);
        assert(right[q.len() as int] == y[0]);
    }
    assert(p =~= left.take(p.len() as int));
    assert(q =~= right.take(q.len() as int));
    assert(x =~= left.skip(p.len() as int));
    assert(y =~= right.skip(q.len() as int));
    let most: int = if n < m {
        m as int
    } else {
        n as int
    };
    numbers_read_back(n, 10, most);
    numbers_read_back(m, 10, most);
}

/// The texts of the items from one on, with commas in between.
spec fn items_from(items: Seq<JsonView>, first: nat) -> Seq<char>
    decreases items.len() - first,
{
    if first >= items.len() {
        Seq::empty()
    } else if first + 1 == items.len() {
        json_text(items[first as int])
    } else {
        json_text(items[first as int]) + ","@ + items_from(items, first + 1)
    }
}

proof fn lemma_items_after(items: Seq<JsonView>, first: nat)
    requires
        0 < first < items.len(),
    ensures
        items_text(items, first) + ","@ + items_from(items, first) == items_text(
            items,
            items.len(),
        ),
    decreases items.len() - first,
{
    if first + 1 < items.len() {
        lemma_items_after(items, first + 1);
        let done = items_text(items, first);
        let next = json_text(items[first as int]);
        let rest = items_from(items, first + 1);
        assert(items_text(items, first + 1) == done + ","@ + next);
        assert(done + ","@ + (next + ","@ + rest) =~= (done + ","@ + next) + ","@ + rest);
    }
}

proof fn lemma_items_from_start(items: Seq<JsonView>)
    ensures
        items_text(items, items.len()) == items_from(items, 0),
{
    if items.len() >= 2 {
        lemma_items_after(items, 1);
        assert(items_text(items, 1) == json_text(items[0]));
    }
}

spec fn member_text(member: (Seq<char>, JsonView)) -> Seq<char> {
    json_quoted(member.0) + ":"@ + json_text(member.1)
}

/// The texts of the members from one on, with commas in between.
spec fn members_from(members: Seq<(Seq<char>, JsonView)>, first: nat) -> Seq<char>
    decreases members.len() - first,
{
    if first >= members.len() {
        Seq::empty()
    } else if first + 1 == members.len() {
        member_text(members[first as int])
    } else {
        member_text(members[first as int]) + ","@ + members_from(members, first + 1)
    }
}

proof fn lemma_members_after(members: Seq<(Seq<char>, JsonView)>, first: nat)
    requires
        0 < first < members.len(),
    ensures
        members_text(members, first) + ","@ + members_from(members, first) == members_text(
            members,
            members.len(),
        ),
    decreases members.len() - first,
{
    if first + 1 < members.len() {
        lemma_members_after(members, first + 1);
        let done = members_text(members, first);
        let next = member_text(members[first as int]);
        let rest = members_from(members, first + 1);
        assert(members_text(members, first + 1) == done + ","@ + next);
        assert(done + ","@ + (next + ","@ + rest) =~= (done + ","@ + next) + ","@ + rest);
    }
}

proof fn lemma_members_from_start(members: Seq<(Seq<char>, JsonView)>)
    ensures
        members_text(members, members.len()) == members_from(members, 0),
{
    if members.len() >= 2 {
        lemma_members_after(members, 1);
        assert(members_text(members, 1) == member_text(members[0]));
    }
}

/// The sort of a value can be told by the first character of its text.
spec fn begins(value: JsonView, c: char) -> bool {
    match value {
        JsonView::Null => c == 'n',
        JsonView::Bool(b) => if b {
            c == 't'
        } else {
            c == 'f'
        },
        JsonView::Number(NumberView::Unsigned(_)) => '0' <= c && c <= '9',
        JsonView::Number(_) => c == '-',
        JsonView::Text(_) => c == '"',
        JsonView::Array(_) => c == '[',
        JsonView::Object(_) => c == '{',
    }
}

proof fn lemma_first_character(value: JsonView)
    requires
        is_whole(value),
    ensures
        json_text(value).len() > 0,
        begins(value, json_text(value)[0]),
{
    reveal_strlit("null");
    reveal_strlit("true");
    reveal_strlit("false");
    reveal_strlit("[");
    reveal_strlit("]");
    reveal_strlit("{");
    reveal_strlit("}");
    if let JsonView::Number(NumberView::Unsigned(n)) = value {
        lemma_decimal_digits(n as nat);
    }
}

/// A value of whole numbers ends where its text ends, as long as no digit follows.
pub proof fn values_end(a: JsonView, b: JsonView, x: Seq<char>, y: Seq<char>)
    requires
        is_whole(a),
        is_whole(b),
        json_text(a) + x == json_text(b) + y,
        starts_without_digit(x),
        starts_without_digit(y),
    ensures
        a == b,
        x == y,
    decreases a, 0nat,
{
    let left = json_text(a) + x;
    let right = json_text(b) + y;
    lemma_first_character(a);
    lemma_first_character(b);
    assert(left[0] == json_text(a)[0]);
    assert(right[0] == json_text(b)[0]);
    match (a, b) {
        (JsonView::Null, JsonView::Null) => {
            assert(x =~= left.skip(json_text(a).len() as int));
            assert(y =~= right.skip(json_text(b).len() as int));
        },
        (JsonView::Bool(p), JsonView::Bool(q)) => {
            assert(p == q);
            assert(x =~= left.skip(json_text(a).len() as int));
            assert(y =~= right.skip(json_text(b).len() as int));
        },
        (
            JsonView::Number(NumberView::Unsigned(n)),
            JsonView::Number(NumberView::Unsigned(m)),
        ) => {
            numbers_end(n as nat, m as nat, x, y);
        },
        (
            JsonView::Number(NumberView::Negative(n)),
            JsonView::Number(NumberView::Negative(m)),
        ) => {
            assert(left.skip(1) =~= decimal((-n) as nat) + x);
            assert(right.skip(1) =~= decimal((-m) as nat) + y);
            numbers_end((-n) as nat, (-m) as nat, x, y);
        },
        (JsonView::Text(s), JsonView::Text(t)) => {
            assert(left.skip(1) =~= escaped_text(s) + seq!['"'] + x);
            assert(right.skip(1) =~= escaped_text(t) + seq!['"'] + y);
            quoted_strings_end(s, t, x, y);
        },
        (JsonView::Array(s), JsonView::Array(t)) => {
            reveal_strlit("[");
            lemma_items_from_start(s);
            lemma_items_from_start(t);
            assert(left.skip(1) =~= items_from(s, 0) + ("]"@ + x));
            assert(right.skip(1) =~= items_from(t, 0) + ("]"@ + y));
            lemma_items_end(s, t, 0, x, y);
            assert(s =~= t);
        },
        (JsonView::Object(s), JsonView::Object(t)) => {
            reveal_strlit("{");
            lemma_members_from_start(s);
            lemma_members_from_start(t);
            assert(left.skip(1) =~= members_from(s, 0) + ("}"@ + x));
            assert(right.skip(1) =~= members_from(t, 0) + ("}"@ + y));
            lemma_members_end(s, t, 0, x, y);
            assert(s =~= t);
        },
        _ => {
            assert(false);
        },
    }
}

proof fn lemma_items_end(
    a: Seq<JsonView>,
    b: Seq<JsonView>,
    first: nat,
    x: Seq<char>,
    y: Seq<char>,
)
    requires
        forall|i: int| 0 <= i < a.len() ==> is_whole(#[trigger] a[i]),
        forall|i: int| 0 <= i < b.len() ==> is_whole(#[trigger] b[i]),
        first == 0 || (first < a.len() && first < b.len()),
        items_from(a, first) + ("]"@ + x) == items_from(b, first) + ("]"@ + y),
    ensures
        a.len() == b.len(),
        forall|i: int| first <= i < a.len() ==> #[trigger] a[i] == b[i],
        x == y,
    decreases a, a.len() - first,
{
    reveal_strlit("]");
    reveal_strlit(",");
    let left = items_from(a, first) + ("]"@ + x);
    let right = items_from(b, first) + ("]"@ + y);
    if a.len() == 0 && b.len() == 0 {
        assert(x =~= left.skip(1));
        assert(y =~= right.skip(1));
    } else if a.len() == 0 {
        lemma_first_character(b[0]);
        assert(left[0] == ']');
        assert(right[0] == json_text(b[0])[0]);
    } else if b.len() == 0 {
        lemma_first_character(a[0]);
        assert(right[0] == ']');
        assert(left[0] == json_text(a[0])[0]);
    } else {
        let rest_a = if first + 1 == a.len() {
            "]"@ + x
        } else {
            ","@ + (items_from(a, first + 1) + ("]"@ + x))
        };
        let rest_b = if first + 1 == b.len() {
            "]"@ + y
        } else {
            ","@ + (items_from(b, first + 1) + ("]"@ + y))
        };
        assert(left =~= json_text(a[first as int]) + rest_a);
        assert(right =~= json_text(b[first as int]) + rest_b);
        values_end(a[first as int], b[first as int], rest_a, rest_b);
        assert(rest_a[0] == rest_b[0]);
        if first + 1 == a.len() {
            assert(x =~= rest_a.skip(1));
            assert(y =~= rest_b.skip(1));
        } else {
            assert(rest_a.skip(1) =~= items_from(a, first + 1) + ("]"@ + x));
            assert(rest_b.skip(1) =~= items_from(b, first + 1) + ("]"@ + y));
            lemma_items_end(a, b, first + 1, x, y);
        }
    }
}

/// What stands behind a member of an object.
spec fn after_member(members: Seq<(Seq<char>, JsonView)>, first: nat, x: Seq<char>) -> Seq<char> {
    if first + 1 == members.len() {
        "}"@ + x
    } else {
        ","@ + (members_from(members, first + 1) + ("}"@ + x))
    }
}

/// What stands behind the key of a member.
spec fn after_key(members: Seq<(Seq<char>, JsonView)>, first: nat, x: Seq<char>) -> Seq<char> {
    ":"@ + (json_text(members[first as int].1) + after_member(members, first, x))
}

proof fn lemma_member_first(members: Seq<(Seq<char>, JsonView)>, first: nat, x: Seq<char>)
    requires
        first < members.len(),
    ensures
        members_from(members, first) + ("}"@ + x) == seq!['"'] + (escaped_text(
            members[first as int].0,
        ) + seq!['"'] + after_key(members, first, x)),
{
    let key = escaped_text(members[first as int].0);
    let value = json_text(members[first as int].1);
    let rest = members_from(members, first + 1);
    let own = seq!['"'] + key + seq!['"'] + ":"@ + value;
    assert(member_text(members[first as int]) == own);
    if first + 1 == members.len() {
        assert(own + ("}"@ + x) =~= seq!['"'] + (key + seq!['"'] + (":"@ + (value + ("}"@ + x)))));
    } else {
        let tail = "}"@ + x;
        assert((own + ","@ + rest) + tail =~= seq!['"'] + (key + seq!['"'] + (":"@ + (value + (","@
            + (rest + tail))))));
    }
}

proof fn lemma_members_end(
    a: Seq<(Seq<char>, JsonView)>,
    b: Seq<(Seq<char>, JsonView)>,
    first: nat,
    x: Seq<char>,
    y: Seq<char>,
)
    requires
        forall|i: int| 0 <= i < a.len() ==> is_whole((#[trigger] a[i]).1),
        forall|i: int| 0 <= i < b.len() ==> is_whole((#[trigger] b[i]).1),
        first == 0 || (first < a.len() && first < b.len()),
        members_from(a, first) + ("}"@ + x) == members_from(b, first) + ("}"@ + y),
    ensures
        a.len() == b.len(),
        forall|i: int| first <= i < a.len() ==> #[trigger] a[i] == b[i],
        x == y,
    decreases a, a.len() - first,
{
    reveal_strlit("}");
    let left = members_from(a, first) + ("}"@ + x);
    let right = members_from(b, first) + ("}"@ + y);
    if a.len() == 0 && b.len() == 0 {
        assert(x =~= left.skip(1));
        assert(y =~= right.skip(1));
    } else if a.len() == 0 {
        lemma_member_first(b, 0, y);
        assert(left[0] == '}');
        assert(right[0] == '"');
    } else if b.len() == 0 {
        lemma_member_first(a, 0, x);
        assert(right[0] == '}');
        assert(left[0] == '"');
    } else {
        let one = a[first as int];
        let other = b[first as int];
        let tail_a = after_key(a, first, x);
        let tail_b = after_key(b, first, y);
        let rest_a = after_member(a, first, x);
        let rest_b = after_member(b, first, y);
        lemma_member_first(a, first, x);
        lemma_member_first(b, first, y);
        assert(left.skip(1) =~= escaped_text(one.0) + seq!['"'] + tail_a);
        assert(right.skip(1) =~= escaped_text(other.0) + seq!['"'] + tail_b);
        quoted_strings_end(one.0, other.0, tail_a, tail_b);
        assert(json_text(one.1) + rest_a == json_text(other.1) + rest_b) by {
            reveal_strlit(":");
            assert(tail_a.skip(1) =~= json_text(one.1) + rest_a);
            assert(tail_b.skip(1) =~= json_text(other.1) + rest_b);
        }
        assert(starts_without_digit(rest_a) && starts_without_digit(rest_b)) by {
            reveal_strlit(",");
        }
        assert(decreases_to!(a => one));
        values_end(one.1, other.1, rest_a, rest_b);
        lemma_rest_of_members(a, b, first, x, y);
        if first + 1 < a.len() {
            lemma_members_end(a, b, first + 1, x, y);
        }
    }
}

/// Where the same stands behind two members, the objects end together.
proof fn lemma_rest_of_members(
    a: Seq<(Seq<char>, JsonView)>,
    b: Seq<(Seq<char>, JsonView)>,
    first: nat,
    x: Seq<char>,
    y: Seq<char>,
)
    requires
        first < a.len(),
        first < b.len(),
        after_member(a, first, x) == after_member(b, first, y),
    ensures
        first + 1 == a.len() <==> first + 1 == b.len(),
        first + 1 == a.len() ==> x == y,
        first + 1 < a.len() ==> members_from(a, first + 1) + ("}"@ + x) == members_from(
            b,
            first + 1,
        ) + ("}"@ + y),
{
    reveal_strlit("}");
    reveal_strlit(",");
    let rest_a = after_member(a, first, x);
    let rest_b = after_member(b, first, y);
    assert(rest_a[0] == rest_b[0]);
    if first + 1 == a.len() {
        assert(x =~= rest_a.skip(1));
        assert(y =~= rest_b.skip(1));
    } else {
        assert(rest_a.skip(1) =~= members_from(a, first + 1) + ("}"@ + x));
        assert(rest_b.skip(1) =~= members_from(b, first + 1) + ("}"@ + y));
    }
}

/// Different values of whole numbers have different texts.
pub proof fn different_values_have_different_texts(a: JsonView, b: JsonView)
    requires
        is_whole(a),
        is_whole(b),
        json_text(a) == json_text(b),
    ensures
        a == b,
{
    values_end(a, b, Seq::empty(), Seq::empty());
}

proof fn lemma_insert_whole(sorted: Seq<(Seq<char>, JsonView)>, key: Seq<char>, value: JsonView)
    requires
        forall|i: int| 0 <= i < sorted.len() ==> is_whole((#[trigger] sorted[i]).1),
        is_whole(value),
    ensures
        forall|i: int|
            0 <= i < insert_member(sorted, key, value).len() ==> is_whole(
                (#[trigger] insert_member(sorted, key, value)[i]).1,
            ),
    decreases sorted.len(),
{
    let inserted = insert_member(sorted, key, value);
    if sorted.len() > 0 {
        let rest = insert_member(sorted.skip(1), key, value);
        lemma_insert_whole(sorted.skip(1), key, value);
        assert forall|i: int| 0 <= i < inserted.len() implies is_whole(
            (#[trigger] inserted[i]).1,
        ) by {
            if inserted == seq![(key, value)] + sorted.skip(1) {
                if i > 0 {
                    assert(inserted[i] == sorted[i]);
                }
            } else if inserted == seq![(key, value)] + sorted {
                if i > 0 {
                    assert(inserted[i] == sorted[i - 1]);
                }
            } else {
                assert(inserted == seq![sorted[0]] + rest);
                if i > 0 {
                    assert(inserted[i] == rest[i - 1]);
                }
            }
        }
    }
}

proof fn lemma_sorted_whole(members: Seq<(Seq<char>, JsonView)>)
    requires
        forall|i: int| 0 <= i < members.len() ==> is_whole((#[trigger] members[i]).1),
    ensures
        forall|i: int|
            0 <= i < sorted_members(members).len() ==> is_whole(
                (#[trigger] sorted_members(members)[i]).1,
            ),
    decreases members.len(),
{
    if members.len() > 0 {
        lemma_sorted_whole(members.drop_last());
        lemma_insert_whole(
            sorted_members(members.drop_last()),
            members.last().0,
            members.last().1,
        );
    }
}

/// The canonical form of a value keeps its numbers whole.
pub proof fn canonical_form_stays_whole(value: JsonView)
    requires
        is_whole(value),
    ensures
        is_whole(canonical(value)),
    decreases value,
{
    match value {
        JsonView::Array(items) => {
            let inner = canonical_items(items);
            assert forall|i: int| 0 <= i < inner.len() implies is_whole(#[trigger] inner[i]) by {
                canonical_form_stays_whole(items[i]);
            }
            assert(canonical(value) == JsonView::Array(inner));
        },
        JsonView::Object(members) => {
            let values = canonical_values(members);
            assert forall|i: int| 0 <= i < values.len() implies is_whole(
                (#[trigger] values[i]).1,
            ) by {
                assert(decreases_to!(members => members[i]));
                canonical_form_stays_whole(members[i].1);
            }
            lemma_sorted_whole(values);
        },
        _ => {},
    }
}

/// The canonical form reaches into every list and every object: a list stays in its order, and
/// whatever stands under a key is brought into its form in its place.
pub proof fn canonical_form_reaches_inside(value: JsonView)
    ensures
        value matches JsonView::Array(items) ==> {
            &&& canonical(value) is Array
            &&& canonical(value)->Array_0.len() == items.len()
            &&& forall|i: int|
                0 <= i < items.len() ==> #[trigger] canonical(value)->Array_0[i] == canonical(
                    items[i],
                )
        },
        value matches JsonView::Object(members) ==> {
            &&& canonical(value) is Object
            &&& members.len() == 1 ==> canonical(value)->Object_0 == seq![
                (members[0].0, canonical(members[0].1)),
            ]
        },
        !(value is Array) && !(value is Object) ==> canonical(value) == value,
{
    if let JsonView::Object(members) = value {
        if members.len() == 1 {
            let inner = crate::json::canonical_values(members);
            assert(inner.drop_last() =~= Seq::empty());
            assert(crate::json::sorted_members(inner.drop_last()) =~= Seq::empty());
            assert(canonical(value)->Object_0 =~= seq![(members[0].0, canonical(members[0].1))]);
        }
    }
}

} // verus!
