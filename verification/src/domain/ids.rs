use vstd::arithmetic::power::pow;
use vstd::prelude::*;

use crate::text::digit_char;

verus! {

/// The hexadecimal digit at place `k` of the thirty-two digits of an identifier.
pub open spec fn uuid_digit(id: u128, k: int) -> char {
    digit_char((id as int / pow(16, (31 - k) as nat)) % 16)
}

/// The text of an identifier: its digits in groups of eight, four, four, four and twelve with
/// hyphens in between.
pub open spec fn uuid_text(id: u128) -> Seq<char> {
    Seq::new(
        36,
        |i: int|
            if i == 8 || i == 13 || i == 18 || i == 23 {
                '-'
            } else if i < 8 {
                uuid_digit(id, i)
            } else if i < 13 {
                uuid_digit(id, i - 1)
            } else if i < 18 {
                uuid_digit(id, i - 2)
            } else if i < 23 {
                uuid_digit(id, i - 3)
            } else {
                uuid_digit(id, i - 4)
            },
    )
}

/// Writes an identifier with the `Display` of `uuid::Uuid`: hyphenated, in small letters.
#[verifier::external_body]
fn write_uuid(id: u128) -> (text: String)
    ensures
        text@ == uuid_text(id),
{
    uuid::Uuid::from_u128(id).to_string()
}

/// What `uuid::Uuid::parse_str` makes of a text: an identifier, or what is wrong with the
/// text.
pub uninterp spec fn parsed_uuid(text: Seq<char>) -> Result<u128, Seq<char>>;

/// Reads an identifier with `uuid::Uuid::parse_str`. The result is claimed to depend on the
/// text alone, and the hyphenated text of an identifier to give that identifier back.
#[verifier::external_body]
fn read_uuid(text: &str) -> (read: Result<u128, String>)
    ensures
        read is Ok <==> parsed_uuid(text@) is Ok,
        read is Ok ==> parsed_uuid(text@)->Ok_0 == read->Ok_0,
        read is Err ==> parsed_uuid(text@)->Err_0 == read->Err_0@,
        forall|given: u128| #[trigger]
            uuid_text(given) == text@ ==> read is Ok && read->Ok_0 == given,
{
    match uuid::Uuid::parse_str(text) {
        Ok(id) => Ok(id.as_u128()),
        Err(error) => Err(error.to_string()),
    }
}

/// The text of an identifier.
pub fn id_text(id: u128) -> (text: String)
    ensures
        text@ == uuid_text(id),
{
    write_uuid(id)
}

/// The identifier that a text names, or what is wrong with the text. What `id_text` wrote is
/// read back.
pub fn parse_id(text: &str) -> (read: Result<u128, String>)
    ensures
        read is Ok <==> parsed_uuid(text@) is Ok,
        read is Ok ==> parsed_uuid(text@)->Ok_0 == read->Ok_0,
        read is Err ==> parsed_uuid(text@)->Err_0 == read->Err_0@,
        forall|given: u128| #[trigger]
            uuid_text(given) == text@ ==> read is Ok && read->Ok_0 == given,
{
    read_uuid(text)
}

/// Whether an identifier is of the seventh version, which begins with the time: that version
/// stands in its thirteenth digit, and the variant of the standard in the two bits behind the
/// sixteenth.
pub open spec fn is_time_ordered(id: u128) -> bool {
    &&& (id as int / 0x1000_0000_0000_0000_0000) % 16 == 7
    &&& (id as int / 0x4000_0000_0000_0000) % 4 == 2
}

/// A fresh identifier from `uuid::Uuid::now_v7`, as a number. It depends on the clock and
/// on chance, so nothing is claimed of it but its version and its variant.
#[verifier::external_body]
pub(crate) fn fresh_uuid() -> (id: u128)
    ensures
        is_time_ordered(id),
{
    uuid::Uuid::now_v7().as_u128()
}

/// Whether a text is that of a fresh identifier.
pub open spec fn is_fresh_text(text: Seq<char>) -> bool {
    exists|id: u128| is_time_ordered(id) && text == #[trigger] uuid_text(id)
}

/// Writes a fresh identifier.
pub(crate) fn fresh_id_text() -> (text: String)
    ensures
        is_fresh_text(text@),
{
    id_text(fresh_uuid())
}

/// Identifies an agent.
#[derive(Debug, Clone, Copy, PartialEq, Eq, PartialOrd, Ord, Hash, Structural)]
pub struct AgentId(pub u128);

/// Identifies one hand of a room.
#[derive(Debug, Clone, Copy, PartialEq, Eq, PartialOrd, Ord, Hash, Structural)]
pub struct HandId(pub u128);

/// Identifies one request of a client.
#[derive(Debug, Clone, Copy, PartialEq, Eq, PartialOrd, Ord, Hash, Structural)]
pub struct RequestId(pub u128);

/// Identifies a room.
#[derive(Debug, Clone, Copy, PartialEq, Eq, PartialOrd, Ord, Hash, Structural)]
pub struct RoomId(pub u128);

/// Identifies a session of an agent.
#[derive(Debug, Clone, Copy, PartialEq, Eq, PartialOrd, Ord, Hash, Structural)]
pub struct SessionId(pub u128);

/// Ties together the records that one request leaves behind.
#[derive(Debug, Clone, Copy, PartialEq, Eq, PartialOrd, Ord, Hash, Structural)]
pub struct TraceId(pub u128);

impl AgentId {
    pub fn new() -> (id: AgentId)
        ensures
            is_time_ordered(id.0),
    {
        AgentId(fresh_uuid())
    }
}

impl HandId {
    pub fn new() -> (id: HandId)
        ensures
            is_time_ordered(id.0),
    {
        HandId(fresh_uuid())
    }
}

impl RequestId {
    pub fn new() -> (id: RequestId)
        ensures
            is_time_ordered(id.0),
    {
        RequestId(fresh_uuid())
    }
}

impl RoomId {
    pub fn new() -> (id: RoomId)
        ensures
            is_time_ordered(id.0),
    {
        RoomId(fresh_uuid())
    }
}

impl SessionId {
    pub fn new() -> (id: SessionId)
        ensures
            is_time_ordered(id.0),
            id.0 != 0,
    {
        SessionId(fresh_uuid())
    }

    /// The session of a request that belongs to none.
    pub fn nil() -> (id: SessionId)
        ensures
            id.0 == 0,
    {
        SessionId(0)
    }
}

impl TraceId {
    pub fn new() -> (id: TraceId)
        ensures
            is_time_ordered(id.0),
    {
        TraceId(fresh_uuid())
    }
}

/// The digit at place `k` comes back out of its character.
proof fn lemma_same_digits(a: u128, b: u128, k: int)
    requires
        0 <= k < 32,
        uuid_text(a) == uuid_text(b),
    ensures
        (a as int / pow(16, (31 - k) as nat)) % 16 == (b as int / pow(16, (31 - k) as nat)) % 16,
{
    let at: int = if k < 8 {
        k
    } else if k < 12 {
        k + 1
    } else if k < 16 {
        k + 2
    } else if k < 20 {
        k + 3
    } else {
        k + 4
    };
    assert(uuid_text(a)[at] == uuid_digit(a, k));
    assert(uuid_text(b)[at] == uuid_digit(b, k));
}

proof fn lemma_same_upper_digits(a: u128, b: u128, k: nat)
    requires
        k <= 32,
        uuid_text(a) == uuid_text(b),
    ensures
        a as int / pow(16, (32 - k) as nat) == b as int / pow(16, (32 - k) as nat),
    decreases k,
{
    if k == 0 {
        assert(pow(16, 32) == 0x1_0000_0000_0000_0000_0000_0000_0000_0000) by {
            reveal(pow);
            assert(pow(16, 8) == 0x1_0000_0000) by {
                reveal_with_fuel(pow, 9);
            }
            vstd::arithmetic::power::lemma_pow_adds(16, 8, 8);
            assert(pow(16, 16) == 0x1_0000_0000_0000_0000);
            vstd::arithmetic::power::lemma_pow_adds(16, 16, 16);
        }
        vstd::arithmetic::div_mod::lemma_basic_div(a as int, pow(16, 32));
        vstd::arithmetic::div_mod::lemma_basic_div(b as int, pow(16, 32));
    } else {
        lemma_same_upper_digits(a, b, (k - 1) as nat);
        lemma_same_digits(a, b, k - 1);
        let low = pow(16, (32 - k) as nat);
        vstd::arithmetic::power::lemma_pow_positive(16, (32 - k) as nat);
        assert(pow(16, (33 - k) as nat) == low * 16) by {
            reveal(pow);
            vstd::arithmetic::mul::lemma_mul_is_commutative(16, low);
        }
        vstd::arithmetic::div_mod::lemma_div_denominator(a as int, low, 16);
        vstd::arithmetic::div_mod::lemma_div_denominator(b as int, low, 16);
        vstd::arithmetic::div_mod::lemma_fundamental_div_mod(a as int / low, 16);
        vstd::arithmetic::div_mod::lemma_fundamental_div_mod(b as int / low, 16);
    }
}

/// Different identifiers have different texts.
pub proof fn identifiers_read_apart(a: u128, b: u128)
    requires
        uuid_text(a) == uuid_text(b),
    ensures
        a == b,
{
    lemma_same_upper_digits(a, b, 32);
    assert(pow(16, 0) == 1) by {
        reveal(pow);
    }
}

/// The text of an identifier is made of digits, small letters and hyphens.
pub proof fn lemma_uuid_characters(id: u128)
    ensures
        uuid_text(id).len() == 36,
        forall|i: int|
            0 <= i < 36 ==> (#[trigger] uuid_text(id)[i]) != '|' && uuid_text(id)[i] != '=',
{
    assert forall|i: int| 0 <= i < 36 implies (#[trigger] uuid_text(id)[i]) != '|' && uuid_text(
        id,
    )[i] != '=' by {
        assert(forall|k: int| (#[trigger] uuid_digit(id, k)) != '|' && uuid_digit(id, k) != '=');
    }
}

} // verus!
