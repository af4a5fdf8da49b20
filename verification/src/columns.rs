//! Numbers and identifiers in a database that has no unsigned numbers.
use vstd::prelude::*;

use crate::domain::game::SeatId;
use crate::domain::ids::{id_text, parse_id, parsed_uuid, uuid_text};

verus! {

/// The largest number that a column of 64 bits holds.
pub const WIDE_MAX: i64 = 0x7fff_ffff_ffff_ffff;

/// The largest number that a column of 32 bits holds.
pub const MIDDLE_MAX: i32 = 0x7fff_ffff;

/// A number in a column of 64 bits, or the largest that such a column holds.
pub open spec fn wide(n: int) -> int {
    if n <= WIDE_MAX {
        n
    } else {
        WIDE_MAX as int
    }
}

pub fn to_wide(n: u64) -> (column: i64)
    ensures
        column == wide(n as int),
{
    if n <= WIDE_MAX as u64 {
        n as i64
    } else {
        WIDE_MAX
    }
}

/// The bound of a page in a query.
pub fn page_bound(n: usize) -> (column: i64)
    ensures
        column == wide(n as int),
{
    to_wide(n as u64)
}

/// A number in a column of 32 bits, or the largest that such a column holds.
pub open spec fn middle(n: int) -> int {
    if n <= MIDDLE_MAX {
        n
    } else {
        MIDDLE_MAX as int
    }
}

pub fn to_middle(n: u32) -> (column: i32)
    ensures
        column == middle(n as int),
{
    if n <= MIDDLE_MAX as u32 {
        n as i32
    } else {
        MIDDLE_MAX
    }
}

/// A number from a column, or zero where it is none of this kind.
pub open spec fn unsigned_or_zero(column: int, max: int) -> int {
    if 0 <= column <= max {
        column
    } else {
        0
    }
}

pub fn from_wide(column: i64) -> (n: u64)
    ensures
        n == unsigned_or_zero(column as int, u64::MAX as int),
{
    if column >= 0 {
        column as u64
    } else {
        0
    }
}

pub fn from_middle(column: i32) -> (n: u32)
    ensures
        n == unsigned_or_zero(column as int, u32::MAX as int),
{
    if column >= 0 {
        column as u32
    } else {
        0
    }
}

/// The seat in a column, or seat zero where it is none.
pub fn seat_or_zero(column: i16) -> (seat: SeatId)
    ensures
        seat == unsigned_or_zero(column as int, u8::MAX as int),
{
    if 0 <= column && column <= 255 {
        column as u8
    } else {
        0
    }
}

/// The seat in a column that may be empty or hold none.
pub open spec fn seat_in(column: Option<i16>) -> Option<SeatId> {
    match column {
        Some(n) => if 0 <= n <= 255 {
            Some(n as u8)
        } else {
            None
        },
        None => None,
    }
}

pub fn optional_seat(column: Option<i16>) -> (seat: Option<SeatId>)
    ensures
        seat == seat_in(column),
{
    match column {
        Some(n) => if 0 <= n && n <= 255 {
            Some(n as u8)
        } else {
            None
        },
        None => None,
    }
}

/// A seat in a column.
pub open spec fn seat_column(seat: Option<SeatId>) -> Option<i16> {
    match seat {
        Some(n) => Some(n as i16),
        None => None,
    }
}

pub fn optional_seat_column(seat: Option<SeatId>) -> (column: Option<i16>)
    ensures
        column == seat_column(seat),
{
    match seat {
        Some(n) => Some(n as i16),
        None => None,
    }
}

/// What goes into a column of 64 bits comes out again, as long as it fits.
pub proof fn columns_give_back_what_fits(n: u64, seq: u32, seat: Option<SeatId>)
    ensures
        n <= WIDE_MAX ==> unsigned_or_zero(wide(n as int), u64::MAX as int) == n,
        seq <= MIDDLE_MAX ==> unsigned_or_zero(middle(seq as int), u32::MAX as int) == seq,
        seat_in(seat_column(seat)) == seat,
{
}

/// The identifier that a text names, none where there is no text or it names none.
pub open spec fn optional_id_in(text: Option<String>) -> Option<u128> {
    match text {
        Some(text) => match parsed_uuid(text@) {
            Ok(id) => Some(id),
            Err(_) => None,
        },
        None => None,
    }
}

pub fn optional_id(text: &Option<String>) -> (id: Option<u128>)
    ensures
        id == optional_id_in(*text),
{
    match text {
        Some(text) => match parse_id(text.as_str()) {
            Ok(id) => Some(id),
            Err(_) => None,
        },
        None => None,
    }
}

/// Whether a text is that of an identifier, and missing where that is missing.
pub open spec fn is_optional_id_text(text: Option<String>, id: Option<u128>) -> bool {
    match id {
        Some(id) => text is Some && text->0@ == uuid_text(id),
        None => text is None,
    }
}

pub fn optional_id_text(id: Option<u128>) -> (text: Option<String>)
    ensures
        is_optional_id_text(text, id),
{
    match id {
        Some(id) => Some(id_text(id)),
        None => None,
    }
}

} // verus!
