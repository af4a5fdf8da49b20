//! What the client writes down of what it did.
use vstd::prelude::*;
use vstd::string::StringExecFns;

use crate::domain::events::{
    id_json, member, object, optional_number_json, optional_number_tree, text_json, widen_seat,
};
use crate::domain::game::SeatId;
use crate::domain::ids::{uuid_text, HandId, RoomId};
use crate::domain::time::{Timestamp, LAST_SECOND};
use crate::json::{json_text, Json, JsonView};
use crate::text::{chars_of, decimal, decimal_text, owned, part, text_of};

verus! {

/// One entry of the journal.
#[derive(Debug, PartialEq, Eq)]
pub struct ClientAuditRecord {
    pub ts_unix_ms: u128,
    pub event_kind: String,
    pub room_id: Option<RoomId>,
    pub hand_id: Option<HandId>,
    pub seat_id: Option<SeatId>,
    pub payload: Json,
}

impl ClientAuditRecord {
    /// The entry without its moment, as a document.
    pub open spec fn tree(self) -> JsonView {
        JsonView::Object(
            seq![
                member("event_kind"@, JsonView::Text(self.event_kind@)),
                member(
                    "room_id"@,
                    match self.room_id {
                        Some(id) => JsonView::Text(uuid_text(id.0)),
                        None => JsonView::Null,
                    },
                ),
                member(
                    "hand_id"@,
                    match self.hand_id {
                        Some(id) => JsonView::Text(uuid_text(id.0)),
                        None => JsonView::Null,
                    },
                ),
                member("seat_id"@, optional_number_tree(widen_seat(self.seat_id))),
                member("payload"@, self.payload@),
            ],
        )
    }

    /// The line of the journal: the moment, which may be too large for a number of a document,
    /// stands before the other members.
    pub open spec fn line(self) -> Seq<char> {
        "{\"ts_unix_ms\":"@ + decimal(self.ts_unix_ms as nat) + ","@ + json_text(self.tree()).skip(1)
            + "\n"@
    }

    /// The line of the journal.
    pub fn to_line(&self) -> (text: String)
        ensures
            text@ == self.line(),
    {
        let seat_id: Option<u64> = match self.seat_id {
            Some(seat) => Some(seat as u64),
            None => None,
        };
        let mut members: Vec<(String, Json)> = Vec::new();
        members.push((owned("event_kind"), text_json(self.event_kind.as_str())));
        members.push(
            (
                owned("room_id"),
                match self.room_id {
                    Some(id) => id_json(id.0),
                    None => Json::Null,
                },
            ),
        );
        members.push(
            (
                owned("hand_id"),
                match self.hand_id {
                    Some(id) => id_json(id.0),
                    None => Json::Null,
                },
            ),
        );
        members.push((owned("seat_id"), optional_number_json(seat_id)));
        members.push((owned("payload"), self.payload.clone()));
        let value = object(members);
        assert(value@->Object_0 =~= self.tree()->Object_0);
        let body = chars_of(value.to_text().as_str());
        assert(body@.len() > 0) by {
            reveal_strlit("{");
            reveal_strlit("}");
        }
        let rest = part(&body, 1, body.len());
        assert(rest@ =~= json_text(self.tree()).skip(1));
        let mut text = String::from_str("{\"ts_unix_ms\":");
        text.append(decimal_text(self.ts_unix_ms).as_str());
        text.append(",");
        text.append(text_of(&rest).as_str());
        text.append("\n");
        text
    }
}

/// The whole milliseconds since the beginning of 1970; none before it.
pub fn unix_ms(moment: Timestamp) -> (ms: u128)
    ensures
        ms == (if moment.instant() < 0 {
            0
        } else {
            moment.instant() / 1_000_000
        }),
        ms < (LAST_SECOND + 1) * 1000,
{
    let seconds: i64 = moment.seconds();
    let nanos: u32 = moment.nanos();
    if seconds < 0 {
        assert(moment.instant() < 0);
        0
    } else {
        let whole: u128 = (seconds as u128) * 1000;
        let rest: u128 = (nanos / 1_000_000) as u128;
        assert(moment.instant() / 1_000_000 == seconds * 1000 + nanos as int / 1_000_000);
        whole + rest
    }
}

/// The whole milliseconds since the beginning of 1970, now.
pub fn now_unix_ms() -> (ms: u128)
    ensures
        ms < (LAST_SECOND + 1) * 1000,
{
    unix_ms(Timestamp::now())
}

} // verus!
