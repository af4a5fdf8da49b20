//! The rooms, who sits in them, and the accounts that they pay from.
use vstd::prelude::*;
use vstd::string::StringExecFns;

use crate::domain::action::PlayerAction;
use crate::domain::game::SeatId;
use crate::domain::ids::{is_time_ordered, RoomId, TraceId};
use crate::domain::time::Timestamp;
use crate::evm::{
    address_of, evm_address_from_secp256k1_verifying_key, hex_of, hex_reads_back, is_secret,
    public_point, EvmSigningKey,
};
use crate::ledger::TxBindingInsert;
use crate::rpc::{GameActRequest, RoomSummary};
use crate::server::wallet::{account_fault, RoomChainAccount};
use crate::table::{lookup, upsert_is_read_back, upserted, Key, Table};
use crate::text::{decimal, decimal_text, owned};

verus! {

/// Why a room cannot do what it is asked.
#[derive(Debug, PartialEq, Eq)]
pub enum RoomServiceError {
    RoomNotFound,
    Upstream(String),
}

/// A seat of a room.
#[derive(Debug, Clone, Copy, PartialEq, Eq, Structural)]
pub struct RoomSeat {
    pub room_id: RoomId,
    pub seat_id: SeatId,
}

impl View for RoomSeat {
    type V = RoomSeat;

    open spec fn view(&self) -> RoomSeat {
        *self
    }
}

impl Key for RoomSeat {
    fn is(&self, other: &RoomSeat) -> (same: bool) {
        *self == *other
    }
}

/// All rooms.
#[derive(Debug)]
pub struct AppRoomService {
    rooms: Vec<RoomId>,
    joined_seats: Vec<RoomSeat>,
    bound_addresses: Table<RoomSeat, String>,
    room_chain_accounts: Table<u128, RoomChainAccount>,
}

/// The account of a secret key: its address and its digits.
pub open spec fn is_account_of(account: RoomChainAccount, secret: Seq<u8>) -> bool {
    &&& is_secret(secret)
    &&& account.address@ == address_of(public_point(secret))
    &&& account.private_key_hex@ == hex_of(secret)
}

/// The rooms with one more at the end, unless it is there.
pub open spec fn with_room(rooms: Seq<RoomId>, room_id: RoomId) -> Seq<RoomId> {
    if rooms.contains(room_id) {
        rooms
    } else {
        rooms.push(room_id)
    }
}

/// Whether `after` are the accounts `before` with one for this room: the one that it had, or a
/// new one.
pub open spec fn accounts_with(
    before: Seq<(u128, RoomChainAccount)>,
    after: Seq<(u128, RoomChainAccount)>,
    room_id: RoomId,
) -> bool {
    match lookup(before, room_id.0) {
        Some(_) => after == before,
        None => exists|account: RoomChainAccount, secret: Seq<u8>| #[trigger]
            is_account_of(account, secret) && after == upserted(before, room_id.0, account),
    }
}

/// Whether an account is that of some secret key.
pub open spec fn can_sign(account: RoomChainAccount) -> bool {
    exists|secret: Seq<u8>| is_account_of(account, secret)
}

/// Whether a room has an account that it can sign with.
pub open spec fn has_account(accounts: Seq<(u128, RoomChainAccount)>, room_id: RoomId) -> bool {
    match lookup(accounts, room_id.0) {
        Some(account) => can_sign(account),
        None => false,
    }
}

/// Whether every account can sign.
pub open spec fn all_can_sign(accounts: Seq<(u128, RoomChainAccount)>) -> bool {
    forall|room_id: RoomId|
        lookup(accounts, room_id.0) is Some ==> #[trigger] has_account(accounts, room_id)
}

/// Whether every room has an account that it can sign with.
pub open spec fn all_have_accounts(
    rooms: Seq<RoomId>,
    accounts: Seq<(u128, RoomChainAccount)>,
) -> bool {
    forall|i: int| 0 <= i < rooms.len() ==> has_account(accounts, #[trigger] rooms[i])
}

/// One more room with an account leaves every room with its account.
proof fn lemma_room_with_account(
    rooms: Seq<RoomId>,
    before: Seq<(u128, RoomChainAccount)>,
    after: Seq<(u128, RoomChainAccount)>,
    room_id: RoomId,
)
    requires
        all_can_sign(before),
        all_have_accounts(rooms, before),
        accounts_with(before, after, room_id),
    ensures
        all_can_sign(after),
        all_have_accounts(rooms.push(room_id), after),
        has_account(after, room_id),
{
    if lookup(before, room_id.0) is Some {
        assert(has_account(before, room_id));
    } else {
        let (account, secret) = choose|account: RoomChainAccount, secret: Seq<u8>| #[trigger]
            is_account_of(account, secret) && after == upserted(before, room_id.0, account);
        upsert_is_read_back(before, room_id.0, account, room_id.0);
        assert(can_sign(account));
        assert(has_account(after, room_id));
        assert forall|other: RoomId| lookup(after, other.0) is Some implies #[trigger] has_account(
            after,
            other,
        ) by {
            upsert_is_read_back(before, room_id.0, account, other.0);
            assert(other.0 != room_id.0 ==> has_account(before, other));
        }
        assert forall|i: int| 0 <= i < rooms.len() implies has_account(
            after,
            #[trigger] rooms[i],
        ) by {
            upsert_is_read_back(before, room_id.0, account, rooms[i].0);
        }
    }
    assert forall|i: int| 0 <= i < rooms.push(room_id).len() implies has_account(
        after,
        #[trigger] rooms.push(room_id)[i],
    ) by {
        if i < rooms.len() {
            assert(rooms.push(room_id)[i] == rooms[i]);
        }
    }
}

impl AppRoomService {
    /// Every room that is open has an account, and every account can sign.
    #[verifier::type_invariant]
    spec fn is_sound(self) -> bool {
        &&& all_can_sign(self.room_chain_accounts.rows())
        &&& all_have_accounts(self.rooms@, self.room_chain_accounts.rows())
    }

    /// The rooms, in the order in which they were opened.
    pub closed spec fn spec_rooms(self) -> Seq<RoomId> {
        self.rooms@
    }

    /// The seats that are taken.
    pub closed spec fn joined(self) -> Set<RoomSeat> {
        self.joined_seats@.to_set()
    }

    pub closed spec fn addresses(self) -> Seq<(RoomSeat, String)> {
        self.bound_addresses.rows()
    }

    pub closed spec fn accounts(self) -> Seq<(u128, RoomChainAccount)> {
        self.room_chain_accounts.rows()
    }

    pub fn new() -> (service: AppRoomService)
        ensures
            service.spec_rooms().len() == 0,
            service.joined() == Set::<RoomSeat>::empty(),
            service.addresses().len() == 0,
            service.accounts().len() == 0,
    {
        let service = AppRoomService {
            rooms: Vec::new(),
            joined_seats: Vec::new(),
            bound_addresses: Table::new(),
            room_chain_accounts: Table::new(),
        };
        assert(service.joined() =~= Set::<RoomSeat>::empty());
        service
    }

    fn has_room(&self, room_id: RoomId) -> (has: bool)
        ensures
            has == self.spec_rooms().contains(room_id),
    {
        let mut i: usize = 0;
        while i < self.rooms.len()
            invariant
                i <= self.rooms.len(),
                forall|j: int| 0 <= j < i ==> self.rooms@[j] != room_id,
            decreases self.rooms.len() - i,
        {
            if self.rooms[i] == room_id {
                assert(self.rooms@[i as int] == room_id);
                return true;
            }
            i = i + 1;
        }
        false
    }

    /// Opens a room with an account to pay from, unless it is open. Says whether the room is
    /// new.
    pub fn ensure_room(&mut self, room_id: RoomId) -> (is_new: bool)
        ensures
            is_new == !old(self).spec_rooms().contains(room_id),
            final(self).spec_rooms() == with_room(old(self).spec_rooms(), room_id),
            final(self).joined() == old(self).joined(),
            final(self).addresses() == old(self).addresses(),
            is_new ==> accounts_with(old(self).accounts(), final(self).accounts(), room_id),
            !is_new ==> final(self).accounts() == old(self).accounts(),
            has_account(final(self).accounts(), room_id),
    {
        proof {
            use_type_invariant(&*self);
        }
        if self.has_room(room_id) {
            return false;
        }
        let mut rooms: Vec<RoomId> = Vec::new();
        let mut accounts: Table<u128, RoomChainAccount> = Table::new();
        std::mem::swap(&mut rooms, &mut self.rooms);
        std::mem::swap(&mut accounts, &mut self.room_chain_accounts);
        let ghost before = accounts.rows();
        Self::ensure_room_chain_account(&mut accounts, room_id);
        proof {
            lemma_room_with_account(rooms@, before, accounts.rows(), room_id);
        }
        rooms.push(room_id);
        self.room_chain_accounts = accounts;
        self.rooms = rooms;
        true
    }

    /// Gives a room an account to pay from, unless it has one.
    fn ensure_room_chain_account(accounts: &mut Table<u128, RoomChainAccount>, room_id: RoomId)
        ensures
            accounts_with(old(accounts).rows(), final(accounts).rows(), room_id),
    {
        if accounts.get(&room_id.0).is_some() {
            return;
        }
        let key = EvmSigningKey::random();
        let account = RoomChainAccount {
            address: evm_address_from_secp256k1_verifying_key(&key.verifying_key()),
            private_key_hex: key.to_hex(),
        };
        assert(is_account_of(account, key.secret()));
        accounts.upsert(room_id.0, account);
    }

    /// Tests whether a room is open.
    pub fn get_room(&self, room_id: RoomId) -> (result: Result<(), RoomServiceError>)
        ensures
            result == (if self.spec_rooms().contains(room_id) {
                Ok::<(), RoomServiceError>(())
            } else {
                Err::<(), RoomServiceError>(RoomServiceError::RoomNotFound)
            }),
    {
        if self.has_room(room_id) {
            Ok(())
        } else {
            Err(RoomServiceError::RoomNotFound)
        }
    }

    /// The rooms, in the order in which they were opened.
    pub fn room_ids(&self) -> (rooms: Vec<RoomId>)
        ensures
            rooms@ == self.spec_rooms(),
    {
        let mut rooms: Vec<RoomId> = Vec::new();
        let mut i: usize = 0;
        while i < self.rooms.len()
            invariant
                i <= self.rooms.len(),
                rooms@ == self.rooms@.take(i as int),
            decreases self.rooms.len() - i,
        {
            rooms.push(self.rooms[i]);
            i = i + 1;
            assert(self.rooms@.take(i as int) =~= self.rooms@.take(i - 1).push(
                self.rooms@[i - 1],
            ));
        }
        assert(rooms@ =~= self.rooms@);
        rooms
    }

    /// The address that a room pays from.
    pub fn room_chain_address(&self, room_id: RoomId) -> (address: Option<String>)
        ensures
            match lookup(self.accounts(), room_id.0) {
                Some(account) => address == Some(account.address),
                None => address is None,
            },
            self.spec_rooms().contains(room_id) ==> address is Some,
    {
        proof {
            use_type_invariant(self);
        }
        match self.room_chain_accounts.get(&room_id.0) {
            Some(account) => Some(account.address.clone()),
            None => None,
        }
    }

    /// The account that a room pays from.
    pub fn room_chain_signer(&self, room_id: RoomId) -> (account: Option<RoomChainAccount>)
        ensures
            account == lookup(self.accounts(), room_id.0),
            self.spec_rooms().contains(room_id) ==> account_fault(room_id, account) is None,
    {
        proof {
            use_type_invariant(self);
            if self.spec_rooms().contains(room_id) {
                let account = lookup(self.accounts(), room_id.0)->0;
                let secret = choose|secret: Seq<u8>| #[trigger] is_account_of(account, secret);
                new_rooms_can_sign(room_id, account, secret);
            }
        }
        match self.room_chain_accounts.get(&room_id.0) {
            Some(account) => Some(
                RoomChainAccount {
                    address: account.address.clone(),
                    private_key_hex: account.private_key_hex.clone(),
                },
            ),
            None => None,
        }
    }

    /// Opens a room, a new one where none is named, and tells of it.
    pub fn create_room(&mut self, room_id: Option<RoomId>) -> (summary: RoomSummary)
        ensures
            match room_id {
                Some(id) => summary.room_id == id,
                None => is_time_ordered(summary.room_id.0),
            },
            summary.status@ == "active"@,
            final(self).spec_rooms() == with_room(old(self).spec_rooms(), summary.room_id),
            final(self).joined() == old(self).joined(),
            final(self).addresses() == old(self).addresses(),
            old(self).spec_rooms().contains(summary.room_id) ==> final(self).accounts() == old(
                self,
            ).accounts(),
            !old(self).spec_rooms().contains(summary.room_id) ==> accounts_with(
                old(self).accounts(),
                final(self).accounts(),
                summary.room_id,
            ),
            has_account(final(self).accounts(), summary.room_id),
            summary.chain_address == Some(
                lookup(final(self).accounts(), summary.room_id.0)->0.address,
            ),
    {
        let id = match room_id {
            Some(id) => id,
            None => RoomId::new(),
        };
        self.ensure_room(id);
        RoomSummary {
            room_id: id,
            status: owned("active"),
            chain_address: self.room_chain_address(id),
        }
    }

    /// Whether a summary tells of a room that has an account.
    pub open spec fn summarizes(self, room_id: RoomId, summary: RoomSummary) -> bool {
        &&& summary.room_id == room_id
        &&& summary.status@ == "active"@
        &&& has_account(self.accounts(), room_id)
        &&& summary.chain_address == Some(lookup(self.accounts(), room_id.0)->0.address)
    }

    /// Tells of all rooms.
    pub fn list_rooms(&self) -> (summaries: Vec<RoomSummary>)
        ensures
            summaries@.len() == self.spec_rooms().len(),
            forall|i: int|
                0 <= i < summaries@.len() ==> self.summarizes(
                    self.spec_rooms()[i],
                    #[trigger] summaries@[i],
                ),
    {
        proof {
            use_type_invariant(self);
        }
        let mut summaries: Vec<RoomSummary> = Vec::new();
        let mut i: usize = 0;
        while i < self.rooms.len()
            invariant
                i <= self.rooms.len(),
                summaries@.len() == i,
                all_have_accounts(self.spec_rooms(), self.accounts()),
                forall|k: int|
                    0 <= k < i ==> self.summarizes(self.spec_rooms()[k], #[trigger] summaries@[k]),
            decreases self.rooms.len() - i,
        {
            let room_id = self.rooms[i];
            summaries.push(
                RoomSummary {
                    room_id: room_id,
                    status: owned("active"),
                    chain_address: self.room_chain_address(room_id),
                },
            );
            i = i + 1;
        }
        summaries
    }

    /// Notes that a seat is taken.
    pub fn note_joined(&mut self, room_id: RoomId, seat_id: SeatId)
        ensures
            final(self).joined() == old(self).joined().insert(
                RoomSeat { room_id: room_id, seat_id: seat_id },
            ),
            final(self).spec_rooms() == old(self).spec_rooms(),
            final(self).addresses() == old(self).addresses(),
            final(self).accounts() == old(self).accounts(),
    {
        proof {
            use_type_invariant(&*self);
        }
        let seat = RoomSeat { room_id: room_id, seat_id: seat_id };
        let mut joined_seats: Vec<RoomSeat> = Vec::new();
        std::mem::swap(&mut joined_seats, &mut self.joined_seats);
        proof {
            joined_seats@.lemma_push_to_set_commute(seat);
        }
        joined_seats.push(seat);
        self.joined_seats = joined_seats;
    }

    /// What is said to a seat that was not taken.
    pub open spec fn must_join(seat_id: SeatId) -> Seq<char> {
        "seat "@ + decimal(seat_id as nat) + " must call room.join before bind/ready"@
    }

    /// Tests whether a seat is taken.
    pub fn ensure_joined(&self, room_id: RoomId, seat_id: SeatId) -> (result: Result<
        (),
        RoomServiceError,
    >)
        ensures
            if self.joined().contains(RoomSeat { room_id: room_id, seat_id: seat_id }) {
                result is Ok
            } else {
                result is Err && result->Err_0 is Upstream && result->Err_0->Upstream_0@
                    == Self::must_join(seat_id)
            },
    {
        let seat = RoomSeat { room_id: room_id, seat_id: seat_id };
        let mut i: usize = 0;
        while i < self.joined_seats.len()
            invariant
                i <= self.joined_seats.len(),
                seat == (RoomSeat { room_id: room_id, seat_id: seat_id }),
                forall|j: int| 0 <= j < i ==> self.joined_seats@[j] != seat,
            decreases self.joined_seats.len() - i,
        {
            if self.joined_seats[i] == seat {
                assert(self.joined_seats@.contains(seat));
                return Ok(());
            }
            i = i + 1;
        }
        assert(!self.joined_seats@.contains(seat));
        let mut text = owned("seat ");
        text.append(decimal_text(seat_id as u128).as_str());
        text.append(" must call room.join before bind/ready");
        Err(RoomServiceError::Upstream(text))
    }

    /// Whether a seat may say that it is ready or bind its keys: it must be taken, and its room
    /// open.
    pub open spec fn admits(
        self,
        room_id: RoomId,
        seat_id: SeatId,
        result: Result<(), RoomServiceError>,
    ) -> bool {
        if !self.joined().contains(RoomSeat { room_id: room_id, seat_id: seat_id }) {
            result is Err && result->Err_0 is Upstream && result->Err_0->Upstream_0@
                == Self::must_join(seat_id)
        } else if !self.spec_rooms().contains(room_id) {
            result == Err::<(), RoomServiceError>(RoomServiceError::RoomNotFound)
        } else {
            result is Ok
        }
    }

    /// Tests whether a seat may say that it is ready or bind its keys.
    pub fn check_seat(&self, room_id: RoomId, seat_id: SeatId) -> (result: Result<(), RoomServiceError>)
        ensures
            self.admits(room_id, seat_id, result),
    {
        match self.ensure_joined(room_id, seat_id) {
            Ok(_) => self.get_room(room_id),
            Err(error) => Err(error),
        }
    }

    /// Ties a seat to its address, in place of the one it had.
    pub fn bind_address(&mut self, room_id: RoomId, seat_id: SeatId, seat_address: String) -> (result:
        Result<(), RoomServiceError>)
        ensures
            old(self).admits(room_id, seat_id, result),
            final(self).addresses() == (if result is Ok {
                upserted(
                    old(self).addresses(),
                    RoomSeat { room_id: room_id, seat_id: seat_id },
                    seat_address,
                )
            } else {
                old(self).addresses()
            }),
            final(self).spec_rooms() == old(self).spec_rooms(),
            final(self).joined() == old(self).joined(),
            final(self).accounts() == old(self).accounts(),
    {
        proof {
            use_type_invariant(&*self);
        }
        match self.check_seat(room_id, seat_id) {
            Ok(_) => {
                let mut addresses: Table<RoomSeat, String> = Table::new();
                std::mem::swap(&mut addresses, &mut self.bound_addresses);
                addresses.upsert(RoomSeat { room_id: room_id, seat_id: seat_id }, seat_address);
                self.bound_addresses = addresses;
                Ok(())
            },
            Err(error) => Err(error),
        }
    }

    /// The address that a seat is tied to.
    pub fn bound_seat_address(&self, room_id: RoomId, seat_id: SeatId) -> (address: Option<String>)
        ensures
            address == lookup(
                self.addresses(),
                RoomSeat { room_id: room_id, seat_id: seat_id },
            ),
    {
        match self.bound_addresses.get(&RoomSeat { room_id: room_id, seat_id: seat_id }) {
            Some(address) => Some(address.clone()),
            None => None,
        }
    }

    /// The addresses that the seats of a room are tied to, from the lowest seat up.
    pub fn bound_seat_addresses(&self, room_id: RoomId) -> (addresses: Vec<(SeatId, String)>)
        ensures
            addresses@ == bound_below(self.addresses(), room_id, 256),
    {
        let mut addresses: Vec<(SeatId, String)> = Vec::new();
        let mut next: u16 = 0;
        while next < 256
            invariant
                next <= 256,
                addresses@ == bound_below(self.addresses(), room_id, next as nat),
            decreases 256 - next,
        {
            let seat_id: SeatId = next as u8;
            match self.bound_seat_address(room_id, seat_id) {
                Some(address) => {
                    addresses.push((seat_id, address));
                },
                None => {},
            }
            next = next + 1;
        }
        addresses
    }
}

/// The addresses that the seats below `bound` of a room are tied to.
pub open spec fn bound_below(rows: Seq<(RoomSeat, String)>, room_id: RoomId, bound: nat) -> Seq<
    (SeatId, String),
>
    decreases bound,
{
    if bound == 0 {
        Seq::empty()
    } else {
        let front = bound_below(rows, room_id, (bound - 1) as nat);
        let seat_id = (bound - 1) as u8;
        match lookup(rows, RoomSeat { room_id: room_id, seat_id: seat_id }) {
            Some(address) => front.push((seat_id, address)),
            None => front,
        }
    }
}

/// A room that was opened can sign with its account.
pub proof fn new_rooms_can_sign(room_id: RoomId, account: RoomChainAccount, secret: Seq<u8>)
    requires
        is_account_of(account, secret),
    ensures
        account_fault(room_id, Some(account)) is None,
{
    hex_reads_back(secret);
}

/// What is to be done with an action that was asked for.
#[derive(Debug, PartialEq, Eq)]
pub enum ActStep {
    /// Tie the payment to the action, then let the action wait for the payment.
    BindAndQueue { binding: TxBindingInsert, action: PlayerAction },
    /// Take the action now.
    Act(PlayerAction),
}

/// What is to be done with an action that was asked for: one that names a payment waits for
/// it, any other is taken at once.
pub fn act_step(request: &GameActRequest, action: PlayerAction) -> (step: ActStep)
    ensures
        match request.tx_hash {
            Some(tx_hash) => {
                &&& step is BindAndQueue
                &&& step->action == action
                &&& step->binding.tx_hash == tx_hash
                &&& step->binding.room_id == request.room_id
                &&& step->binding.hand_id == request.hand_id
                &&& step->binding.seat_id == request.seat_id
                &&& step->binding.action_seq == request.action_seq
                &&& step->binding.expected_amount == action.amount
                &&& step->binding.binding_status@ == "submitted"@
                &&& is_time_ordered(step->binding.trace_id.0)
            },
            None => step == ActStep::Act(action),
        },
{
    match &request.tx_hash {
        Some(tx_hash) => ActStep::BindAndQueue {
            binding: TxBindingInsert {
                tx_hash: tx_hash.clone(),
                room_id: request.room_id,
                hand_id: request.hand_id,
                seat_id: request.seat_id,
                action_seq: request.action_seq,
                expected_amount: action.amount,
                binding_status: owned("submitted"),
                created_at: Timestamp::now(),
                trace_id: TraceId::new(),
            },
            action: action,
        },
        None => ActStep::Act(action),
    }
}

/// What the database is told of a room.
#[derive(Debug, PartialEq, Eq)]
pub struct RoomRow {
    pub room_id: u128,
    pub room_status: &'static str,
    pub dealer_address: String,
    pub small_blind: &'static str,
    pub big_blind: &'static str,
    pub min_buy_in: &'static str,
    pub max_players: i16,
    pub step_timeout_ms: i64,
    pub rake_bps: i32,
}

/// What the database is told of a room: the stakes are the same in every room.
pub fn room_row(room_id: RoomId, dealer_address: Option<String>) -> (row: RoomRow)
    ensures
        row.room_id == room_id.0,
        row.room_status@ == "active"@,
        row.dealer_address@ == (match dealer_address {
            Some(address) => address@,
            None => "unknown"@,
        }),
        row.small_blind@ == "100000000000000"@,
        row.big_blind@ == "200000000000000"@,
        row.min_buy_in@ == "1000000000000000"@,
        row.max_players == 9,
        row.step_timeout_ms == 360_000,
        row.rake_bps == 300,
{
    RoomRow {
        room_id: room_id.0,
        room_status: "active",
        dealer_address: match dealer_address {
            Some(address) => address,
            None => owned("unknown"),
        },
        small_blind: "100000000000000",
        big_blind: "200000000000000",
        min_buy_in: "1000000000000000",
        max_players: 9,
        step_timeout_ms: 360_000,
        rake_bps: 300,
    }
}

} // verus!
