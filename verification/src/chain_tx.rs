//! Transactions of the chain as bytes.
use vstd::arithmetic::power::pow;
use vstd::prelude::*;
use vstd::string::StringExecFns;
use vstd::utf8::encode_utf8;

use crate::domain::ids::{HandId, RoomId};
use crate::evm::{
    bytes_from, bytes_of_hex, bytes_until, hex_decode, hex_encode, hex_error, hex_of, is_hex, keccak,
    keccak256, signed_digest, EvmSigningKey,
};
use crate::text::{
    chars_of, digit_value, owned, strip_prefix, text_of, trim, trimmed, without_prefix,
};

verus! {

/// The bytes of a number, the highest first, without zeros in front.
pub open spec fn number_bytes(n: nat) -> Seq<u8>
    decreases n,
{
    if n == 0 {
        Seq::empty()
    } else {
        number_bytes(n / 256).push((n % 256) as u8)
    }
}

/// The number that bytes stand for, the highest first.
pub open spec fn bytes_number(bytes: Seq<u8>) -> nat
    decreases bytes.len(),
{
    if bytes.len() == 0 {
        0
    } else {
        bytes_number(bytes.drop_last()) * 256 + bytes.last() as nat
    }
}

/// The bytes without the zeros in front.
pub open spec fn without_zeros(bytes: Seq<u8>) -> Seq<u8>
    decreases bytes.len(),
{
    if bytes.len() > 0 && bytes[0] == 0 {
        without_zeros(bytes.skip(1))
    } else {
        bytes
    }
}

/// The bytes of a number stand for it, and the first of them is not zero.
pub proof fn number_bytes_read_back(n: nat)
    ensures
        bytes_number(number_bytes(n)) == n,
        n > 0 ==> number_bytes(n).len() > 0 && number_bytes(n)[0] != 0,
    decreases n,
{
    if n > 0 {
        number_bytes_read_back(n / 256);
        assert(number_bytes(n).drop_last() =~= number_bytes(n / 256));
    }
}

proof fn lemma_number_bytes_len(n: nat, limit: nat)
    requires
        n < pow(256, limit),
    ensures
        number_bytes(n).len() <= limit,
    decreases limit,
{
    reveal(pow);
    if limit == 0 {
        assert(pow(256, 0) == 1);
    } else if n > 0 {
        assert(pow(256, limit) == 256 * pow(256, (limit - 1) as nat));
        lemma_number_bytes_len(n / 256, (limit - 1) as nat);
    }
}

/// Writes a number in as few bytes as it takes.
fn bytes_of_number(n: u128) -> (bytes: Vec<u8>)
    ensures
        bytes@ == number_bytes(n as nat),
        bytes@.len() <= 16,
    decreases n,
{
    proof {
        reveal_with_fuel(pow, 17);
        assert(pow(256, 16) == 0x1_0000_0000_0000_0000_0000_0000_0000_0000);
        lemma_number_bytes_len(n as nat, 16);
    }
    if n == 0 {
        Vec::new()
    } else {
        let mut bytes = bytes_of_number(n / 256);
        bytes.push((n % 256) as u8);
        bytes
    }
}

/// The bytes without the zeros in front.
fn strip_zeros(bytes: &Vec<u8>) -> (rest: Vec<u8>)
    ensures
        rest@ == without_zeros(bytes@),
        rest@.len() <= bytes@.len(),
{
    let mut from: usize = 0;
    assert(bytes@.skip(0) =~= bytes@);
    while from < bytes.len() && bytes[from] == 0
        invariant
            from <= bytes.len(),
            without_zeros(bytes@) == without_zeros(bytes@.skip(from as int)),
        decreases bytes.len() - from,
    {
        assert(bytes@.skip(from as int).skip(1) =~= bytes@.skip(from + 1));
        from = from + 1;
    }
    bytes_from(bytes, from)
}

// How values are packed for the chain.

/// A text of bytes with its length in front: `short` for the packed length of a short one,
/// `long` for that of the length of a long one.
pub open spec fn packed(bytes: Seq<u8>, short: int, long: int) -> Seq<u8> {
    if bytes.len() <= 55 {
        seq![(short + bytes.len()) as u8] + bytes
    } else {
        seq![(long + number_bytes(bytes.len()).len()) as u8] + number_bytes(bytes.len()) + bytes
    }
}

/// One item: a small byte is its own packing.
pub open spec fn packed_item(bytes: Seq<u8>) -> Seq<u8> {
    if bytes.len() == 1 && bytes[0] < 0x80 {
        bytes
    } else {
        packed(bytes, 0x80, 0xb7)
    }
}

/// The first `count` items, one behind the other.
pub open spec fn packed_items(items: Seq<Seq<u8>>, count: nat) -> Seq<u8>
    decreases count,
{
    if count == 0 {
        Seq::empty()
    } else {
        packed_items(items, (count - 1) as nat) + packed_item(items[count - 1])
    }
}

/// A list of items.
pub open spec fn packed_list(items: Seq<Seq<u8>>) -> Seq<u8> {
    packed(packed_items(items, items.len()), 0xc0, 0xf7)
}

/// The items as mathematical values.
pub open spec fn items_of(items: Seq<Vec<u8>>) -> Seq<Seq<u8>> {
    items.map_values(|item: Vec<u8>| item@)
}

/// Packs a list of items with `rlp::encode_list`: each item with its length in front, and the
/// length of all in front of that.
#[verifier::external_body]
fn rlp_list(items: &Vec<Vec<u8>>) -> (bytes: Vec<u8>)
    requires
        packed_items(items_of(items@), items@.len()).len() <= u32::MAX,
    ensures
        bytes@ == packed_list(items_of(items@)),
{
    rlp::encode_list::<Vec<u8>, Vec<u8>>(items).to_vec()
}

/// A number in a word of thirty-two bytes.
pub open spec fn word(n: nat) -> Seq<u8> {
    Seq::new(32, |i: int| ((n as int / pow(256, (31 - i) as nat)) % 256) as u8)
}

/// An address in a word of thirty-two bytes.
pub open spec fn address_word(address: Seq<u8>) -> Seq<u8> {
    Seq::new(12, |i: int| 0u8) + address
}

/// The first `count` addresses, a word for each.
pub open spec fn address_words(addresses: Seq<Seq<u8>>, count: nat) -> Seq<u8>
    decreases count,
{
    if count == 0 {
        Seq::empty()
    } else {
        address_words(addresses, (count - 1) as nat) + address_word(addresses[count - 1])
    }
}

/// The first `count` amounts, a word for each.
pub open spec fn amount_words(amounts: Seq<u128>, count: nat) -> Seq<u8>
    decreases count,
{
    if count == 0 {
        Seq::empty()
    } else {
        amount_words(amounts, (count - 1) as nat) + word(amounts[count - 1] as nat)
    }
}

/// Two lists and an identifier as a contract takes them: where each list begins, counted in
/// bytes, the identifier, and then the lists, each behind its length.
pub open spec fn batch_arguments(addresses: Seq<Seq<u8>>, amounts: Seq<u128>, id: Seq<u8>) -> Seq<u8> {
    word(96) + word(128 + 32 * addresses.len()) + id + word(addresses.len()) + address_words(
        addresses,
        addresses.len(),
    ) + word(amounts.len()) + amount_words(amounts, amounts.len())
}

/// The most payments that one call can make.
pub const MAX_TRANSFERS: usize = 60_000_000;

/// Packs the arguments of a call with `ethabi::encode`: a list of addresses, a list of numbers
/// and thirty-two bytes.
#[verifier::external_body]
fn abi_arguments(addresses: &Vec<Vec<u8>>, amounts: &Vec<u128>, id: &Vec<u8>) -> (bytes: Vec<u8>)
    requires
        addresses@.len() <= MAX_TRANSFERS,
        amounts@.len() <= MAX_TRANSFERS,
        id@.len() == 32,
        forall|i: int| 0 <= i < addresses@.len() ==> (#[trigger] addresses@[i])@.len() == 20,
    ensures
        bytes@ == batch_arguments(items_of(addresses@), amounts@, id@),
{
    let to = addresses.iter().map(|a| ethabi::Token::Address(ethabi::Address::from_slice(a)));
    let values = amounts.iter().map(|n| ethabi::Token::Uint(ethabi::Uint::from(*n)));
    ethabi::encode(&[
        ethabi::Token::Array(to.collect()),
        ethabi::Token::Array(values.collect()),
        ethabi::Token::FixedBytes(id.clone()),
    ])
}

/// The four bytes that choose a function of a contract, for a function that takes a list of
/// addresses, a list of numbers and thirty-two bytes.
pub open spec fn function_selector(name: Seq<char>) -> Seq<u8> {
    keccak256(encode_utf8(name + "(address[],uint256[],bytes32)"@)).take(4)
}

/// Chooses a function of a contract with `ethabi::short_signature`: the first four bytes of the
/// Keccak-256 digest of the function's name and the types that it takes.
#[verifier::external_body]
fn abi_selector(name: &str) -> (selector: Vec<u8>)
    ensures
        selector@ == function_selector(name@),
        selector@.len() == 4,
{
    let list = |kind| ethabi::ParamType::Array(Box::new(kind));
    let addresses = list(ethabi::ParamType::Address);
    let numbers = list(ethabi::ParamType::Uint(256));
    let id = ethabi::ParamType::FixedBytes(32);
    ethabi::short_signature(name, &[addresses, numbers, id]).to_vec()
}

/// What `ethabi::Address::from_str` makes of a text: the twenty bytes of an address, or what is
/// wrong with the text.
pub uninterp spec fn parsed_address(text: Seq<char>) -> Result<Seq<u8>, Seq<char>>;

/// The digits of an address, without the prefix that it may have.
pub open spec fn address_digits(text: Seq<char>) -> Seq<char> {
    without_prefix(text, "0x"@)
}

/// Whether a text is an address as it is commonly written: forty hexadecimal digits, with or
/// without a prefix.
pub open spec fn is_plain_address(text: Seq<char>) -> bool {
    address_digits(text).len() == 40 && is_hex(address_digits(text))
}

/// Reads an address with `ethabi::Address::from_str`. The result is claimed to depend on the
/// text alone, an address to have twenty bytes, and forty hexadecimal digits, with or without
/// the prefix, to be read as the bytes that they spell.
#[verifier::external_body]
fn read_address(text: &str) -> (read: Result<Vec<u8>, String>)
    ensures
        read is Ok <==> parsed_address(text@) is Ok,
        read is Ok ==> read->Ok_0@ == parsed_address(text@)->Ok_0 && read->Ok_0@.len() == 20,
        read is Err ==> read->Err_0@ == parsed_address(text@)->Err_0,
        is_plain_address(text@) ==> read is Ok && read->Ok_0@ == bytes_of_hex(
            address_digits(text@),
        ),
{
    match text.parse::<ethabi::Address>() {
        Ok(address) => Ok(address.as_bytes().to_vec()),
        Err(error) => Err(error.to_string()),
    }
}

/// The sixteen bytes of an identifier, the highest first.
pub open spec fn id_bytes(id: u128) -> Seq<u8> {
    Seq::new(16, |i: int| ((id as int / pow(256, (15 - i) as nat)) % 256) as u8)
}

/// Adds the sixteen bytes of an identifier.
fn push_id(bytes: &mut Vec<u8>, id: u128)
    ensures
        final(bytes)@ == old(bytes)@ + id_bytes(id),
{
    let ghost before = bytes@;
    let mut divisor: u128 = 0x0100_0000_0000_0000_0000_0000_0000_0000;
    let mut i: usize = 0;
    proof {
        reveal_with_fuel(pow, 17);
        assert(pow(256, 15) == 0x0100_0000_0000_0000_0000_0000_0000_0000);
    }
    assert(before + id_bytes(id).take(0) =~= before);
    while i < 16
        invariant
            i <= 16,
            i < 16 ==> divisor == pow(256, (15 - i) as nat),
            divisor > 0,
            bytes@ == before + id_bytes(id).take(i as int),
        decreases 16 - i,
    {
        bytes.push(((id / divisor) % 256) as u8);
        assert(before + id_bytes(id).take(i + 1) =~= (before + id_bytes(id).take(i as int)).push(
            id_bytes(id)[i as int],
        ));
        if i < 15 {
            proof {
                reveal(pow);
                assert(pow(256, (15 - i) as nat) == 256 * pow(256, (14 - i) as nat));
                vstd::arithmetic::power::lemma_pow_positive(256, (14 - i) as nat);
            }
            divisor = divisor / 256;
        }
        i = i + 1;
    }
    assert(id_bytes(id).take(16) =~= id_bytes(id));
}

/// The identifier of the payments of a hand.
pub open spec fn batch_id(room_id: RoomId, hand_id: HandId) -> Seq<u8> {
    keccak256(id_bytes(room_id.0) + id_bytes(hand_id.0))
}

/// The identifier of the payments of a hand: the digest of the room's and the hand's.
pub fn build_settlement_batch_id(room_id: RoomId, hand_id: HandId) -> (id: Vec<u8>)
    ensures
        id@ == batch_id(room_id, hand_id),
        id@.len() == 32,
{
    let mut bytes: Vec<u8> = Vec::new();
    push_id(&mut bytes, room_id.0);
    push_id(&mut bytes, hand_id.0);
    assert(bytes@ =~= id_bytes(room_id.0) + id_bytes(hand_id.0));
    keccak(&bytes)
}

/// What is wrong with the text of an address, if anything is.
pub open spec fn address_fault(address: Seq<char>) -> Option<Seq<char>> {
    let raw = without_prefix(trimmed(address), "0x"@);
    if encode_utf8(raw).len() != 40 {
        Some("invalid address length: "@ + address)
    } else if !is_hex(raw) {
        Some("invalid address hex: "@ + hex_error(raw))
    } else {
        None
    }
}

/// The bytes of an address.
pub open spec fn address_bytes(address: Seq<char>) -> Seq<u8> {
    bytes_of_hex(without_prefix(trimmed(address), "0x"@))
}

/// Reads an address of forty hexadecimal digits.
pub fn parse_evm_address_20_bytes(address: &str) -> (bytes: Result<Vec<u8>, String>)
    ensures
        match address_fault(address@) {
            Some(fault) => bytes is Err && bytes->Err_0@ == fault,
            None => bytes is Ok && bytes->Ok_0@ == address_bytes(address@),
        },
        bytes is Ok ==> bytes->Ok_0@.len() == 20,
{
    let raw = text_of(&strip_prefix(&trim(&chars_of(address)), "0x"));
    let length: usize = raw.as_str().as_bytes_vec().len();
    if length != 40 {
        return Err(owned("invalid address length: ").concat(address));
    }
    match hex_decode(raw.as_str()) {
        Ok(bytes) => {
            proof {
                lemma_digits_take_a_byte_each(raw@);
            }
            Ok(bytes)
        },
        Err(detail) => Err(owned("invalid address hex: ").concat(detail.as_str())),
    }
}

/// Hexadecimal digits take a byte each.
proof fn lemma_digits_take_a_byte_each(text: Seq<char>)
    requires
        forall|i: int| 0 <= i < text.len() ==> digit_value(#[trigger] text[i], 16) is Some,
    ensures
        encode_utf8(text).len() == text.len(),
    decreases text.len(),
{
    if text.len() > 0 {
        let rest = text.drop_first();
        assert(digit_value(text[0], 16) is Some);
        assert forall|i: int| 0 <= i < rest.len() implies digit_value(
            #[trigger] rest[i],
            16,
        ) is Some by {
            assert(rest[i] == text[i + 1]);
        }
        lemma_digits_take_a_byte_each(rest);
    }
}

/// The gas that a transaction may use: less where it calls no contract.
pub open spec fn gas_limit(data: Seq<u8>) -> u64 {
    if data.len() == 0 {
        21_000
    } else {
        250_000
    }
}

/// What a transaction says, in order; the last three are the chain and two zeros before it is
/// signed, and the signature afterwards.
pub open spec fn tx_items(
    nonce: u64,
    gas_price: u128,
    to: Seq<u8>,
    value: u128,
    data: Seq<u8>,
    v: u64,
    r: Seq<u8>,
    s: Seq<u8>,
) -> Seq<Seq<u8>> {
    seq![
        number_bytes(nonce as nat),
        number_bytes(gas_price as nat),
        number_bytes(gas_limit(data) as nat),
        to,
        number_bytes(value as nat),
        data,
        number_bytes(v as nat),
        r,
        s,
    ]
}

/// The digest that is signed of a transaction.
pub open spec fn tx_digest(
    chain_id: u64,
    nonce: u64,
    gas_price: u128,
    to: Seq<u8>,
    value: u128,
    data: Seq<u8>,
) -> Seq<u8> {
    keccak256(
        packed_list(
            tx_items(nonce, gas_price, to, value, data, chain_id, Seq::empty(), Seq::empty()),
        ),
    )
}

/// A signed transaction.
pub open spec fn signed_tx(
    chain_id: u64,
    nonce: u64,
    gas_price: u128,
    to: Seq<u8>,
    value: u128,
    data: Seq<u8>,
    signature: Seq<u8>,
    id: u8,
) -> Seq<u8> {
    packed_list(
        tx_items(
            nonce,
            gas_price,
            to,
            value,
            data,
            (id + 35 + 2 * chain_id) as u64,
            without_zeros(signature.take(32)),
            without_zeros(signature.skip(32)),
        ),
    )
}

proof fn lemma_packed_item_len(bytes: Seq<u8>)
    requires
        bytes.len() <= u32::MAX,
    ensures
        packed_item(bytes).len() <= bytes.len() + 5,
{
    reveal_with_fuel(pow, 5);
    assert(pow(256, 4) == 0x1_0000_0000);
    lemma_number_bytes_len(bytes.len(), 4);
}

proof fn lemma_tx_len(items: Seq<Seq<u8>>, count: nat, sum: nat)
    requires
        count <= items.len(),
        forall|i: int| 0 <= i < items.len() ==> (#[trigger] items[i]).len() <= sum,
        sum <= 0x0800_0000,
        count <= 9,
    ensures
        packed_items(items, count).len() <= count * (sum + 5),
    decreases count,
{
    if count > 0 {
        lemma_tx_len(items, (count - 1) as nat, sum);
        lemma_packed_item_len(items[count - 1]);
        assert((count - 1) * (sum + 5) + (sum + 5) == count * (sum + 5)) by (nonlinear_arith);
    }
}

/// Packs a transaction.
fn pack_tx(
    nonce: u64,
    gas_price: u128,
    to: &Vec<u8>,
    value: u128,
    data: &Vec<u8>,
    v: u64,
    r: Vec<u8>,
    s: Vec<u8>,
) -> (bytes: Vec<u8>)
    requires
        data@.len() <= 0x0800_0000,
        to@.len() <= 32,
        r@.len() <= 32,
        s@.len() <= 32,
    ensures
        bytes@ == packed_list(tx_items(nonce, gas_price, to@, value, data@, v, r@, s@)),
{
    let limit: u64 = if data.len() == 0 {
        21_000
    } else {
        250_000
    };
    let mut items: Vec<Vec<u8>> = Vec::new();
    items.push(bytes_of_number(nonce as u128));
    items.push(bytes_of_number(gas_price));
    items.push(bytes_of_number(limit as u128));
    let to_copy = bytes_until(to, to.len());
    assert(to_copy@ =~= to@);
    items.push(to_copy);
    items.push(bytes_of_number(value));
    let data_copy = bytes_until(data, data.len());
    assert(data_copy@ =~= data@);
    items.push(data_copy);
    items.push(bytes_of_number(v as u128));
    items.push(r);
    items.push(s);
    assert(items_of(items@) =~= tx_items(nonce, gas_price, to@, value, data@, v, r@, s@));
    proof {
        let views = items_of(items@);
        let most: nat = if data@.len() >= 32 {
            data@.len()
        } else {
            32
        };
        assert forall|i: int| 0 <= i < views.len() implies (#[trigger] views[i]).len() <= most by {
            assert(views[i] == items@[i]@);
        }
        lemma_tx_len(views, 9, most);
        assert(9 * (most + 5) <= u32::MAX);
    }
    rlp_list(&items)
}

/// The longest data that a transaction can carry.
pub const MAX_DATA: usize = 0x0800_0000;

/// A transaction of the old kind, signed for its chain and written in hexadecimal digits.
pub fn build_legacy_raw_tx(
    chain_id: u64,
    nonce: u64,
    gas_price: u128,
    to_address: &str,
    value: u128,
    data: &Vec<u8>,
    signing_key: &EvmSigningKey,
) -> (raw: Result<String, String>)
    requires
        2 * chain_id + 38 <= u64::MAX,
        data@.len() <= MAX_DATA,
    ensures
        match address_fault(to_address@) {
            Some(fault) => raw is Err && raw->Err_0@ == fault,
            None => {
                let to = address_bytes(to_address@);
                match signed_digest(
                    signing_key.secret(),
                    tx_digest(chain_id, nonce, gas_price, to, value, data@),
                ) {
                    Err(detail) => raw is Err && raw->Err_0@ == "sign tx failed: "@ + detail,
                    Ok((signature, id)) => raw is Ok && raw->Ok_0@ == "0x"@ + hex_of(
                        signed_tx(
                            chain_id,
                            nonce,
                            gas_price,
                            to,
                            value,
                            data@,
                            signature,
                            id,
                        ),
                    ),
                }
            },
        },
{
    let to = match parse_evm_address_20_bytes(to_address) {
        Ok(bytes) => bytes,
        Err(error) => {
            return Err(error);
        },
    };
    let payload = pack_tx(
        nonce,
        gas_price,
        &to,
        value,
        data,
        chain_id,
        Vec::new(),
        Vec::new(),
    );
    let digest = keccak(&payload);
    assert(digest@ == tx_digest(chain_id, nonce, gas_price, to@, value, data@));
    match signing_key.sign_prehash(&digest) {
        Err(detail) => Err(owned("sign tx failed: ").concat(detail.as_str())),
        Ok((signature, id)) => {
            let r = strip_zeros(&bytes_until(&signature, 32));
            let s = strip_zeros(&bytes_from(&signature, 32));
            let v: u64 = id as u64 + 35 + 2 * chain_id;
            let raw = pack_tx(nonce, gas_price, &to, value, data, v, r, s);
            Ok(owned("0x").concat(hex_encode(&raw).as_str()))
        },
    }
}

/// A payment to an address.
#[derive(Debug, PartialEq, Eq)]
pub struct BatchTransfer {
    pub to_address: String,
    pub amount: u128,
}

/// The first of the first `count` addresses that cannot be read, and why.
pub open spec fn recipient_fault(transfers: Seq<BatchTransfer>, count: nat) -> Option<Seq<char>>
    decreases count,
{
    if count == 0 {
        None
    } else {
        match recipient_fault(transfers, (count - 1) as nat) {
            Some(fault) => Some(fault),
            None => match parsed_address(transfers[count - 1].to_address@) {
                Ok(_) => None,
                Err(detail) => Some(
                    "invalid recipient address "@ + transfers[count - 1].to_address@ + ": "@
                        + detail,
                ),
            },
        }
    }
}

/// The bytes of the addresses that are paid.
pub open spec fn recipients_of(transfers: Seq<BatchTransfer>) -> Seq<Seq<u8>> {
    transfers.map_values(|t: BatchTransfer| parsed_address(t.to_address@)->Ok_0)
}

/// Whether every address that is paid is written as it commonly is.
pub open spec fn pays_plain_addresses(transfers: Seq<BatchTransfer>) -> bool {
    forall|i: int|
        0 <= i < transfers.len() ==> is_plain_address((#[trigger] transfers[i]).to_address@)
}

/// The bytes that the digits of the addresses spell.
pub open spec fn spelled_recipients(transfers: Seq<BatchTransfer>) -> Seq<Seq<u8>> {
    transfers.map_values(|t: BatchTransfer| bytes_of_hex(address_digits(t.to_address@)))
}

/// The amounts that are paid.
pub open spec fn amounts_of(transfers: Seq<BatchTransfer>) -> Seq<u128> {
    transfers.map_values(|t: BatchTransfer| t.amount)
}

proof fn lemma_recipient_fault_stays(transfers: Seq<BatchTransfer>, count: nat, all: nat)
    requires
        count <= all,
        recipient_fault(transfers, count) is Some,
    ensures
        recipient_fault(transfers, all) == recipient_fault(transfers, count),
    decreases all - count,
{
    if count < all {
        lemma_recipient_fault_stays(transfers, count, (all - 1) as nat);
    }
}

proof fn lemma_words_len(addresses: Seq<Seq<u8>>, amounts: Seq<u128>, n: nat, m: nat)
    requires
        n <= addresses.len(),
        m <= amounts.len(),
        forall|i: int| 0 <= i < addresses.len() ==> (#[trigger] addresses[i]).len() == 20,
    ensures
        address_words(addresses, n).len() == 32 * n,
        amount_words(amounts, m).len() == 32 * m,
    decreases n + m,
{
    if n > 0 {
        lemma_words_len(addresses, amounts, (n - 1) as nat, m);
        assert(addresses[n - 1].len() == 20);
    } else if m > 0 {
        lemma_words_len(addresses, amounts, n, (m - 1) as nat);
    }
}

/// The call that pays a hand's winners at once.
pub fn encode_batch_settlement_call(
    room_id: RoomId,
    hand_id: HandId,
    transfers: &Vec<BatchTransfer>,
) -> (data: Result<Vec<u8>, String>)
    requires
        transfers@.len() <= MAX_TRANSFERS,
    ensures
        match recipient_fault(transfers@, transfers@.len()) {
            Some(fault) => data is Err && data->Err_0@ == fault,
            None => data is Ok && data->Ok_0@ == function_selector("settleBatch"@)
                + batch_arguments(
                recipients_of(transfers@),
                amounts_of(transfers@),
                batch_id(room_id, hand_id),
            ),
        },
        pays_plain_addresses(transfers@) ==> data is Ok && data->Ok_0@ == function_selector(
            "settleBatch"@,
        ) + batch_arguments(
            spelled_recipients(transfers@),
            amounts_of(transfers@),
            batch_id(room_id, hand_id),
        ),
        data is Ok ==> data->Ok_0@.len() == 164 + 64 * transfers@.len(),
{
    let mut addresses: Vec<Vec<u8>> = Vec::new();
    let mut amounts: Vec<u128> = Vec::new();
    let mut i: usize = 0;
    while i < transfers.len()
        invariant
            i <= transfers.len(),
            recipient_fault(transfers@, i as nat) is None,
            addresses@.len() == i,
            amounts@.len() == i,
            forall|k: int|
                0 <= k < i ==> (#[trigger] addresses@[k])@.len() == 20 && addresses@[k]@
                    == recipients_of(transfers@)[k] && (pays_plain_addresses(transfers@)
                    ==> addresses@[k]@ == spelled_recipients(transfers@)[k]),
            forall|k: int| 0 <= k < i ==> #[trigger] amounts@[k] == amounts_of(transfers@)[k],
        decreases transfers.len() - i,
    {
        let transfer = &transfers[i];
        match read_address(transfer.to_address.as_str()) {
            Ok(address) => {
                addresses.push(address);
                amounts.push(transfer.amount);
            },
            Err(detail) => {
                proof {
                    lemma_recipient_fault_stays(
                        transfers@,
                        (i + 1) as nat,
                        transfers@.len(),
                    );
                }
                let mut text = owned("invalid recipient address ");
                text.append(transfer.to_address.as_str());
                text.append(": ");
                text.append(detail.as_str());
                return Err(text);
            },
        }
        i = i + 1;
    }
    assert(items_of(addresses@) =~= recipients_of(transfers@));
    assert(pays_plain_addresses(transfers@) ==> items_of(addresses@) =~= spelled_recipients(
        transfers@,
    ));
    assert(amounts@ =~= amounts_of(transfers@));
    let id = build_settlement_batch_id(room_id, hand_id);
    let mut data = abi_selector("settleBatch");
    let mut arguments = abi_arguments(&addresses, &amounts, &id);
    proof {
        let to = items_of(addresses@);
        assert forall|i: int| 0 <= i < to.len() implies (#[trigger] to[i]).len() == 20 by {
            assert(to[i] == addresses@[i]@);
        }
        lemma_words_len(to, amounts@, to.len(), amounts@.len());
    }
    data.append(&mut arguments);
    Ok(data)
}

} // verus!
