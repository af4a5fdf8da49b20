//! What addresses, signatures and transactions mean, in terms of their bytes.
use vstd::arithmetic::power::pow;
use vstd::prelude::*;

use crate::chain_tx::{
    address_word, address_words, amount_words, amounts_of, batch_arguments, batch_id, bytes_number,
    function_selector, id_bytes, number_bytes, packed_list, recipient_fault, recipients_of,
    signed_tx, tx_digest, without_zeros, word, BatchTransfer,
};
use crate::chain_tx::{address_bytes, address_fault, parsed_address};
use crate::domain::ids::{HandId, RoomId};
use crate::evm::{
    address_of, bytes_of_hex, hex_error, hex_of, is_hex, is_signature, keccak256, recovered_point,
    signature_fault, signature_text, SignatureFault,
};
use crate::text::{decimal, digit_value, lowered, trimmed, without_prefix, without_prefixes};
use vstd::utf8::encode_utf8;

verus! {

/// Every byte is written in two digits, the upper half first.
pub proof fn bytes_are_written_in_two_digits(bytes: Seq<u8>, i: int)
    requires
        0 <= i < bytes.len(),
    ensures
        hex_of(bytes).len() == 2 * bytes.len(),
        digit_value(hex_of(bytes)[2 * i], 16) == Some(bytes[i] as int / 16),
        digit_value(hex_of(bytes)[2 * i + 1], 16) == Some(bytes[i] as int % 16),
        !('A' <= hex_of(bytes)[2 * i] && hex_of(bytes)[2 * i] <= 'Z'),
        !('A' <= hex_of(bytes)[2 * i + 1] && hex_of(bytes)[2 * i + 1] <= 'Z'),
{
    assert((2 * i) % 2 == 0 && (2 * i) / 2 == i);
    assert((2 * i + 1) % 2 == 1 && (2 * i + 1) / 2 == i);
}

/// Two digits are read as one byte, the first as its upper half; digits come in pairs, and each
/// is one of sixteen.
pub proof fn two_digits_are_read_as_a_byte(text: Seq<char>, i: int)
    requires
        is_hex(text),
        0 <= i < text.len() / 2,
    ensures
        text.len() % 2 == 0,
        bytes_of_hex(text).len() == text.len() / 2,
        digit_value(text[2 * i], 16) is Some,
        digit_value(text[2 * i + 1], 16) is Some,
        bytes_of_hex(text)[i] == 16 * digit_value(text[2 * i], 16)->0 + digit_value(
            text[2 * i + 1],
            16,
        )->0,
{
    let high = digit_value(text[2 * i], 16);
    let low = digit_value(text[2 * i + 1], 16);
    assert(high is Some && low is Some);
    assert(0 <= high->0 < 16 && 0 <= low->0 < 16);
}

/// The address of a public key is the last twenty bytes of the hash of its sixty-four bytes,
/// in digits behind the prefix.
pub proof fn addresses_are_the_end_of_a_hash(point: Seq<u8>)
    requires
        point.len() == 65,
        keccak256(point.subrange(1, 65)).len() == 32,
    ensures
        address_of(point).len() == 42,
        address_of(point)[0] == '0',
        address_of(point)[1] == 'x',
        address_of(point).skip(2) == hex_of(keccak256(point.subrange(1, 65)).subrange(12, 32)),
{
    reveal_strlit("0x");
    assert(point.skip(1) =~= point.subrange(1, 65));
    let hash = keccak256(point.skip(1));
    assert(hash.skip(12) =~= hash.subrange(12, 32));
    assert(address_of(point).skip(2) =~= hex_of(hash.skip(12)));
}

/// What is wrong with a signature, in plain terms. It is sixty-five bytes in digits; the last
/// byte, less twenty-seven where it is that large, says which key signed. The key that signed
/// the message, under the words that wallets put in front of it, must have the address, capital
/// or small.
pub proof fn signatures_in_plain_terms(address: Seq<char>, message: Seq<u8>, signature: Seq<char>)
    ensures
        ({
            let digits = without_prefixes(trimmed(signature), "0x"@);
            let bytes = bytes_of_hex(digits);
            let v = bytes[64] as int;
            let id = if v >= 27 {
                v - 27
            } else {
                v
            };
            let readable = is_hex(digits) && digits.len() == 130 && is_signature(bytes.take(64))
                && id <= 3;
            let signer = recovered_point(
                keccak256(
                    encode_utf8(
                        "\x19Ethereum Signed Message:\n"@ + decimal(message.len()),
                    ) + message,
                ),
                bytes.take(64),
                id as u8,
            );
            let fault = signature_fault(address, message, signature);
            &&& !readable ==> fault == Some(SignatureFault::Invalid)
            &&& readable && signer is None ==> fault == Some(SignatureFault::RecoveryFailed)
            &&& readable && signer is Some && lowered(trimmed(address_of(signer->0))) != lowered(
                trimmed(address),
            ) ==> fault == Some(SignatureFault::AddressMismatch)
            &&& readable && signer is Some && lowered(trimmed(address_of(signer->0))) == lowered(
                trimmed(address),
            ) ==> fault is None
        }),
{
}

/// A signature is written as its bytes and the number of its key, in digits behind the prefix.
pub proof fn signatures_end_with_their_key_number(signature: Seq<u8>, id: u8)
    requires
        signature.len() == 64,
    ensures
        signature_text(signature, id).len() == 132,
        signature_text(signature, id)[0] == '0',
        signature_text(signature, id)[1] == 'x',
        bytes_of_hex(signature_text(signature, id).skip(2)) == signature.push(id),
{
    reveal_strlit("0x");
    crate::evm::hex_reads_back(signature.push(id));
    assert(signature_text(signature, id).skip(2) =~= hex_of(signature.push(id)));
}

/// An address is twenty bytes in digits, with the prefix or without; anything else is refused
/// with what is wrong with it.
pub proof fn addresses_in_plain_terms(address: Seq<char>)
    ensures
        ({
            let raw = without_prefix(trimmed(address), "0x"@);
            &&& encode_utf8(raw).len() != 40 ==> address_fault(address) == Some(
                "invalid address length: "@ + address,
            )
            &&& encode_utf8(raw).len() == 40 && !is_hex(raw) ==> address_fault(address) == Some(
                "invalid address hex: "@ + hex_error(raw),
            )
            &&& encode_utf8(raw).len() == 40 && is_hex(raw) ==> address_fault(address) is None
                && address_bytes(address) == bytes_of_hex(raw)
        }),
{
}

/// A transaction lists, in this order, how many the sender made before, the price and the limit
/// of its gas, the receiver, the value and the data; what is hashed for the signature ends with
/// the chain and two empty places, what is sent with the signature, tied to the chain.
pub proof fn transactions_in_plain_terms(
    chain_id: u64,
    nonce: u64,
    gas_price: u128,
    to: Seq<u8>,
    value: u128,
    data: Seq<u8>,
    signature: Seq<u8>,
    id: u8,
)
    requires
        2 * chain_id + id + 35 <= u64::MAX,
        signature.len() == 64,
    ensures
        ({
            let limit: nat = if data.len() == 0 {
                21_000
            } else {
                250_000
            };
            &&& tx_digest(chain_id, nonce, gas_price, to, value, data) == keccak256(
                packed_list(
                    seq![
                        number_bytes(nonce as nat),
                        number_bytes(gas_price as nat),
                        number_bytes(limit),
                        to,
                        number_bytes(value as nat),
                        data,
                        number_bytes(chain_id as nat),
                        Seq::empty(),
                        Seq::empty(),
                    ],
                ),
            )
            &&& signed_tx(chain_id, nonce, gas_price, to, value, data, signature, id)
                == packed_list(
                seq![
                    number_bytes(nonce as nat),
                    number_bytes(gas_price as nat),
                    number_bytes(limit),
                    to,
                    number_bytes(value as nat),
                    data,
                    number_bytes((2 * chain_id + 35 + id) as nat),
                    without_zeros(signature.subrange(0, 32)),
                    without_zeros(signature.subrange(32, 64)),
                ],
            )
        }),
{
    assert(signature.take(32) =~= signature.subrange(0, 32));
    assert(signature.skip(32) =~= signature.subrange(32, 64));
}

/// Leading zeros are left out, and nothing else: what stays stands for the same number.
pub proof fn leading_zeros_are_left_out(bytes: Seq<u8>)
    ensures
        without_zeros(bytes).len() == 0 || without_zeros(bytes)[0] != 0,
        bytes_number(without_zeros(bytes)) == bytes_number(bytes),
        without_zeros(bytes).len() <= bytes.len(),
        bytes.skip(bytes.len() - without_zeros(bytes).len()) == without_zeros(bytes),
    decreases bytes.len(),
{
    if bytes.len() > 0 && bytes[0] == 0 {
        leading_zeros_are_left_out(bytes.skip(1));
        lemma_front_zero(bytes);
        let rest = without_zeros(bytes.skip(1));
        assert(bytes.skip(1).skip(bytes.len() - 1 - rest.len()) =~= bytes.skip(
            bytes.len() - rest.len(),
        ));
    } else {
        assert(bytes.skip(0) =~= bytes);
    }
}

proof fn lemma_front_zero(bytes: Seq<u8>)
    requires
        bytes.len() > 0,
        bytes[0] == 0,
    ensures
        bytes_number(bytes) == bytes_number(bytes.skip(1)),
    decreases bytes.len(),
{
    if bytes.len() == 1 {
        assert(bytes.drop_last() =~= Seq::empty());
        assert(bytes.skip(1) =~= Seq::empty());
        assert(bytes_number(bytes.drop_last()) == 0);
    } else {
        lemma_front_zero(bytes.drop_last());
        assert(bytes.drop_last().skip(1) =~= bytes.skip(1).drop_last());
    }
}

proof fn lemma_front_bytes(id: u128, k: nat)
    requires
        k <= 16,
    ensures
        bytes_number(id_bytes(id).take(k as int)) == id as int / pow(256, (16 - k) as nat),
    decreases k,
{
    let bytes = id_bytes(id);
    if k == 0 {
        assert(bytes.take(0).len() == 0);
        assert(pow(256, 16) == 0x1_0000_0000_0000_0000_0000_0000_0000_0000) by {
            reveal(pow);
            assert(pow(256, 4) == 0x1_0000_0000) by {
                reveal_with_fuel(pow, 5);
            }
            vstd::arithmetic::power::lemma_pow_adds(256, 4, 4);
            assert(pow(256, 8) == 0x1_0000_0000_0000_0000);
            vstd::arithmetic::power::lemma_pow_adds(256, 8, 8);
        }
        vstd::arithmetic::div_mod::lemma_basic_div(id as int, pow(256, 16));
    } else {
        lemma_front_bytes(id, (k - 1) as nat);
        let front = bytes.take(k as int);
        assert(front.drop_last() =~= bytes.take(k - 1));
        let low = pow(256, (16 - k) as nat);
        vstd::arithmetic::power::lemma_pow_positive(256, (16 - k) as nat);
        assert(pow(256, (17 - k) as nat) == low * 256) by {
            reveal(pow);
            vstd::arithmetic::mul::lemma_mul_is_commutative(256, low);
        }
        vstd::arithmetic::div_mod::lemma_div_denominator(id as int, low, 256);
        vstd::arithmetic::div_mod::lemma_fundamental_div_mod(id as int / low, 256);
        assert(front.last() == bytes[k - 1]);
        assert(bytes[k - 1] as int == (id as int / low) % 256);
    }
}

/// The sixteen bytes of an identifier stand for its number, the highest byte first.
pub proof fn identifier_bytes_stand_for_the_number(id: u128)
    ensures
        id_bytes(id).len() == 16,
        bytes_number(id_bytes(id)) == id,
{
    lemma_front_bytes(id, 16);
    assert(id_bytes(id).take(16) =~= id_bytes(id));
    assert(pow(256, 0) == 1) by {
        reveal(pow);
    }
}

/// A batch is named by the hash of its room's and then its hand's bytes.
pub proof fn batches_are_named_by_room_and_hand(room_id: RoomId, hand_id: HandId)
    ensures
        batch_id(room_id, hand_id) == keccak256(id_bytes(room_id.0) + id_bytes(hand_id.0)),
        function_selector("settleBatch"@) == keccak256(
            encode_utf8("settleBatch"@ + "(address[],uint256[],bytes32)"@),
        ).take(4),
{
}

proof fn lemma_address_words(addresses: Seq<Seq<u8>>, count: nat, i: int)
    requires
        0 <= i < count <= addresses.len(),
        forall|k: int| 0 <= k < addresses.len() ==> (#[trigger] addresses[k]).len() == 20,
    ensures
        address_words(addresses, count).len() == 32 * count,
        address_words(addresses, count).subrange(32 * i, 32 * i + 32) == address_word(
            addresses[i],
        ),
    decreases count,
{
    let front = address_words(addresses, (count - 1) as nat);
    let last = address_word(addresses[count - 1]);
    if count == 1 {
        assert(address_words(addresses, 0).len() == 0);
    } else {
        lemma_address_words(addresses, (count - 1) as nat, 0);
    }
    assert(front.len() == 32 * (count - 1));
    assert(last.len() == 32);
    if i == count - 1 {
        assert((front + last).subrange(32 * i, 32 * i + 32) =~= last);
    } else {
        lemma_address_words(addresses, (count - 1) as nat, i);
        assert((front + last).subrange(32 * i, 32 * i + 32) =~= front.subrange(
            32 * i,
            32 * i + 32,
        ));
    }
}

proof fn lemma_amount_words(amounts: Seq<u128>, count: nat, i: int)
    requires
        0 <= i < count <= amounts.len(),
    ensures
        amount_words(amounts, count).len() == 32 * count,
        amount_words(amounts, count).subrange(32 * i, 32 * i + 32) == word(amounts[i] as nat),
    decreases count,
{
    let front = amount_words(amounts, (count - 1) as nat);
    let last = word(amounts[count - 1] as nat);
    if count == 1 {
        assert(amount_words(amounts, 0).len() == 0);
    } else {
        lemma_amount_words(amounts, (count - 1) as nat, 0);
    }
    assert(front.len() == 32 * (count - 1));
    assert(last.len() == 32);
    if i == count - 1 {
        assert((front + last).subrange(32 * i, 32 * i + 32) =~= last);
    } else {
        lemma_amount_words(amounts, (count - 1) as nat, i);
        assert((front + last).subrange(32 * i, 32 * i + 32) =~= front.subrange(
            32 * i,
            32 * i + 32,
        ));
    }
}

/// In the call that pays a batch every recipient stands at the same place of their list as their
/// amount does of its own, behind the number of transfers; the batch is named in front.
pub proof fn every_recipient_gets_their_amount(
    transfers: Seq<BatchTransfer>,
    id: Seq<u8>,
    i: int,
)
    requires
        0 <= i < transfers.len(),
        id.len() == 32,
        forall|k: int|
            0 <= k < transfers.len() ==> parsed_address(
                (#[trigger] transfers[k]).to_address@,
            )->Ok_0.len() == 20,
    ensures
        ({
            let call = batch_arguments(recipients_of(transfers), amounts_of(transfers), id);
            let n = transfers.len() as int;
            &&& call.len() == 160 + 64 * n
            &&& call.subrange(64, 96) == id
            &&& call.subrange(96, 128) == word(n as nat)
            &&& call.subrange(128 + 32 * i, 160 + 32 * i) == Seq::new(12, |k: int| 0u8)
                + parsed_address(transfers[i].to_address@)->Ok_0
            &&& call.subrange(128 + 32 * n, 160 + 32 * n) == word(n as nat)
            &&& call.subrange(160 + 32 * n + 32 * i, 192 + 32 * n + 32 * i) == word(
                transfers[i].amount as nat,
            )
        }),
{
    let addresses = recipients_of(transfers);
    let amounts = amounts_of(transfers);
    let n = transfers.len() as int;
    assert forall|k: int| 0 <= k < addresses.len() implies (#[trigger] addresses[k]).len()
        == 20 by {
        assert(parsed_address(transfers[k].to_address@)->Ok_0.len() == 20);
    }
    lemma_address_words(addresses, addresses.len(), i);
    lemma_amount_words(amounts, amounts.len(), i);
    let a = address_words(addresses, addresses.len());
    let b = amount_words(amounts, amounts.len());
    let head = word(96) + word(128 + 32 * addresses.len());
    let call = batch_arguments(addresses, amounts, id);
    assert(head.len() == 64);
    assert(call =~= head + id + word(n as nat) + a + word(n as nat) + b);
    assert(call.subrange(64, 96) =~= id);
    assert(call.subrange(96, 128) =~= word(n as nat));
    assert(call.subrange(128 + 32 * i, 160 + 32 * i) =~= a.subrange(32 * i, 32 * i + 32));
    assert(call.subrange(128 + 32 * n, 160 + 32 * n) =~= word(n as nat));
    assert(call.subrange(160 + 32 * n + 32 * i, 192 + 32 * n + 32 * i) =~= b.subrange(
        32 * i,
        32 * i + 32,
    ));
}

/// A batch is refused for the first recipient whose address cannot be read, and for nothing
/// else.
pub proof fn unreadable_recipients_are_refused(transfers: Seq<BatchTransfer>, count: nat)
    requires
        count <= transfers.len(),
    ensures
        recipient_fault(transfers, count) is None <==> forall|i: int|
            0 <= i < count ==> parsed_address((#[trigger] transfers[i]).to_address@) is Ok,
        recipient_fault(transfers, count) is Some ==> exists|i: int|
            0 <= i < count && parsed_address((#[trigger] transfers[i]).to_address@) is Err
                && recipient_fault(transfers, count) == Some(
                "invalid recipient address "@ + transfers[i].to_address@ + ": "@ + parsed_address(
                    transfers[i].to_address@,
                )->Err_0,
            ) && forall|j: int|
                0 <= j < i ==> parsed_address((#[trigger] transfers[j]).to_address@) is Ok,
    decreases count,
{
    if count > 0 {
        unreadable_recipients_are_refused(transfers, (count - 1) as nat);
        let last = transfers[count - 1];
        if recipient_fault(transfers, (count - 1) as nat) is None
            && parsed_address(last.to_address@) is Err {
            assert(parsed_address(transfers[count - 1].to_address@) is Err);
        }
    }
}

} // verus!
