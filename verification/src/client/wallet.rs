//! How the client pays and signs.
use vstd::prelude::*;
use vstd::string::StringExecFns;

use crate::chain_watcher::{hex_quantity, JsonRpcResponse};
use crate::domain::events::{member, number_json, number_tree, object, text_json};
use crate::domain::ids::{fresh_uuid, id_text, is_time_ordered, uuid_digit, uuid_text, RoomId};
use crate::domain::money::Chips;
use crate::evm::{hex_encode, hex_of};
use crate::json::{items_view, lemma_array_view, Json, JsonView};
use crate::text::{
    chars_of, digit_char, hex_number_text, number_text, numbers_read_back, owned, parse_number,
    signed_decimal, signed_decimal_text, strip_prefix, text_of, trim, trimmed_end, trimmed_start,
    white_space, NumberError,
};

verus! {

#[derive(Debug, PartialEq, Eq)]
pub enum WalletAdapterError {
    NotConfigured,
    RpcUnavailable,
    Http(String),
    Rpc(String),
    Parse(String),
}

impl WalletAdapterError {
    pub open spec fn spec_message(self) -> Seq<char> {
        match self {
            WalletAdapterError::NotConfigured => "wallet not configured"@,
            WalletAdapterError::RpcUnavailable => "rpc unavailable"@,
            WalletAdapterError::Http(detail) => "http error: "@ + detail@,
            WalletAdapterError::Rpc(detail) => "rpc error: "@ + detail@,
            WalletAdapterError::Parse(detail) => "parse error: "@ + detail@,
        }
    }

    pub fn message(&self) -> (text: String)
        ensures
            text@ == self.spec_message(),
    {
        match self {
            WalletAdapterError::NotConfigured => owned("wallet not configured"),
            WalletAdapterError::RpcUnavailable => owned("rpc unavailable"),
            WalletAdapterError::Http(detail) => {
                let mut text = String::from_str("http error: ");
                text.append(detail.as_str());
                text
            },
            WalletAdapterError::Rpc(detail) => {
                let mut text = String::from_str("rpc error: ");
                text.append(detail.as_str());
                text
            },
            WalletAdapterError::Parse(detail) => {
                let mut text = String::from_str("parse error: ");
                text.append(detail.as_str());
                text
            },
        }
    }
}

/// A payment to a room.
#[derive(Debug, PartialEq, Eq)]
pub struct EvmTransferRequest {
    pub room_id: RoomId,
    pub from: String,
    pub to: String,
    pub value: Chips,
    pub chain_id: u64,
}

/// What is known of a payment once it is on its way.
#[derive(Debug, PartialEq, Eq)]
pub struct EvmTransferReceipt {
    pub tx_hash: String,
    pub submitted: bool,
}

/// How a payment stands on the chain.
#[derive(Debug, PartialEq, Eq)]
pub struct EvmTxReceiptStatus {
    pub tx_hash: String,
    pub confirmations: Option<u64>,
    pub success: Option<bool>,
}

/// Pays and signs.
pub trait WalletAdapter {
    fn transfer_to_room(&self, request: EvmTransferRequest) -> Result<
        EvmTransferReceipt,
        WalletAdapterError,
    >;

    fn sign_personal_message(&self, from: &str, message: &Vec<u8>) -> Result<
        String,
        WalletAdapterError,
    >;
}

/// A wallet that only pretends.
#[derive(Debug, Clone, Copy, PartialEq, Eq, Structural)]
pub struct MockEvmWalletAdapter;

impl Default for MockEvmWalletAdapter {
    fn default() -> (wallet: MockEvmWalletAdapter)
        ensures
            wallet == MockEvmWalletAdapter,
    {
        MockEvmWalletAdapter
    }
}

/// The digits of an identifier without hyphens.
pub open spec fn simple_digits(id: u128) -> Seq<char> {
    Seq::new(32, |k: int| uuid_digit(id, k))
}

fn simple_text(id: u128) -> (text: String)
    ensures
        text@ == simple_digits(id),
{
    let chars = chars_of(id_text(id).as_str());
    let mut digits: Vec<char> = Vec::new();
    let mut i: usize = 0;
    while i < 36
        invariant
            i <= 36,
            chars@ == uuid_text(id),
            digits@.len() == i - (if i > 23 {
                4int
            } else if i > 18 {
                3
            } else if i > 13 {
                2
            } else if i > 8 {
                1
            } else {
                0
            }),
            forall|k: int| 0 <= k < digits@.len() ==> digits@[k] == uuid_digit(id, k),
        decreases 36 - i,
    {
        if i != 8 && i != 13 && i != 18 && i != 23 {
            digits.push(chars[i]);
        }
        i = i + 1;
    }
    assert(digits@ =~= simple_digits(id));
    text_of(&digits)
}

impl WalletAdapter for MockEvmWalletAdapter {
    /// A transaction that nobody sent.
    fn transfer_to_room(&self, request: EvmTransferRequest) -> (receipt: Result<
        EvmTransferReceipt,
        WalletAdapterError,
    >)
        ensures
            receipt is Ok,
            receipt->Ok_0.submitted,
            exists|id: u128|
                is_time_ordered(id) && receipt->Ok_0.tx_hash@ == "0x"@ + #[trigger] simple_digits(
                    id,
                ),
    {
        let id: u128 = fresh_uuid();
        let mut text = String::from_str("0x");
        text.append(simple_text(id).as_str());
        assert(text@ == "0x"@ + simple_digits(id));
        Ok(EvmTransferReceipt { tx_hash: text, submitted: true })
    }

    /// A signature of nothing but zeros.
    fn sign_personal_message(&self, from: &str, message: &Vec<u8>) -> (signature: Result<
        String,
        WalletAdapterError,
    >)
        ensures
            signature is Ok,
            signature->Ok_0@ == "0x"@ + Seq::new(130, |k: int| '0'),
    {
        let mut zeros: Vec<char> = Vec::new();
        let mut i: usize = 0;
        while i < 130
            invariant
                i <= 130,
                zeros@.len() == i,
                forall|k: int| 0 <= k < i ==> zeros@[k] == '0',
            decreases 130 - i,
        {
            zeros.push('0');
            i = i + 1;
        }
        assert(zeros@ =~= Seq::new(130, |k: int| '0'));
        let mut text = String::from_str("0x");
        text.append(text_of(&zeros).as_str());
        Ok(text)
    }
}

/// A call of a node or of the server, as a document.
pub open spec fn call_tree(method: Seq<char>, params: JsonView) -> JsonView {
    JsonView::Object(
        seq![
            member("jsonrpc"@, JsonView::Text("2.0"@)),
            member("id"@, number_tree(1)),
            member("method"@, JsonView::Text(method)),
            member("params"@, params),
        ],
    )
}

/// A call of a node or of the server, as a document.
pub fn call_json(method: &str, params: Json) -> (value: Json)
    ensures
        value@ == call_tree(method@, params@),
{
    let ghost given = params@;
    let mut members: Vec<(String, Json)> = Vec::new();
    members.push((owned("jsonrpc"), text_json("2.0")));
    members.push((owned("id"), number_json(1)));
    members.push((owned("method"), text_json(method)));
    members.push((owned("params"), params));
    let value = object(members);
    assert(value@->Object_0 =~= call_tree(method@, given)->Object_0);
    value
}

/// What a node answered: its error counts first.
pub fn rpc_call_result<T>(reply: JsonRpcResponse<T>) -> (outcome: Result<T, WalletAdapterError>)
    ensures
        match (reply.error, reply.result) {
            (Some(error), _) => outcome is Err && outcome->Err_0 is Rpc && outcome->Err_0->Rpc_0@
                == "code="@ + signed_decimal(error.code as int) + " message="@ + error.message@,
            (None, Some(result)) => outcome == Ok::<T, WalletAdapterError>(result),
            (None, None) => outcome is Err && outcome->Err_0 is Rpc && outcome->Err_0->Rpc_0@
                == "missing result"@,
        },
{
    match reply.error {
        Some(error) => {
            let mut text = String::from_str("code=");
            text.append(signed_decimal_text(error.code).as_str());
            text.append(" message=");
            text.append(error.message.as_str());
            Err(WalletAdapterError::Rpc(text))
        },
        None => match reply.result {
            Some(result) => Ok(result),
            None => Err(WalletAdapterError::Rpc(owned("missing result"))),
        },
    }
}

/// Whether reading a quantity gave what it should.
pub open spec fn reads_as(
    quantity: Result<int, NumberError>,
    read: Result<u64, WalletAdapterError>,
) -> bool {
    match quantity {
        Ok(n) => read is Ok && read->Ok_0 == n,
        Err(fault) => read is Err && read->Err_0 is Parse && read->Err_0->Parse_0@
            == fault.spec_message(),
    }
}

/// Reads a quantity.
pub fn parse_hex_u64(input: &str) -> (read: Result<u64, WalletAdapterError>)
    ensures
        reads_as(hex_quantity(input@, u64::MAX as int), read),
{
    let raw = strip_prefix(&trim(&chars_of(input)), "0x");
    if raw.len() == 0 {
        return Ok(0);
    }
    match parse_number(&raw, 16, u64::MAX as u128) {
        Ok(n) => Ok(n as u64),
        Err(fault) => Err(WalletAdapterError::Parse(owned(fault.message()))),
    }
}

/// The number of the chain, from the node's answer.
pub fn chain_id(reply: Result<String, WalletAdapterError>) -> (id: Result<u64, WalletAdapterError>)
    ensures
        match reply {
            Ok(text) => reads_as(hex_quantity(text@, u64::MAX as int), id),
            Err(error) => id == Err::<u64, WalletAdapterError>(error),
        },
{
    match reply {
        Ok(text) => parse_hex_u64(text.as_str()),
        Err(error) => Err(error),
    }
}

/// A receipt as a node writes it.
#[derive(Debug, PartialEq, Eq)]
pub struct EthTransactionReceipt {
    pub status: Option<String>,
    pub confirmations: Option<String>,
}

/// The quantity in a member that may be missing.
pub open spec fn optional_quantity(text: Option<String>) -> Result<Option<int>, NumberError> {
    match text {
        None => Ok(None),
        Some(text) => match hex_quantity(text@, u64::MAX as int) {
            Ok(n) => Ok(Some(n)),
            Err(fault) => Err(fault),
        },
    }
}

fn parse_optional(text: &Option<String>) -> (read: Result<Option<u64>, WalletAdapterError>)
    ensures
        match optional_quantity(*text) {
            Ok(None) => read == Ok::<Option<u64>, WalletAdapterError>(None),
            Ok(Some(n)) => read is Ok && read->Ok_0 is Some && read->Ok_0->0 == n,
            Err(fault) => read is Err && read->Err_0 is Parse && read->Err_0->Parse_0@
                == fault.spec_message(),
        },
{
    match text {
        None => Ok(None),
        Some(text) => match parse_hex_u64(text.as_str()) {
            Ok(n) => Ok(Some(n)),
            Err(error) => Err(error),
        },
    }
}

/// How a payment stands, from its receipt; a quantity that cannot be read is an error, the
/// number of confirmations before the status.
pub fn get_tx_receipt_status(tx_hash: &str, receipt: Option<EthTransactionReceipt>) -> (status: Result<
    Option<EvmTxReceiptStatus>,
    WalletAdapterError,
>)
    ensures
        match receipt {
            None => status == Ok::<Option<EvmTxReceiptStatus>, WalletAdapterError>(None),
            Some(receipt) => match (
                optional_quantity(receipt.confirmations),
                optional_quantity(receipt.status),
            ) {
                (Err(fault), _) => status is Err && status->Err_0 is Parse
                    && status->Err_0->Parse_0@ == fault.spec_message(),
                (Ok(_), Err(fault)) => status is Err && status->Err_0 is Parse
                    && status->Err_0->Parse_0@ == fault.spec_message(),
                (Ok(confirmations), Ok(success)) => {
                    &&& status is Ok
                    &&& status->Ok_0 is Some
                    &&& status->Ok_0->0.tx_hash@ == tx_hash@
                    &&& status->Ok_0->0.confirmations is Some <==> confirmations is Some
                    &&& confirmations is Some ==> status->Ok_0->0.confirmations->0
                        == confirmations->0
                    &&& status->Ok_0->0.success == (match success {
                        Some(n) => Some(n == 1),
                        None => None,
                    })
                },
            },
        },
{
    let found = match receipt {
        Some(receipt) => receipt,
        None => {
            return Ok(None);
        },
    };
    let confirmations = match parse_optional(&found.confirmations) {
        Ok(n) => n,
        Err(error) => {
            return Err(error);
        },
    };
    let code = match parse_optional(&found.status) {
        Ok(n) => n,
        Err(error) => {
            return Err(error);
        },
    };
    let success: Option<bool> = match code {
        Some(n) => Some(n == 1),
        None => None,
    };
    Ok(
        Some(
            EvmTxReceiptStatus {
                tx_hash: owned(tx_hash),
                confirmations: confirmations,
                success: success,
            },
        ),
    )
}

/// The parameters of a payment, as a document.
pub open spec fn transfer_tree(from: Seq<char>, to: Seq<char>, value: nat) -> JsonView {
    JsonView::Array(
        seq![
            JsonView::Object(
                seq![
                    member("from"@, JsonView::Text(from)),
                    member("to"@, JsonView::Text(to)),
                    member("value"@, JsonView::Text("0x"@ + number_text(value, 16))),
                ],
            ),
        ],
    )
}

/// The call that makes a payment.
pub fn transfer_call(request: &EvmTransferRequest) -> (call: Json)
    ensures
        call@ == call_tree(
            "eth_sendTransaction"@,
            transfer_tree(request.from@, request.to@, request.value.0 as nat),
        ),
{
    let mut value_hex = String::from_str("0x");
    value_hex.append(hex_number_text(request.value.0).as_str());
    let mut members: Vec<(String, Json)> = Vec::new();
    members.push((owned("from"), text_json(request.from.as_str())));
    members.push((owned("to"), text_json(request.to.as_str())));
    members.push((owned("value"), Json::Text(value_hex)));
    let payment = object(members);
    let ghost expected = transfer_tree(request.from@, request.to@, request.value.0 as nat);
    assert(payment@->Object_0 =~= expected->Array_0[0]->Object_0);
    let mut items: Vec<Json> = Vec::new();
    items.push(payment);
    proof {
        lemma_array_view(items);
        assert(items_view(items@) =~= expected->Array_0);
    }
    call_json("eth_sendTransaction", Json::Array(items))
}

/// The amount of a payment, as it is written, reads back.
pub proof fn paid_amounts_read_back(amount: nat, max: int)
    requires
        amount <= max,
    ensures
        hex_quantity("0x"@ + number_text(amount, 16), max) == Ok::<int, NumberError>(amount as int),
{
    let digits = number_text(amount, 16);
    let text = "0x"@ + digits;
    reveal_strlit("0x");
    numbers_read_back(amount, 16, max);
    assert(digits.len() > 0 && !white_space(digits.last())) by {
        assert(digits.last() == digit_char(amount as int % 16));
    }
    assert(trimmed_start(text) == text);
    assert(trimmed_end(text) == text) by {
        assert(text.last() == digits.last());
    }
    assert(text.take(2) =~= "0x"@);
    assert(text.subrange(0, 2) =~= "0x"@);
    assert(text.skip(2) =~= digits);
    assert(text.subrange(2, text.len() as int) =~= digits);
}

/// The call that signs a message.
pub fn sign_call(from: &str, message: &Vec<u8>) -> (call: Json)
    ensures
        call@ == call_tree(
            "personal_sign"@,
            JsonView::Array(
                seq![JsonView::Text("0x"@ + hex_of(message@)), JsonView::Text(from@)],
            ),
        ),
{
    let mut data = String::from_str("0x");
    data.append(hex_encode(message).as_str());
    let mut items: Vec<Json> = Vec::new();
    items.push(Json::Text(data));
    items.push(text_json(from));
    proof {
        lemma_array_view(items);
        assert(items_view(items@) =~= seq![
            JsonView::Text("0x"@ + hex_of(message@)),
            JsonView::Text(from@),
        ]);
    }
    call_json("personal_sign", Json::Array(items))
}

} // verus!
