//! Whether a request was signed by the one who sits on the seat.
use vstd::prelude::*;
use vstd::string::StrSliceExecFns;
use vstd::utf8::encode_utf8;

use crate::auth::{
    build_signing_message, fault_result, verify_evm_personal_signature, AuthError,
    SignedRequestMeta, SigningMessageInput,
};
use crate::domain::events::{
    member, number_json, number_tree, object, optional_text_json, optional_text_tree, text_json,
};
use crate::domain::ids::{id_text, RoomId, SessionId};
use crate::evm::signature_fault;
use crate::json::{Json, JsonView};
use crate::rpc::{
    GameActRequest, RoomBindAddressRequest, RoomBindSessionKeysRequest, RoomReadyRequest,
};
use crate::text::owned;

verus! {

/// What is signed of the requests of a seat: the session is not named.
pub ghost struct SignedText {
    pub method: Seq<char>,
    pub room_id: RoomId,
    pub hand_id: Option<Seq<char>>,
    pub action_seq: Option<u32>,
    pub params: JsonView,
    pub meta: SignedRequestMeta,
}

impl SignedText {
    pub open spec fn text(self) -> Seq<char> {
        crate::auth::signed_text(
            self.method,
            SessionId(0),
            Some(self.room_id),
            self.hand_id,
            self.action_seq,
            self.params,
            self.meta,
        )
    }
}

/// Whether testing the signature of a request gave what it should.
pub open spec fn tests_signature(
    address: Seq<char>,
    signed: SignedText,
    result: Result<(), String>,
) -> bool {
    match fault_result(
        signature_fault(address, encode_utf8(signed.text()), signed.meta.signature@),
    ) {
        Ok(_) => result is Ok,
        Err(error) => result is Err && result->Err_0@ == error.spec_message(),
    }
}

/// Writes what is signed of a request of a seat.
pub fn text_to_sign(
    method: &str,
    room_id: RoomId,
    hand_id: Option<String>,
    action_seq: Option<u32>,
    params: &Json,
    meta: &SignedRequestMeta,
) -> (message: Result<String, AuthError>)
    ensures
        message is Ok,
        message->Ok_0@ == (SignedText {
            method: method@,
            room_id: room_id,
            hand_id: match hand_id {
                Some(text) => Some(text@),
                None => None,
            },
            action_seq: action_seq,
            params: params@,
            meta: *meta,
        }).text(),
{
    let input = SigningMessageInput {
        method: method,
        session_id: SessionId::nil(),
        room_id: Some(room_id),
        hand_id: hand_id,
        action_seq: action_seq,
        params: params,
        meta: meta,
    };
    build_signing_message(&input)
}

fn check_signature(
    address: &str,
    method: &str,
    room_id: RoomId,
    hand_id: Option<String>,
    action_seq: Option<u32>,
    params: &Json,
    meta: &SignedRequestMeta,
) -> (result: Result<(), String>)
    ensures
        tests_signature(
            address@,
            SignedText {
                method: method@,
                room_id: room_id,
                hand_id: match hand_id {
                    Some(text) => Some(text@),
                    None => None,
                },
                action_seq: action_seq,
                params: params@,
                meta: *meta,
            },
            result,
        ),
{
    match text_to_sign(method, room_id, hand_id, action_seq, params, meta) {
        Err(error) => Err(error.message()),
        Ok(message) => {
            let bytes = message.as_str().as_bytes_vec();
            match verify_evm_personal_signature(address, bytes.as_slice(), meta.signature.as_str()) {
                Ok(_) => Ok(()),
                Err(error) => Err(error.message()),
            }
        },
    }
}

/// A request that the owner of an address signed passes the test of its signature: what is
/// signed does not depend on the signature.
pub proof fn signed_requests_are_accepted(
    address: Seq<char>,
    signed: SignedText,
    signature: String,
    result: Result<(), String>,
)
    requires
        fault_result(
            signature_fault(address, encode_utf8(signed.text()), signature@),
        ) is Ok,
        tests_signature(
            address,
            SignedText {
                meta: SignedRequestMeta { signature: signature, ..signed.meta },
                ..signed
            },
            result,
        ),
    ensures
        result is Ok,
{
    let sent = SignedText {
        meta: SignedRequestMeta { signature: signature, ..signed.meta },
        ..signed
    };
    assert(sent.text() == signed.text());
}

/// What is signed of the wish to tie a seat to its address.
pub open spec fn bind_address_params(request: RoomBindAddressRequest) -> JsonView {
    JsonView::Object(
        seq![
            member("seat_id"@, number_tree(request.seat_id as u64)),
            member("seat_address"@, JsonView::Text(request.seat_address@)),
        ],
    )
}

/// What is signed of it, as a document.
pub fn bind_address_json(request: &RoomBindAddressRequest) -> (value: Json)
    ensures
        value@ == bind_address_params(*request),
{
    let mut members: Vec<(String, Json)> = Vec::new();
    members.push((owned("seat_id"), number_json(request.seat_id as u64)));
    members.push((owned("seat_address"), text_json(request.seat_address.as_str())));
    let value = object(members);
    assert(value@->Object_0 =~= bind_address_params(*request)->Object_0);
    value
}

/// Tests whether the owner of the address asks to tie the seat to it.
pub fn verify_bind_address(request: &RoomBindAddressRequest) -> (result: Result<(), String>)
    ensures
        tests_signature(
            request.seat_address@,
            SignedText {
                method: "room.bind_address"@,
                room_id: request.room_id,
                hand_id: None,
                action_seq: None,
                params: bind_address_params(*request),
                meta: request.request_meta,
            },
            result,
        ),
{
    let params = bind_address_json(request);
    check_signature(
        request.seat_address.as_str(),
        "room.bind_address",
        request.room_id,
        None,
        None,
        &params,
        &request.request_meta,
    )
}

/// What is signed of the wish to tie a seat to its keys.
pub open spec fn bind_keys_params(request: RoomBindSessionKeysRequest) -> JsonView {
    JsonView::Object(
        seq![
            member("seat_id"@, number_tree(request.seat_id as u64)),
            member("seat_address"@, JsonView::Text(request.seat_address@)),
            member("card_encrypt_pubkey"@, JsonView::Text(request.card_encrypt_pubkey@)),
            member("request_verify_pubkey"@, JsonView::Text(request.request_verify_pubkey@)),
            member("key_algo"@, JsonView::Text(request.key_algo@)),
            member("proof_signature"@, JsonView::Text(request.proof_signature@)),
        ],
    )
}

/// What is signed of it, as a document.
pub fn bind_keys_json(request: &RoomBindSessionKeysRequest) -> (value: Json)
    ensures
        value@ == bind_keys_params(*request),
{
    let mut members: Vec<(String, Json)> = Vec::new();
    members.push((owned("seat_id"), number_json(request.seat_id as u64)));
    members.push((owned("seat_address"), text_json(request.seat_address.as_str())));
    members.push((owned("card_encrypt_pubkey"), text_json(request.card_encrypt_pubkey.as_str())));
    members.push(
        (owned("request_verify_pubkey"), text_json(request.request_verify_pubkey.as_str())),
    );
    members.push((owned("key_algo"), text_json(request.key_algo.as_str())));
    members.push((owned("proof_signature"), text_json(request.proof_signature.as_str())));
    let value = object(members);
    assert(value@->Object_0 =~= bind_keys_params(*request)->Object_0);
    value
}

/// Tests whether the owner of the address asks to tie the seat to its keys.
pub fn verify_bind_session_keys(request: &RoomBindSessionKeysRequest) -> (result: Result<(), String>)
    ensures
        tests_signature(
            request.seat_address@,
            SignedText {
                method: "room.bind_session_keys"@,
                room_id: request.room_id,
                hand_id: None,
                action_seq: None,
                params: bind_keys_params(*request),
                meta: request.request_meta,
            },
            result,
        ),
{
    let params = bind_keys_json(request);
    check_signature(
        request.seat_address.as_str(),
        "room.bind_session_keys",
        request.room_id,
        None,
        None,
        &params,
        &request.request_meta,
    )
}

/// What is signed of the word that a seat is ready.
pub open spec fn ready_params(request: RoomReadyRequest) -> JsonView {
    JsonView::Object(seq![member("seat_id"@, number_tree(request.seat_id as u64))])
}

/// What is signed of it, as a document.
pub fn ready_json(request: &RoomReadyRequest) -> (value: Json)
    ensures
        value@ == ready_params(*request),
{
    let mut members: Vec<(String, Json)> = Vec::new();
    members.push((owned("seat_id"), number_json(request.seat_id as u64)));
    let value = object(members);
    assert(value@->Object_0 =~= ready_params(*request)->Object_0);
    value
}

/// Tests whether the owner of the address that the seat is tied to says that it is ready.
pub fn verify_room_ready(request: &RoomReadyRequest, bound_address: &Option<String>) -> (result: Result<
    (),
    String,
>)
    ensures
        match *bound_address {
            None => result is Err && result->Err_0@ == "missing bound seat address"@,
            Some(address) => tests_signature(
                address@,
                SignedText {
                    method: "room.ready"@,
                    room_id: request.room_id,
                    hand_id: None,
                    action_seq: None,
                    params: ready_params(*request),
                    meta: request.request_meta,
                },
                result,
            ),
        },
{
    let address = match bound_address {
        Some(address) => address,
        None => {
            return Err(owned("missing bound seat address"));
        },
    };
    let params = ready_json(request);
    check_signature(
        address.as_str(),
        "room.ready",
        request.room_id,
        None,
        None,
        &params,
        &request.request_meta,
    )
}

/// What is signed of an action.
pub open spec fn act_params(request: GameActRequest) -> JsonView {
    JsonView::Object(
        seq![
            member("seat_id"@, number_tree(request.seat_id as u64)),
            member("action_type"@, JsonView::Text(request.action_type@)),
            member("amount"@, optional_text_tree(request.amount)),
            member("tx_hash"@, optional_text_tree(request.tx_hash)),
        ],
    )
}

/// What is signed of it, as a document.
pub fn act_json(request: &GameActRequest) -> (value: Json)
    ensures
        value@ == act_params(*request),
{
    let mut members: Vec<(String, Json)> = Vec::new();
    members.push((owned("seat_id"), number_json(request.seat_id as u64)));
    members.push((owned("action_type"), text_json(request.action_type.as_str())));
    members.push((owned("amount"), optional_text_json(&request.amount)));
    members.push((owned("tx_hash"), optional_text_json(&request.tx_hash)));
    let value = object(members);
    assert(value@->Object_0 =~= act_params(*request)->Object_0);
    value
}

/// Tests whether the owner of the address that the seat is tied to asks for the action.
pub fn verify_game_act(request: &GameActRequest, bound_address: &Option<String>) -> (result: Result<
    (),
    String,
>)
    ensures
        match *bound_address {
            None => result is Err && result->Err_0@ == "missing bound seat address"@,
            Some(address) => tests_signature(
                address@,
                SignedText {
                    method: "game.act"@,
                    room_id: request.room_id,
                    hand_id: Some(crate::domain::ids::uuid_text(request.hand_id.0)),
                    action_seq: Some(request.action_seq),
                    params: act_params(*request),
                    meta: request.request_meta,
                },
                result,
            ),
        },
{
    let address = match bound_address {
        Some(address) => address,
        None => {
            return Err(owned("missing bound seat address"));
        },
    };
    let params = act_json(request);
    check_signature(
        address.as_str(),
        "game.act",
        request.room_id,
        Some(id_text(request.hand_id.0)),
        Some(request.action_seq),
        &params,
        &request.request_meta,
    )
}

} // verus!
