use agent_poker::backoff::capped_backoff_ms;
use agent_poker::cards::{cards_to_compact_string, parse_cards};
use agent_poker::chain_tx::{
    build_legacy_raw_tx, build_settlement_batch_id, encode_batch_settlement_call,
    parse_evm_address_20_bytes, BatchTransfer,
};
use agent_poker::columns::{
    from_middle, from_wide, optional_id, optional_id_text, optional_seat, optional_seat_column,
    page_bound, seat_or_zero, to_middle, to_wide,
};
use agent_poker::domain::{Chips, HandId, RoomId};
use agent_poker::evm::EvmSigningKey;
use agent_poker::json::{canonicalize_json, Json, JsonNumber};
use agent_poker::paging::PageRequest;
use agent_poker::server::settlement::SettlementTxStatus;
use agent_poker::server::wallet::{
    amount_reply, batch_total, get_transfer_receipt, number_reply, parse_hex_u128, parse_hex_u64,
    prepare_batch_transfer, prepare_transfer, read_conditions, rpc_result, signer_for_room,
    text_reply, BatchTransferCounts, ChainConditions, RoomChainAccount,
};
use agent_poker::table::Table;
use agent_poker::text::{
    chars_of, contains, decimal_text, hex_number_text, lower, parse_number, signed_decimal_text,
    strip_prefix, strip_prefixes, text_of, trim, NumberError,
};

fn text(value: &str) -> Json {
    Json::Text(value.to_string())
}

fn object(members: Vec<(&str, Json)>) -> Json {
    Json::Object(members.into_iter().map(|(key, value)| (key.to_string(), value)).collect())
}

fn hex(bytes: &[u8]) -> String {
    bytes.iter().map(|byte| format!("{byte:02x}")).collect()
}

// Cards.

#[test]
fn cards_are_read_and_written() {
    let cards = parse_cards("AhKhQh2c3d").expect("cards");
    assert_eq!(cards.len(), 5);
    assert_eq!(cards_to_compact_string(&cards), "2c3dQhKhAh");
    let deck: Vec<u8> = (0..52).collect();
    let mut read = parse_cards(&cards_to_compact_string(&deck)).expect("deck");
    assert_eq!(read[..5], [0, 13, 26, 39, 1]);
    read.sort();
    assert_eq!(read, deck);
    assert_eq!(parse_cards(""), Ok(Vec::new()));
}

#[test]
fn faulty_cards_are_refused() {
    assert!(parse_cards("Ax").is_err());
    assert!(parse_cards("1h").is_err());
    assert!(parse_cards("AhAh").is_err());
    assert!(parse_cards("AhK").is_err());
}

// Transactions.

fn key(byte: u8) -> EvmSigningKey {
    EvmSigningKey::from_slice(&[byte; 32]).expect("key")
}

#[test]
fn transactions_are_signed_for_their_chain() {
    let raw = build_legacy_raw_tx(
        1,
        9,
        20_000_000_000,
        "0x3535353535353535353535353535353535353535",
        1_000_000_000_000_000_000,
        &Vec::new(),
        &key(0x46),
    )
    .expect("raw");
    assert_eq!(
        raw,
        "0xf86c098504a817c800825208943535353535353535353535353535353535353535880de0b6b3a7640000\
         8025a028ef61340bd939bc2195fe537567866003e1a15d3c71ff63e1590620aa636276a067cbe9d8997f76\
         1aecb703304b3800ccf555c9f3dc64214b297fb1966a3b6d83"
    );
}

#[test]
fn addresses_have_twenty_bytes() {
    assert_eq!(
        parse_evm_address_20_bytes("0x00000000000000000000000000000000000000ff")
            .map(|bytes| (bytes.len(), bytes[19])),
        Ok((20, 255))
    );
    assert!(parse_evm_address_20_bytes("0x00").is_err());
    assert!(parse_evm_address_20_bytes("zz").is_err());
}

fn transfer(to_address: &str, amount: u128) -> BatchTransfer {
    BatchTransfer { to_address: to_address.to_string(), amount }
}

#[test]
fn batches_call_the_contract() {
    let id = build_settlement_batch_id(RoomId(1), HandId(2));
    assert_eq!(id.len(), 32);
    assert_ne!(id, build_settlement_batch_id(RoomId(1), HandId(3)));
    let recipient = "0x1111111111111111111111111111111111111111";
    let data =
        encode_batch_settlement_call(RoomId(1), HandId(2), &vec![transfer(recipient, 255)])
            .expect("data");
    let expected = format!(
        "845741bc{:064x}{:064x}{}{:064x}{}{}{:064x}{:064x}",
        96,
        160,
        hex(&id),
        1,
        "0".repeat(24),
        "1".repeat(40),
        1,
        255
    );
    assert_eq!(hex(&data), expected);
    let err = encode_batch_settlement_call(RoomId(1), HandId(2), &vec![transfer("bad", 1)])
        .expect_err("no address");
    assert!(err.starts_with("invalid recipient address bad: "), "{err}");
}

#[test]
fn transfers_are_prepared() {
    let conditions = ChainConditions { chain_id: 1, nonce: 9, gas_price: 20_000_000_000 };
    let raw = prepare_transfer(
        &conditions,
        "0x3535353535353535353535353535353535353535",
        Chips(1_000_000_000_000_000_000),
        &key(0x46),
    )
    .expect("raw");
    assert!(raw.starts_with("0xf86c098504a817c80082520894"), "{raw}");
    assert!(prepare_transfer(&conditions, "x", Chips(1), &key(0x46)).is_err());
    assert!(prepare_batch_transfer(
        &conditions,
        "0x3535353535353535353535353535353535353535",
        RoomId(1),
        HandId(2),
        &Vec::new(),
        &key(0x46),
    )
    .is_err());
    let paid = vec![transfer("0x1111111111111111111111111111111111111111", 7)];
    let raw = prepare_batch_transfer(
        &conditions,
        "0x3535353535353535353535353535353535353535",
        RoomId(1),
        HandId(2),
        &paid,
        &key(0x46),
    )
    .expect("raw");
    assert!(raw.contains("845741bc"), "{raw}");
}

#[test]
fn batches_are_summed() {
    assert_eq!(batch_total(&vec![transfer("a", 3), transfer("b", 4)]), Ok(7));
    assert!(batch_total(&Vec::new()).is_err());
    assert!(batch_total(&vec![transfer("a", u128::MAX), transfer("b", 1)]).is_err());
    let mut counts = BatchTransferCounts::new();
    assert_eq!(counts.count_of("0x1"), 0);
    counts.note("0x1".to_string(), 2);
    counts.note("0x1".to_string(), 3);
    assert_eq!(counts.count_of("0x1"), 3);
}

// Replies of the node.

#[test]
fn quantities_are_read() {
    assert_eq!(parse_hex_u64("0x10"), Ok(16));
    assert!(parse_hex_u64("0x10000000000000000").is_err());
    assert_eq!(parse_hex_u128("0x10000000000000000"), Ok(1 << 64));
    assert_eq!(parse_hex_u128(" 0x "), Ok(0));
    assert!(parse_hex_u128("0xg").is_err());
    assert_eq!(number_reply("eth_chainId", &text("0x2a")), Ok(42));
    assert_eq!(amount_reply("eth_gasPrice", &text("0x2a")), Ok(42));
    assert!(number_reply("eth_chainId", &Json::Null).is_err());
    assert_eq!(text_reply("eth_sendRawTransaction", &text("0xhash")).as_deref(), Ok("0xhash"));
    assert!(text_reply("eth_sendRawTransaction", &Json::Bool(true)).is_err());
}

#[test]
fn conditions_come_from_three_replies() {
    let read = read_conditions(&text("0x1"), &text("0x2"), &text("0x3")).expect("conditions");
    assert_eq!((read.chain_id, read.nonce, read.gas_price), (1, 2, 3));
    assert!(read_conditions(&text("0x1"), &Json::Null, &text("0x3")).is_err());
}

#[test]
fn replies_hold_results_or_errors() {
    assert_eq!(rpc_result(&object(vec![("result", text("0x1"))])), Ok(text("0x1")));
    assert!(rpc_result(&object(vec![("error", text("bad")), ("result", text("0x1"))])).is_err());
    assert!(rpc_result(&object(Vec::new())).is_err());
}

#[test]
fn receipts_count_confirmations() {
    let receipt = object(vec![("status", text("0x1")), ("blockNumber", text("0xa"))]);
    let read = get_transfer_receipt("0xt", &receipt, &text("0xc")).expect("receipt");
    assert_eq!(read.status, SettlementTxStatus::Confirmed);
    assert_eq!(read.confirmations, 3);
    let failed = object(vec![("status", text("0x0")), ("blockNumber", text("0xa"))]);
    let read = get_transfer_receipt("0xt", &failed, &text("0xc")).expect("receipt");
    assert_eq!(read.status, SettlementTxStatus::Failed);
    let read = get_transfer_receipt("0xt", &Json::Null, &text("0xc")).expect("receipt");
    assert_eq!(read.status, SettlementTxStatus::Pending);
    assert_eq!(read.confirmations, 0);
}

#[test]
fn rooms_sign_with_their_own_key() {
    let missing = signer_for_room(RoomId(1), &None);
    assert!(missing.is_err());
    let account = RoomChainAccount {
        address: "0x7e5f4552091a69125d5dfcb7b8c2659029395bdf".to_string(),
        private_key_hex: format!("{}1", "0".repeat(63)),
    };
    let (address, signer) = signer_for_room(RoomId(1), &Some(account)).expect("signer");
    assert_eq!(address, "0x7e5f4552091a69125d5dfcb7b8c2659029395bdf");
    assert_eq!(signer.to_hex(), format!("{}1", "0".repeat(63)));
    let faulty = RoomChainAccount {
        address: "0x7e5f4552091a69125d5dfcb7b8c2659029395bdf".to_string(),
        private_key_hex: "zz".to_string(),
    };
    assert!(signer_for_room(RoomId(1), &Some(faulty)).is_err());
}

// Documents.

#[test]
fn documents_are_put_in_order() {
    let value = object(vec![
        ("b", Json::Array(vec![object(vec![("z", Json::Null), ("a", Json::Bool(true))])])),
        ("a", Json::Number(JsonNumber::Negative(-3))),
    ]);
    let canonical = canonicalize_json(&value);
    assert_eq!(canonical.to_text(), r#"{"a":-3,"b":[{"a":true,"z":null}]}"#);
    assert_eq!(canonicalize_json(&canonical), canonical);
}

#[test]
fn texts_are_quoted() {
    let value = Json::Array(vec![text("a\"b\\c\n"), Json::Number(JsonNumber::Unsigned(7))]);
    assert_eq!(value.to_text(), r#"["a\"b\\c\n",7]"#);
    let controls = text("\u{8}\t\u{c}\r\u{0}\u{1f}\u{7f}/é");
    assert_eq!(controls.to_text(), "\"\\b\\t\\f\\r\\u0000\\u001f\u{7f}/é\"");
}

#[test]
fn different_documents_have_different_texts() {
    let one = Json::Number(JsonNumber::Unsigned(1));
    let documents = vec![
        Json::Null,
        text("null"),
        text("1"),
        one.clone(),
        Json::Number(JsonNumber::Negative(-1)),
        Json::Number(JsonNumber::Unsigned(11)),
        Json::Array(vec![]),
        Json::Array(vec![one.clone()]),
        Json::Array(vec![one.clone(), one.clone()]),
        Json::Array(vec![Json::Array(vec![one.clone()]), one.clone()]),
        object(vec![]),
        object(vec![("a", one.clone())]),
        object(vec![("a\":1,\"b", one.clone())]),
        object(vec![("a", one.clone()), ("b", one.clone())]),
    ];
    let texts: Vec<String> = documents.iter().map(|document| document.to_text()).collect();
    for i in 0..texts.len() {
        for j in 0..i {
            assert_ne!(texts[i], texts[j]);
        }
    }
}

#[test]
fn members_are_found() {
    let value = object(vec![("n", Json::Number(JsonNumber::Unsigned(7))), ("t", text("x"))]);
    assert_eq!(value.unsigned_at("n"), Some(7));
    assert_eq!(value.text_at("t"), Some("x"));
    assert_eq!(value.text_at("n"), None);
    assert_eq!(value.get("m"), None);
    assert!(Json::Null.is_null());
}

// Texts.

#[test]
fn numbers_read_back() {
    for n in [0_u128, 9, 10, 255, u128::MAX] {
        assert_eq!(decimal_text(n), n.to_string());
        assert_eq!(hex_number_text(n), format!("{n:x}"));
        assert_eq!(parse_number(&chars_of(&decimal_text(n)), 10, u128::MAX), Ok(n));
    }
    assert_eq!(signed_decimal_text(i64::MIN), i64::MIN.to_string());
    assert_eq!(parse_number(&chars_of("+7"), 10, 9), Ok(7));
    assert_eq!(parse_number(&chars_of(""), 10, 9), Err(NumberError::Empty));
    assert_eq!(parse_number(&chars_of("x"), 10, 9), Err(NumberError::InvalidDigit));
    assert_eq!(parse_number(&chars_of("10"), 10, 9), Err(NumberError::PosOverflow));
    assert_eq!(NumberError::InvalidDigit.message(), "invalid digit found in string");
}

#[test]
fn texts_are_trimmed_and_lowered() {
    assert_eq!(text_of(&trim(&chars_of(" \u{2003}a b\t\n"))), "a b");
    assert_eq!(text_of(&lower(&chars_of("AbC"))), "abc");
    assert_eq!(text_of(&strip_prefix(&chars_of("0x0x1"), "0x")), "0x1");
    assert_eq!(text_of(&strip_prefixes(&chars_of("0x0x1"), "0x")), "1");
    assert!(contains(&chars_of("abcd"), &chars_of("bc")));
    assert!(!contains(&chars_of("abcd"), &chars_of("cb")));
}

// Tables, pages and columns.

#[test]
fn the_last_write_counts() {
    let mut table: Table<u128, &str> = Table::new();
    table.upsert(1, "a");
    table.upsert(2, "b");
    table.upsert(1, "c");
    assert_eq!(table.len(), 2);
    assert_eq!(table.get(&1), Some(&"c"));
    assert_eq!(table.get(&2), Some(&"b"));
    assert_eq!(table.get(&3), None);
}

#[test]
fn pages_begin_at_the_front() {
    assert_eq!(PageRequest::default(), PageRequest { limit: 100, offset: 0 });
}

#[test]
fn columns_hold_what_fits() {
    assert_eq!(to_wide(u64::MAX), i64::MAX);
    assert_eq!(from_wide(to_wide(7)), 7);
    assert_eq!(from_wide(-1), 0);
    assert_eq!(to_middle(u32::MAX), i32::MAX);
    assert_eq!(from_middle(to_middle(7)), 7);
    assert_eq!(page_bound(5), 5);
    assert_eq!(seat_or_zero(300), 0);
    assert_eq!(seat_or_zero(8), 8);
    assert_eq!(optional_seat(optional_seat_column(Some(3))), Some(3));
    assert_eq!(optional_seat(Some(-1)), None);
    assert_eq!(optional_id(&optional_id_text(Some(5))), Some(5));
    assert_eq!(optional_id(&Some("x".to_string())), None);
}

#[test]
fn waits_double_up_to_the_cap() {
    let waits: Vec<u64> = (0..5).map(|attempt| capped_backoff_ms(100, 500, attempt)).collect();
    assert_eq!(waits, vec![100, 200, 400, 500, 500]);
}
