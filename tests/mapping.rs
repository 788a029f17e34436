use eth_triggers::guest::{
    ApiVersion, DeterministicHostError, EthereumBlockData, EthereumTransactionData, GuestTrigger,
};
use eth_triggers::mapping::{
    MappingBlockHandler, MappingCallHandler, MappingEventHandler, MappingTrigger,
    MappingTriggerWithoutBlock,
};
use eth_triggers::matching::{
    block_filter_matches, call_matches_digest, log_matches_topic, match_block, match_call,
    match_log,
};
use eth_triggers::trigger::EthereumBlockTriggerType;
use eth_triggers::values::{AbiValue, Block, Call, Log, Param, Transaction, H160, H256, U256};

fn h256(fill: u8) -> H256 {
    H256 { bytes: [fill; 32] }
}

fn h160(fill: u8) -> H160 {
    H160 { bytes: [fill; 20] }
}

fn hex_bytes(s: &str) -> Vec<u8> {
    (0..s.len() / 2)
        .map(|i| u8::from_str_radix(&s[2 * i..2 * i + 2], 16).unwrap())
        .collect()
}

fn block() -> Block {
    Block {
        hash: Some(h256(0xb1)),
        parent_hash: h256(0xb0),
        uncles_hash: h256(0x0c),
        author: h160(0xaa),
        state_root: h256(0x51),
        transactions_root: h256(0x52),
        receipts_root: h256(0x53),
        number: Some(1000),
        gas_used: U256::from_u128(21_000),
        gas_limit: U256::from_u128(8_000_000),
        timestamp: U256::from_u128(1_600_000_000),
        difficulty: U256::from_u128(7),
        total_difficulty: None,
        size: Some(U256::from_u128(512)),
        transactions: vec![],
    }
}

fn transaction() -> Transaction {
    Transaction {
        hash: h256(0x7a),
        transaction_index: Some(3),
        from: h160(0x01),
        to: Some(h160(0x02)),
        value: U256::from_u128(5),
        gas: U256::from_u128(90_000),
        gas_price: U256::from_u128(20),
        input: vec![0xa9, 0x05, 0x9c, 0xbb],
    }
}

fn log(log_index: Option<U256>) -> Log {
    Log {
        address: h160(0x02),
        topics: vec![h256(0x33)],
        data: vec![],
        block_hash: Some(h256(0xb1)),
        block_number: Some(1000),
        transaction_hash: Some(h256(0x7a)),
        transaction_index: Some(3),
        log_index,
        log_type: Some("mined".to_string()),
    }
}

fn call() -> Call {
    Call {
        from: h160(0x01),
        to: h160(0x02),
        block_number: 1000,
        block_hash: h256(0xb1),
        transaction_hash: Some(h256(0x7a)),
        transaction_index: 3,
        input: vec![0xa9, 0x05, 0x9c, 0xbb, 0, 0],
        output: vec![1],
    }
}

fn param(name: &str, v: u128) -> Param {
    Param { name: name.to_string(), value: AbiValue::Uint(U256::from_u128(v)) }
}

fn event_handler() -> MappingEventHandler {
    MappingEventHandler {
        event: "Transfer(address,address,uint256)".to_string(),
        topic0: None,
        handler: "handleTransfer".to_string(),
    }
}

fn call_handler() -> MappingCallHandler {
    MappingCallHandler {
        function: "transfer(address,uint256)".to_string(),
        handler: "handleCall".to_string(),
    }
}

fn log_trigger(log_index: Option<U256>) -> MappingTrigger {
    MappingTrigger::Log {
        block: block(),
        transaction: transaction(),
        log: log(log_index),
        params: vec![param("value", 10), param("other", 11)],
        handler: event_handler(),
    }
}

fn call_trigger() -> MappingTrigger {
    MappingTrigger::Call {
        block: block(),
        transaction: transaction(),
        call: call(),
        inputs: vec![param("amount", 4)],
        outputs: vec![param("ok", 1)],
        handler: call_handler(),
    }
}

fn block_trigger() -> MappingTrigger {
    MappingTrigger::Block {
        block: block(),
        handler: MappingBlockHandler {
            handler: "handleBlock".to_string(),
            filter: EthereumBlockTriggerType::Every,
        },
    }
}

fn v(major: u64, minor: u64, patch: u64) -> ApiVersion {
    ApiVersion { major, minor, patch }
}

#[test]
fn log_projection_at_0_0_1_uses_the_old_transaction_layout() {
    let g = log_trigger(Some(U256::from_u128(4))).to_guest(&v(0, 0, 1)).unwrap();
    match g {
        GuestTrigger::EventV0_0_1(e) => {
            assert!(e.address == h160(0x02));
            assert!(e.log_index == U256::from_u128(4));
            assert_eq!(e.log_type.as_deref(), Some("mined"));
            assert_eq!(e.params.len(), 2);
            assert_eq!(e.params[0].name, "value");
            assert_eq!(e.params[1].name, "other");
        }
        other => panic!("unexpected layout {:?}", other),
    }
}

#[test]
fn log_projection_from_0_0_2_on_uses_the_new_transaction_layout() {
    for version in [v(0, 0, 2), v(0, 0, 5), v(0, 1, 0), v(1, 0, 0)] {
        let g = log_trigger(Some(U256::from_u128(4))).to_guest(&version).unwrap();
        match g {
            GuestTrigger::EventV0_0_2(e) => {
                assert_eq!(e.transaction.index, 3);
                assert!(e.transaction.from == h160(0x01));
            }
            other => panic!("unexpected layout {:?}", other),
        }
    }
}

#[test]
fn call_projection_at_0_0_3_carries_outputs() {
    match call_trigger().to_guest(&v(0, 0, 3)).unwrap() {
        GuestTrigger::CallV0_0_3(c) => {
            assert_eq!(c.inputs.len(), 1);
            assert_eq!(c.outputs.len(), 1);
            assert_eq!(c.outputs[0].name, "ok");
            assert!(c.to == h160(0x02));
            assert!(c.from == h160(0x01));
        }
        other => panic!("unexpected layout {:?}", other),
    }
    match call_trigger().to_guest(&v(0, 0, 2)).unwrap() {
        GuestTrigger::CallLegacy(c) => assert_eq!(c.inputs[0].name, "amount"),
        other => panic!("unexpected layout {:?}", other),
    }
}

#[test]
fn block_projection_is_the_same_for_every_version() {
    for version in [v(0, 0, 1), v(0, 0, 3), v(2, 0, 0)] {
        match block_trigger().to_guest(&version).unwrap() {
            GuestTrigger::Block(b) => {
                assert_eq!(b.number, 1000);
                assert!(b.hash == h256(0xb1));
                assert!(b.total_difficulty == U256::zero());
                assert!(b.size == Some(U256::from_u128(512)));
            }
            other => panic!("unexpected layout {:?}", other),
        }
    }
}

#[test]
fn missing_log_index_reads_as_zero_twice() {
    match log_trigger(None).to_guest(&v(0, 0, 2)).unwrap() {
        GuestTrigger::EventV0_0_2(e) => {
            assert!(e.log_index == U256::zero());
            assert!(e.transaction_log_index == U256::zero());
        }
        other => panic!("unexpected layout {:?}", other),
    }
}

#[test]
fn present_log_index_fills_both_fields() {
    let index = U256 { hi: 1, lo: 9 };
    match log_trigger(Some(index)).to_guest(&v(0, 0, 2)).unwrap() {
        GuestTrigger::EventV0_0_2(e) => {
            assert!(e.log_index == index);
            assert!(e.transaction_log_index == index);
        }
        other => panic!("unexpected layout {:?}", other),
    }
}

#[test]
fn projecting_twice_gives_the_same_records() {
    let a = format!("{:?}", log_trigger(Some(U256::from_u128(4))).to_guest(&v(0, 0, 2)));
    let b = format!("{:?}", log_trigger(Some(U256::from_u128(4))).to_guest(&v(0, 0, 2)));
    assert_eq!(a, b);
    let a = format!("{:?}", call_trigger().to_guest(&v(0, 0, 3)));
    let b = format!("{:?}", call_trigger().to_guest(&v(0, 0, 3)));
    assert_eq!(a, b);
}

#[test]
fn projection_fails_on_missing_fields() {
    let mut b = block();
    b.hash = None;
    let t = MappingTrigger::Block {
        block: b,
        handler: MappingBlockHandler { handler: "h".to_string(), filter: EthereumBlockTriggerType::Every },
    };
    assert_eq!(t.to_guest(&v(0, 0, 3)).unwrap_err(), DeterministicHostError::MissingBlockHash);
    let mut b = block();
    b.number = None;
    let t = MappingTrigger::Call {
        block: b,
        transaction: transaction(),
        call: call(),
        inputs: vec![],
        outputs: vec![],
        handler: call_handler(),
    };
    assert_eq!(t.to_guest(&v(0, 0, 3)).unwrap_err(), DeterministicHostError::MissingBlockNumber);
    let mut tx = transaction();
    tx.transaction_index = None;
    let t = MappingTrigger::Log {
        block: block(),
        transaction: tx,
        log: log(None),
        params: vec![],
        handler: event_handler(),
    };
    assert_eq!(
        t.to_guest(&v(0, 0, 2)).unwrap_err(),
        DeterministicHostError::MissingTransactionIndex
    );
}

#[test]
fn block_and_transaction_data_copy_their_sources() {
    let mut b = block();
    b.total_difficulty = Some(U256::from_u128(77));
    let d = EthereumBlockData::from_block(&b);
    assert!(d.total_difficulty == U256::from_u128(77));
    assert!(d.parent_hash == h256(0xb0));
    assert!(d.author == h160(0xaa));
    assert!(d.gas_limit == U256::from_u128(8_000_000));
    let t = EthereumTransactionData::from_transaction(transaction());
    assert_eq!(t.index, 3);
    assert!(t.hash == h256(0x7a));
    assert!(t.gas_limit == U256::from_u128(90_000));
    assert!(t.gas_price == U256::from_u128(20));
    assert_eq!(t.input, vec![0xa9, 0x05, 0x9c, 0xbb]);
}

#[test]
fn handler_names() {
    assert_eq!(log_trigger(None).handler_name(), "handleTransfer");
    assert_eq!(call_trigger().handler_name(), "handleCall");
    assert_eq!(block_trigger().handler_name(), "handleBlock");
}

#[test]
fn logging_extras_of_each_kind() {
    let extras = log_trigger(None).logging_extras();
    assert_eq!(
        extras,
        vec![
            ("signature".to_string(), "Transfer(address,address,uint256)".to_string()),
            ("address".to_string(), "0x0202\u{2026}0202".to_string()),
        ]
    );
    let extras = call_trigger().logging_extras();
    assert_eq!(
        extras,
        vec![
            ("function".to_string(), "transfer(address,uint256)".to_string()),
            ("to".to_string(), "0x0202\u{2026}0202".to_string()),
        ]
    );
    assert!(block_trigger().logging_extras().is_empty());
}

#[test]
fn debug_form_leaves_the_block_out() {
    let t = log_trigger(None);
    match t.without_block() {
        MappingTriggerWithoutBlock::Log { params, handler, .. } => {
            assert_eq!(params.len(), 2);
            assert_eq!(handler.handler, "handleTransfer");
        }
        _ => panic!("wrong kind"),
    }
    let text = format!("{:?}", t.without_block());
    assert!(!text.contains("parent_hash"));
    match block_trigger().without_block() {
        MappingTriggerWithoutBlock::Block { handler } => assert_eq!(handler.handler, "handleBlock"),
        _ => panic!("wrong kind"),
    }
}

#[test]
fn event_handlers_match_by_signature_digest_and_address() {
    let transfer_topic =
        hex_bytes("ddf252ad1be2c89b69c2b068fc378daa952ba7f163c4a11628f55a4df523b3ef");
    let mut l = log(None);
    l.topics = vec![H256 { bytes: transfer_topic.clone().try_into().unwrap() }];
    let other = MappingEventHandler {
        event: "Approval(address,address,uint256)".to_string(),
        topic0: None,
        handler: "handleApproval".to_string(),
    };
    let declared = MappingEventHandler {
        event: "Anything()".to_string(),
        topic0: Some(H256 { bytes: transfer_topic.try_into().unwrap() }),
        handler: "handleDeclared".to_string(),
    };
    let handlers = vec![event_handler(), other, declared];
    assert_eq!(match_log(&handlers, &h160(0x02), &l), vec![0, 2]);
    assert_eq!(match_log(&handlers, &h160(0x03), &l), Vec::<usize>::new());
    l.topics = vec![];
    assert_eq!(match_log(&handlers, &h160(0x02), &l), Vec::<usize>::new());
}

#[test]
fn call_handlers_match_by_selector_and_address() {
    let handlers = vec![
        call_handler(),
        MappingCallHandler {
            function: "approve(address,uint256)".to_string(),
            handler: "handleApprove".to_string(),
        },
    ];
    assert_eq!(match_call(&handlers, &h160(0x02), &call()), vec![0]);
    assert_eq!(match_call(&handlers, &h160(0x09), &call()), Vec::<usize>::new());
    let mut short = call();
    short.input = vec![0xa9, 0x05];
    assert_eq!(match_call(&handlers, &h160(0x02), &short), Vec::<usize>::new());
}

#[test]
fn topic_and_digest_checks() {
    let mut l = log(None);
    l.topics = vec![h256(0x44), h256(0x55)];
    assert!(log_matches_topic(&h256(0x44), &h160(0x02), &l));
    assert!(!log_matches_topic(&h256(0x55), &h160(0x02), &l));
    let mut digest = [0u8; 32];
    digest[..4].copy_from_slice(&[0xa9, 0x05, 0x9c, 0xbb]);
    assert!(call_matches_digest(&H256 { bytes: digest }, &h160(0x02), &call()));
    digest[3] = 0;
    assert!(!call_matches_digest(&H256 { bytes: digest }, &h160(0x02), &call()));
}

#[test]
fn block_handlers_match_by_filter() {
    let handlers = vec![
        MappingBlockHandler { handler: "every".to_string(), filter: EthereumBlockTriggerType::Every },
        MappingBlockHandler {
            handler: "toTwo".to_string(),
            filter: EthereumBlockTriggerType::WithCallTo(h160(0x02)),
        },
        MappingBlockHandler {
            handler: "toNine".to_string(),
            filter: EthereumBlockTriggerType::WithCallTo(h160(0x09)),
        },
    ];
    assert_eq!(match_block(&handlers, &vec![call()]), vec![0, 1]);
    assert_eq!(match_block(&handlers, &vec![]), vec![0]);
    assert!(block_filter_matches(&EthereumBlockTriggerType::Every, &vec![]));
    assert!(!block_filter_matches(&EthereumBlockTriggerType::WithCallTo(h160(0x02)), &vec![]));
}
