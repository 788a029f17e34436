use eth_triggers::dispatch::collect_triggers;
use eth_triggers::mapping::{MappingBlockHandler, MappingCallHandler, MappingEventHandler};
use eth_triggers::trigger::{BlockPtr, EthereumBlockTriggerType, EthereumTrigger};
use eth_triggers::values::{Call, Log, H160, H256, U256};

fn h256(fill: u8) -> H256 {
    H256 { bytes: [fill; 32] }
}

fn h160(fill: u8) -> H160 {
    H160 { bytes: [fill; 20] }
}

fn topic(hex: &str) -> H256 {
    let bytes: Vec<u8> = (0..32)
        .map(|i| u8::from_str_radix(&hex[2 * i..2 * i + 2], 16).unwrap())
        .collect();
    H256 { bytes: bytes.try_into().unwrap() }
}

fn transfer_log(address: H160, tx: u64, index: u128) -> Log {
    Log {
        address,
        topics: vec![topic("ddf252ad1be2c89b69c2b068fc378daa952ba7f163c4a11628f55a4df523b3ef")],
        data: vec![],
        block_hash: Some(h256(0xb1)),
        block_number: Some(10),
        transaction_hash: Some(h256(tx as u8)),
        transaction_index: Some(tx),
        log_index: Some(U256::from_u128(index)),
        log_type: None,
    }
}

fn transfer_call(to: H160, tx: u64) -> Call {
    Call {
        from: h160(0x01),
        to,
        block_number: 10,
        block_hash: h256(0xb1),
        transaction_hash: Some(h256(tx as u8)),
        transaction_index: tx,
        input: vec![0xa9, 0x05, 0x9c, 0xbb],
        output: vec![],
    }
}

fn describe(t: &EthereumTrigger) -> String {
    match t {
        EthereumTrigger::Log(l) => format!(
            "log(tx={},log={})",
            l.transaction_index.unwrap(),
            l.log_index.unwrap().lo
        ),
        EthereumTrigger::Call(c) => format!("call(tx={})", c.transaction_index),
        EthereumTrigger::Block(_, EthereumBlockTriggerType::Every) => "block(every)".to_string(),
        EthereumTrigger::Block(_, EthereumBlockTriggerType::WithCallTo(_)) => {
            "block(call)".to_string()
        }
    }
}

#[test]
fn collects_matched_triggers_in_dispatch_order() {
    let contract = h160(0x02);
    let logs = vec![
        transfer_log(contract, 1, 4),
        transfer_log(h160(0x09), 1, 5),
        transfer_log(contract, 0, 2),
    ];
    let calls = vec![transfer_call(contract, 1), transfer_call(h160(0x09), 0)];
    let event_handlers = vec![MappingEventHandler {
        event: "Transfer(address,address,uint256)".to_string(),
        topic0: None,
        handler: "handleTransfer".to_string(),
    }];
    let call_handlers = vec![MappingCallHandler {
        function: "transfer(address,uint256)".to_string(),
        handler: "handleCall".to_string(),
    }];
    let block_handlers = vec![
        MappingBlockHandler {
            handler: "onCall".to_string(),
            filter: EthereumBlockTriggerType::WithCallTo(contract),
        },
        MappingBlockHandler {
            handler: "onMissing".to_string(),
            filter: EthereumBlockTriggerType::WithCallTo(h160(0x44)),
        },
        MappingBlockHandler { handler: "every".to_string(), filter: EthereumBlockTriggerType::Every },
    ];
    let triggers = collect_triggers(
        BlockPtr { hash: h256(0xb1), number: 10 },
        logs,
        calls,
        &contract,
        &event_handlers,
        &call_handlers,
        &block_handlers,
    );
    let names: Vec<String> = triggers.iter().map(describe).collect();
    assert_eq!(
        names,
        vec!["log(tx=0,log=2)", "log(tx=1,log=4)", "call(tx=1)", "block(call)", "block(every)"]
    );
}

#[test]
fn a_block_without_handlers_has_no_triggers() {
    let triggers = collect_triggers(
        BlockPtr { hash: h256(0xb1), number: 10 },
        vec![transfer_log(h160(0x02), 0, 0)],
        vec![transfer_call(h160(0x02), 0)],
        &h160(0x02),
        &vec![],
        &vec![],
        &vec![],
    );
    assert!(triggers.is_empty());
}
