//! Which handlers of a data source a log, a call or a block wakes.
use vstd::prelude::*;

use crate::mapping::{MappingBlockHandler, MappingCallHandler, MappingEventHandler};
use crate::trigger::EthereumBlockTriggerType;
use crate::values::{Call, Log, H160, H256};
use vstd::utf8::encode_utf8;

verus! {

/// The Keccak-256 digest of a byte string.
pub uninterp spec fn keccak_of(b: Seq<u8>) -> Seq<u8>;

/// Relies on web3::signing::keccak256: the Keccak-256 digest of the bytes, a function
/// of the bytes alone.
#[verifier::external_body]
fn keccak256(bytes: &[u8]) -> (r: H256)
    ensures
        r.bytes@ == keccak_of(bytes@),
{
    H256 { bytes: web3::signing::keccak256(bytes) }
}

/// The first topic of the logs that an event handler is after: the one it declares,
/// else the digest of its event signature.
pub open spec fn handler_topic(h: MappingEventHandler) -> Seq<u8> {
    match h.topic0 {
        Some(t) => t.bytes@,
        None => keccak_of(encode_utf8(h.event@)),
    }
}

/// The selector of a function: the first four bytes of the digest of its signature.
pub open spec fn call_selector(h: MappingCallHandler) -> Seq<u8> {
    keccak_of(encode_utf8(h.function@)).subrange(0, 4)
}

/// A log comes from `address` and its first topic is `topic`.
pub open spec fn log_has_topic(topic: Seq<u8>, address: H160, log: Log) -> bool {
    &&& log.topics@.len() > 0
    &&& log.topics@[0].bytes@ == topic
    &&& log.address.bytes@ == address.bytes@
}

/// A call goes to `address` and its input starts with `selector`.
pub open spec fn call_has_selector(selector: Seq<u8>, address: H160, call: Call) -> bool {
    &&& call.input@.len() >= 4
    &&& call.input@.subrange(0, 4) == selector
    &&& call.to.bytes@ == address.bytes@
}

/// A block whose calls are `calls` passes the filter.
pub open spec fn filter_passes(filter: EthereumBlockTriggerType, calls: Seq<Call>) -> bool {
    match filter {
        EthereumBlockTriggerType::Every => true,
        EthereumBlockTriggerType::WithCallTo(a) => exists|i: int|
            0 <= i < calls.len() && (#[trigger] calls[i]).to.bytes@ == a.bytes@,
    }
}

/// The positions, in registration order, of the first `n` event handlers that match a log.
pub open spec fn matching_event_handlers(
    hs: Seq<MappingEventHandler>,
    address: H160,
    log: Log,
    n: int,
) -> Seq<usize>
    decreases n,
{
    if n <= 0 {
        Seq::empty()
    } else {
        let earlier = matching_event_handlers(hs, address, log, n - 1);
        if log_has_topic(handler_topic(hs[n - 1]), address, log) {
            earlier.push((n - 1) as usize)
        } else {
            earlier
        }
    }
}

/// The positions, in registration order, of the first `n` call handlers that match a call.
pub open spec fn matching_call_handlers(
    hs: Seq<MappingCallHandler>,
    address: H160,
    call: Call,
    n: int,
) -> Seq<usize>
    decreases n,
{
    if n <= 0 {
        Seq::empty()
    } else {
        let earlier = matching_call_handlers(hs, address, call, n - 1);
        if call_has_selector(call_selector(hs[n - 1]), address, call) {
            earlier.push((n - 1) as usize)
        } else {
            earlier
        }
    }
}

/// The positions, in registration order, of the first `n` block handlers whose filter a
/// block with `calls` passes.
pub open spec fn matching_block_handlers(
    hs: Seq<MappingBlockHandler>,
    calls: Seq<Call>,
    n: int,
) -> Seq<usize>
    decreases n,
{
    if n <= 0 {
        Seq::empty()
    } else {
        let earlier = matching_block_handlers(hs, calls, n - 1);
        if filter_passes(hs[n - 1].filter, calls) {
            earlier.push((n - 1) as usize)
        } else {
            earlier
        }
    }
}

/// Whether a log comes from `address` with `topic` as its first topic.
pub fn log_matches_topic(topic: &H256, address: &H160, log: &Log) -> (r: bool)
    ensures
        r == log_has_topic(topic.bytes@, *address, *log),
{
    log.topics.len() > 0 && log.topics[0] == *topic && log.address == *address
}

/// Whether a call goes to `address` and its input starts with the first four bytes of
/// `digest`.
pub fn call_matches_digest(digest: &H256, address: &H160, call: &Call) -> (r: bool)
    ensures
        r == call_has_selector(digest.bytes@.subrange(0, 4), *address, *call),
{
    if call.input.len() < 4 || !(call.to == *address) {
        return false;
    }
    let mut i: usize = 0;
    while i < 4
        invariant
            call.input@.len() >= 4,
            0 <= i <= 4,
            forall|k: int| 0 <= k < i ==> call.input@[k] == digest.bytes@[k],
        decreases 4 - i,
    {
        if call.input[i] != digest.bytes[i] {
            assert(call.input@.subrange(0, 4)[i as int] != digest.bytes@.subrange(0, 4)[i as int]);
            return false;
        }
        i = i + 1;
    }
    assert(call.input@.subrange(0, 4) =~= digest.bytes@.subrange(0, 4));
    true
}

/// Whether a block whose calls are `calls` passes a block handler's filter: every block
/// passes `Every`; `WithCallTo(a)` asks for a call to `a`.
pub fn block_filter_matches(filter: &EthereumBlockTriggerType, calls: &Vec<Call>) -> (r: bool)
    ensures
        r == filter_passes(*filter, calls@),
{
    match filter {
        EthereumBlockTriggerType::Every => true,
        EthereumBlockTriggerType::WithCallTo(a) => {
            let mut i: usize = 0;
            while i < calls.len()
                invariant
                    *filter == EthereumBlockTriggerType::WithCallTo(*a),
                    0 <= i <= calls@.len(),
                    forall|k: int| 0 <= k < i ==> (#[trigger] calls@[k]).to.bytes@ != a.bytes@,
                decreases calls@.len() - i,
            {
                if calls[i].to == *a {
                    assert((#[trigger] calls@[i as int]).to.bytes@ == a.bytes@);
                    return true;
                }
                i = i + 1;
            }
            false
        },
    }
}

/// The event handlers of the data source at `address` that a log wakes, by position in
/// registration order.
pub fn match_log(handlers: &Vec<MappingEventHandler>, address: &H160, log: &Log) -> (r: Vec<
    usize,
>)
    ensures
        r@ == matching_event_handlers(handlers@, *address, *log, handlers@.len() as int),
{
    let mut r: Vec<usize> = Vec::new();
    let mut i: usize = 0;
    while i < handlers.len()
        invariant
            0 <= i <= handlers@.len(),
            r@ == matching_event_handlers(handlers@, *address, *log, i as int),
        decreases handlers@.len() - i,
    {
        let h = &handlers[i];
        let topic = match &h.topic0 {
            Some(t) => *t,
            None => keccak256(h.event.as_str().as_bytes()),
        };
        if log_matches_topic(&topic, address, log) {
            r.push(i);
        }
        i = i + 1;
    }
    r
}

/// The call handlers of the data source at `address` that a call wakes, by position in
/// registration order.
pub fn match_call(handlers: &Vec<MappingCallHandler>, address: &H160, call: &Call) -> (r: Vec<
    usize,
>)
    ensures
        r@ == matching_call_handlers(handlers@, *address, *call, handlers@.len() as int),
{
    let mut r: Vec<usize> = Vec::new();
    let mut i: usize = 0;
    while i < handlers.len()
        invariant
            0 <= i <= handlers@.len(),
            r@ == matching_call_handlers(handlers@, *address, *call, i as int),
        decreases handlers@.len() - i,
    {
        let digest = keccak256(handlers[i].function.as_str().as_bytes());
        if call_matches_digest(&digest, address, call) {
            r.push(i);
        }
        i = i + 1;
    }
    r
}

/// The block handlers whose filter a block with `calls` passes, by position in
/// registration order.
pub fn match_block(handlers: &Vec<MappingBlockHandler>, calls: &Vec<Call>) -> (r: Vec<usize>)
    ensures
        r@ == matching_block_handlers(handlers@, calls@, handlers@.len() as int),
{
    let mut r: Vec<usize> = Vec::new();
    let mut i: usize = 0;
    while i < handlers.len()
        invariant
            0 <= i <= handlers@.len(),
            r@ == matching_block_handlers(handlers@, calls@, i as int),
        decreases handlers@.len() - i,
    {
        if block_filter_matches(&handlers[i].filter, calls) {
            r.push(i);
        }
        i = i + 1;
    }
    r
}

} // verus!
