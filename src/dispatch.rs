//! Collecting the triggers of one block that some handler of a data source asks for,
//! in the order they are dispatched.
use vstd::prelude::*;

use crate::mapping::{MappingBlockHandler, MappingCallHandler, MappingEventHandler};
use crate::matching::{
    match_block, match_call, match_log, matching_block_handlers, matching_call_handlers,
    matching_event_handlers,
};
use crate::order::{sort_triggers, sorted_triggers};
use crate::trigger::{BlockPtr, EthereumTrigger};
use crate::values::{Call, Log, H160};

verus! {

/// The log triggers of the first `n` logs: one for each log that an event handler matches.
pub open spec fn log_triggers(
    logs: Seq<Log>,
    hs: Seq<MappingEventHandler>,
    address: H160,
    n: int,
) -> Seq<EthereumTrigger>
    decreases n,
{
    if n <= 0 {
        Seq::empty()
    } else {
        let earlier = log_triggers(logs, hs, address, n - 1);
        if matching_event_handlers(hs, address, logs[n - 1], hs.len() as int).len() > 0 {
            earlier.push(EthereumTrigger::Log(logs[n - 1]))
        } else {
            earlier
        }
    }
}

/// The call triggers of the first `n` calls: one for each call that a call handler matches.
pub open spec fn call_triggers(
    calls: Seq<Call>,
    hs: Seq<MappingCallHandler>,
    address: H160,
    n: int,
) -> Seq<EthereumTrigger>
    decreases n,
{
    if n <= 0 {
        Seq::empty()
    } else {
        let earlier = call_triggers(calls, hs, address, n - 1);
        if matching_call_handlers(hs, address, calls[n - 1], hs.len() as int).len() > 0 {
            earlier.push(EthereumTrigger::Call(calls[n - 1]))
        } else {
            earlier
        }
    }
}

/// The block triggers for the handlers at positions `matched`.
pub open spec fn block_triggers(
    ptr: BlockPtr,
    hs: Seq<MappingBlockHandler>,
    matched: Seq<usize>,
) -> Seq<EthereumTrigger> {
    Seq::new(matched.len(), |i: int| EthereumTrigger::Block(ptr, hs[matched[i] as int].filter))
}

/// Every trigger of a block that a handler asks for, before sorting: matched logs, then
/// matched calls, then one block trigger for each block handler whose filter the block passes.
pub open spec fn block_trigger_set(
    ptr: BlockPtr,
    logs: Seq<Log>,
    calls: Seq<Call>,
    address: H160,
    event_handlers: Seq<MappingEventHandler>,
    call_handlers: Seq<MappingCallHandler>,
    block_handlers: Seq<MappingBlockHandler>,
) -> Seq<EthereumTrigger> {
    log_triggers(logs, event_handlers, address, logs.len() as int) + call_triggers(
        calls,
        call_handlers,
        address,
        calls.len() as int,
    ) + block_triggers(
        ptr,
        block_handlers,
        matching_block_handlers(block_handlers, calls, block_handlers.len() as int),
    )
}

/// Collecting the triggers of the same block twice, with the same handlers, yields the
/// same triggers in the same order.
pub proof fn lemma_collection_replays(
    ptr: BlockPtr,
    logs: Seq<Log>,
    calls: Seq<Call>,
    address: H160,
    event_handlers: Seq<MappingEventHandler>,
    call_handlers: Seq<MappingCallHandler>,
    block_handlers: Seq<MappingBlockHandler>,
    r1: Seq<EthereumTrigger>,
    r2: Seq<EthereumTrigger>,
)
    requires
        r1 == sorted_triggers(
            block_trigger_set(ptr, logs, calls, address, event_handlers, call_handlers, block_handlers),
        ),
        r2 == sorted_triggers(
            block_trigger_set(ptr, logs, calls, address, event_handlers, call_handlers, block_handlers),
        ),
    ensures
        r1 == r2,
{
}

proof fn lemma_matched_in_range(hs: Seq<MappingBlockHandler>, calls: Seq<Call>, n: int)
    requires
        0 <= n <= hs.len() <= usize::MAX,
    ensures
        forall|k: int|
            0 <= k < matching_block_handlers(hs, calls, n).len() ==> (#[trigger] matching_block_handlers(
                hs,
                calls,
                n,
            )[k]) < n,
    decreases n,
{
    if n > 0 {
        lemma_matched_in_range(hs, calls, n - 1);
        let earlier = matching_block_handlers(hs, calls, n - 1);
        assert(((n - 1) as usize) as int == n - 1);
        if crate::matching::filter_passes(hs[n - 1].filter, calls) {
            assert(matching_block_handlers(hs, calls, n) == earlier.push((n - 1) as usize));
        }
    }
}

fn collect_logs(
    logs: Vec<Log>,
    address: &H160,
    handlers: &Vec<MappingEventHandler>,
    out: &mut Vec<EthereumTrigger>,
)
    requires
        forall|i: int| 0 <= i < logs@.len() ==> (#[trigger] logs@[i]).well_formed(),
        forall|i: int| 0 <= i < old(out)@.len() ==> (#[trigger] old(out)@[i]).well_formed(),
    ensures
        final(out)@ == old(out)@ + log_triggers(logs@, handlers@, *address, logs@.len() as int),
        forall|i: int| 0 <= i < final(out)@.len() ==> (#[trigger] final(out)@[i]).well_formed(),
{
    let ghost all = logs@;
    let ghost start = out@;
    let mut rest = logs;
    let ghost mut n: int = 0;
    assert(all.skip(0) =~= all);
    assert(start + Seq::<EthereumTrigger>::empty() =~= start);
    while rest.len() > 0
        invariant
            0 <= n <= all.len(),
            rest@ == all.skip(n),
            out@ == start + log_triggers(all, handlers@, *address, n),
            forall|i: int| 0 <= i < all.len() ==> (#[trigger] all[i]).well_formed(),
            forall|i: int| 0 <= i < out@.len() ==> (#[trigger] out@[i]).well_formed(),
        decreases rest@.len(),
    {
        let log = rest.remove(0);
        proof {
            assert(log == all[n]);
            assert(all.skip(n + 1) =~= all.skip(n).remove(0));
        }
        let matched = match_log(handlers, address, &log);
        if matched.len() > 0 {
            out.push(EthereumTrigger::Log(log));
            proof {
                assert(start + log_triggers(all, handlers@, *address, n + 1) =~= (start
                    + log_triggers(all, handlers@, *address, n)).push(EthereumTrigger::Log(all[n])));
            }
        }
        proof {
            n = n + 1;
        }
    }
    assert(all.skip(n).len() == 0);
}

fn collect_calls(
    calls: Vec<Call>,
    address: &H160,
    handlers: &Vec<MappingCallHandler>,
    out: &mut Vec<EthereumTrigger>,
)
    requires
        forall|i: int| 0 <= i < old(out)@.len() ==> (#[trigger] old(out)@[i]).well_formed(),
    ensures
        final(out)@ == old(out)@ + call_triggers(calls@, handlers@, *address, calls@.len() as int),
        forall|i: int| 0 <= i < final(out)@.len() ==> (#[trigger] final(out)@[i]).well_formed(),
{
    let ghost all = calls@;
    let ghost start = out@;
    let mut rest = calls;
    let ghost mut n: int = 0;
    assert(all.skip(0) =~= all);
    assert(start + Seq::<EthereumTrigger>::empty() =~= start);
    while rest.len() > 0
        invariant
            0 <= n <= all.len(),
            rest@ == all.skip(n),
            out@ == start + call_triggers(all, handlers@, *address, n),
            forall|i: int| 0 <= i < out@.len() ==> (#[trigger] out@[i]).well_formed(),
        decreases rest@.len(),
    {
        let call = rest.remove(0);
        proof {
            assert(call == all[n]);
            assert(all.skip(n + 1) =~= all.skip(n).remove(0));
        }
        let matched = match_call(handlers, address, &call);
        if matched.len() > 0 {
            out.push(EthereumTrigger::Call(call));
            proof {
                assert(start + call_triggers(all, handlers@, *address, n + 1) =~= (start
                    + call_triggers(all, handlers@, *address, n)).push(
                    EthereumTrigger::Call(all[n]),
                ));
            }
        }
        proof {
            n = n + 1;
        }
    }
    assert(all.skip(n).len() == 0);
}

/// The triggers of one block that the handlers of the data source at `address` ask for,
/// sorted into dispatch order.
pub fn collect_triggers(
    ptr: BlockPtr,
    logs: Vec<Log>,
    calls: Vec<Call>,
    address: &H160,
    event_handlers: &Vec<MappingEventHandler>,
    call_handlers: &Vec<MappingCallHandler>,
    block_handlers: &Vec<MappingBlockHandler>,
) -> (r: Vec<EthereumTrigger>)
    requires
        forall|i: int| 0 <= i < logs@.len() ==> (#[trigger] logs@[i]).well_formed(),
    ensures
        r@ == sorted_triggers(
            block_trigger_set(
                ptr,
                logs@,
                calls@,
                *address,
                event_handlers@,
                call_handlers@,
                block_handlers@,
            ),
        ),
{
    let matched = match_block(block_handlers, &calls);
    let handler_count = block_handlers.len();
    proof {
        lemma_matched_in_range(block_handlers@, calls@, handler_count as int);
    }
    let ghost calls_seq = calls@;
    let mut out: Vec<EthereumTrigger> = Vec::new();
    collect_logs(logs, address, event_handlers, &mut out);
    collect_calls(calls, address, call_handlers, &mut out);
    let ghost before_blocks = out@;
    let mut i: usize = 0;
    while i < matched.len()
        invariant
            0 <= i <= matched@.len(),
            forall|k: int| 0 <= k < matched@.len() ==> matched@[k] < block_handlers@.len(),
            out@ == before_blocks + block_triggers(ptr, block_handlers@, matched@.take(i as int)),
            forall|k: int| 0 <= k < out@.len() ==> (#[trigger] out@[k]).well_formed(),
        decreases matched@.len() - i,
    {
        let filter = block_handlers[matched[i]].filter;
        out.push(EthereumTrigger::Block(ptr, filter));
        i = i + 1;
        assert(block_triggers(ptr, block_handlers@, matched@.take(i as int)) =~= block_triggers(
            ptr,
            block_handlers@,
            matched@.take(i - 1),
        ).push(EthereumTrigger::Block(ptr, filter)));
    }
    assert(matched@.take(matched@.len() as int) =~= matched@);
    sort_triggers(out)
}

} // verus!
