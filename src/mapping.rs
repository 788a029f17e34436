//! Mapping triggers: a trigger joined with the handler it wakes and the parameters
//! decoded for it, and their projection into the records that guest handlers read.
use vstd::prelude::*;

use crate::text::{h160_short, short_hex_of};
use crate::trigger::EthereumBlockTriggerType;
use crate::values::{Block, Call, Log, Param, Transaction, H256};

verus! {

/// A handler bound to an event of a contract.
#[derive(Clone, Debug)]
pub struct MappingEventHandler {
    /// The event's signature, as the manifest declares it.
    pub event: String,
    pub topic0: Option<H256>,
    /// The guest function to invoke.
    pub handler: String,
}

/// A handler bound to a function of a contract.
#[derive(Clone, Debug)]
pub struct MappingCallHandler {
    /// The function's signature, as the manifest declares it.
    pub function: String,
    /// The guest function to invoke.
    pub handler: String,
}

/// A handler bound to blocks.
#[derive(Clone, Debug)]
pub struct MappingBlockHandler {
    /// The guest function to invoke.
    pub handler: String,
    pub filter: EthereumBlockTriggerType,
}

/// A trigger resolved against its handler: what is handed to the guest.
#[derive(Debug)]
pub enum MappingTrigger {
    Log {
        block: Block,
        transaction: Transaction,
        log: Log,
        params: Vec<Param>,
        handler: MappingEventHandler,
    },
    Call {
        block: Block,
        transaction: Transaction,
        call: Call,
        inputs: Vec<Param>,
        outputs: Vec<Param>,
        handler: MappingCallHandler,
    },
    Block { block: Block, handler: MappingBlockHandler },
}

/// A mapping trigger without its block, which is too bulky to log.
#[derive(Debug)]
pub enum MappingTriggerWithoutBlock<'a> {
    Log {
        transaction: &'a Transaction,
        log: &'a Log,
        params: &'a Vec<Param>,
        handler: &'a MappingEventHandler,
    },
    Call {
        transaction: &'a Transaction,
        call: &'a Call,
        inputs: &'a Vec<Param>,
        outputs: &'a Vec<Param>,
        handler: &'a MappingCallHandler,
    },
    Block { handler: &'a MappingBlockHandler },
}

impl MappingTrigger {
    pub open spec fn spec_handler_name(&self) -> Seq<char> {
        match self {
            MappingTrigger::Log { handler, .. } => handler.handler@,
            MappingTrigger::Call { handler, .. } => handler.handler@,
            MappingTrigger::Block { handler, .. } => handler.handler@,
        }
    }

    /// The name of the guest function to invoke.
    pub fn handler_name(&self) -> (r: &str)
        ensures
            r@ == self.spec_handler_name(),
    {
        match self {
            MappingTrigger::Log { handler, .. } => handler.handler.as_str(),
            MappingTrigger::Call { handler, .. } => handler.handler.as_str(),
            MappingTrigger::Block { handler, .. } => handler.handler.as_str(),
        }
    }

    /// Key-value pairs that describe the trigger in host logs: the event signature and
    /// the emitting address for a log, the function and the callee for a call, nothing
    /// for a block.
    pub fn logging_extras(&self) -> (r: Vec<(String, String)>)
        ensures
            match self {
                MappingTrigger::Log { handler, log, .. } => {
                    &&& r@.len() == 2
                    &&& r@[0].0@ == "signature"@
                    &&& r@[0].1@ == handler.event@
                    &&& r@[1].0@ == "address"@
                    &&& r@[1].1@ == short_hex_of(log.address.bytes@)
                },
                MappingTrigger::Call { handler, call, .. } => {
                    &&& r@.len() == 2
                    &&& r@[0].0@ == "function"@
                    &&& r@[0].1@ == handler.function@
                    &&& r@[1].0@ == "to"@
                    &&& r@[1].1@ == short_hex_of(call.to.bytes@)
                },
                MappingTrigger::Block { .. } => r@.len() == 0,
            },
    {
        let mut extras: Vec<(String, String)> = Vec::new();
        match self {
            MappingTrigger::Log { handler, log, .. } => {
                extras.push((String::from_str("signature"), handler.event.clone()));
                extras.push((String::from_str("address"), h160_short(&log.address)));
            },
            MappingTrigger::Call { handler, call, .. } => {
                extras.push((String::from_str("function"), handler.function.clone()));
                extras.push((String::from_str("to"), h160_short(&call.to)));
            },
            MappingTrigger::Block { .. } => {},
        }
        extras
    }

    /// The trigger with its block left out, for logging.
    pub fn without_block(&self) -> (r: MappingTriggerWithoutBlock<'_>)
        ensures
            match (self, r) {
                (
                    MappingTrigger::Log { transaction, log, params, handler, .. },
                    MappingTriggerWithoutBlock::Log { transaction: t, log: l, params: p, handler: h },
                ) => *t == *transaction && *l == *log && *p == *params && *h == *handler,
                (
                    MappingTrigger::Call { transaction, call, inputs, outputs, handler, .. },
                    MappingTriggerWithoutBlock::Call {
                        transaction: t,
                        call: c,
                        inputs: i,
                        outputs: o,
                        handler: h,
                    },
                ) => *t == *transaction && *c == *call && *i == *inputs && *o == *outputs && *h
                    == *handler,
                (MappingTrigger::Block { handler, .. }, MappingTriggerWithoutBlock::Block {
                    handler: h,
                }) => *h == *handler,
                _ => false,
            },
    {
        match self {
            MappingTrigger::Log { block: _, transaction, log, params, handler } => {
                MappingTriggerWithoutBlock::Log { transaction, log, params, handler }
            },
            MappingTrigger::Call { block: _, transaction, call, inputs, outputs, handler } => {
                MappingTriggerWithoutBlock::Call { transaction, call, inputs, outputs, handler }
            },
            MappingTrigger::Block { block: _, handler } => MappingTriggerWithoutBlock::Block {
                handler,
            },
        }
    }
}

} // verus!
