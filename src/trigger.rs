//! Triggers: the on-chain occurrences that may wake a handler, with their
//! equality and the total order in which a block's triggers are dispatched.
use vstd::prelude::*;

use crate::text::{decimal_of, h256_hex, h256_short, hex_of, i32_to_string, short_hex_of};
use crate::values::{call_eq, opt_h256_eq, opt_h256_same, ord_of, Call, Log, H160, H256, U256};
use std::cmp::Ordering;

verus! {

/// A block's number and hash.
#[derive(Clone, Copy, Debug)]
pub struct BlockPtr {
    pub hash: H256,
    pub number: i32,
}

/// Which blocks a block handler asks for.
#[derive(Clone, Copy, Debug)]
pub enum EthereumBlockTriggerType {
    Every,
    WithCallTo(H160),
}

impl PartialEq for EthereumBlockTriggerType {
    fn eq(&self, other: &EthereumBlockTriggerType) -> (r: bool) {
        match (self, other) {
            (EthereumBlockTriggerType::Every, EthereumBlockTriggerType::Every) => true,
            (EthereumBlockTriggerType::WithCallTo(a), EthereumBlockTriggerType::WithCallTo(b)) => a
                == b,
            _ => false,
        }
    }
}

impl vstd::std_specs::cmp::PartialEqSpecImpl for EthereumBlockTriggerType {
    open spec fn obeys_eq_spec() -> bool {
        true
    }

    open spec fn eq_spec(&self, other: &EthereumBlockTriggerType) -> bool {
        filter_eq(*self, *other)
    }
}

impl Eq for EthereumBlockTriggerType {}

/// Two block filters are equal when of one kind and, for a call filter, of one address.
pub open spec fn filter_eq(a: EthereumBlockTriggerType, b: EthereumBlockTriggerType) -> bool {
    match (a, b) {
        (EthereumBlockTriggerType::Every, EthereumBlockTriggerType::Every) => true,
        (EthereumBlockTriggerType::WithCallTo(x), EthereumBlockTriggerType::WithCallTo(y)) => x.bytes@
            == y.bytes@,
        _ => false,
    }
}

/// One occurrence within a block that handlers may be bound to.
#[derive(Clone, Debug)]
pub enum EthereumTrigger {
    Block(BlockPtr, EthereumBlockTriggerType),
    Call(Call),
    Log(Log),
}

/// The log index that orders logs: an absent index sorts before every present one.
pub open spec fn log_index_key(l: Log) -> int {
    match l.log_index {
        Some(i) => i.value() as int,
        None => -1,
    }
}

/// The transaction index of a log, as the order reads it.
pub open spec fn log_tx_index(l: Log) -> int {
    l.transaction_index.unwrap() as int
}

/// The dispatch order of two triggers of one block.
pub open spec fn trigger_order(a: EthereumTrigger, b: EthereumTrigger) -> Ordering {
    match (a, b) {
        (EthereumTrigger::Block(..), EthereumTrigger::Block(..)) => Ordering::Equal,
        (EthereumTrigger::Block(..), _) => Ordering::Greater,
        (_, EthereumTrigger::Block(..)) => Ordering::Less,
        (EthereumTrigger::Call(x), EthereumTrigger::Call(y)) => ord_of(
            x.transaction_index as int,
            y.transaction_index as int,
        ),
        (EthereumTrigger::Log(x), EthereumTrigger::Log(y)) => ord_of(
            log_index_key(x),
            log_index_key(y),
        ),
        (EthereumTrigger::Call(x), EthereumTrigger::Log(y)) => if x.transaction_index as int
            == log_tx_index(y) {
            Ordering::Greater
        } else {
            ord_of(x.transaction_index as int, log_tx_index(y))
        },
        (EthereumTrigger::Log(x), EthereumTrigger::Call(y)) => if log_tx_index(x)
            == y.transaction_index as int {
            Ordering::Less
        } else {
            ord_of(log_tx_index(x), y.transaction_index as int)
        },
    }
}

/// Trigger equality: blocks by pointer and filter, calls by every field, logs by
/// transaction hash and log index alone.
pub open spec fn trigger_eq(a: EthereumTrigger, b: EthereumTrigger) -> bool {
    match (a, b) {
        (EthereumTrigger::Block(p, f), EthereumTrigger::Block(q, g)) => {
            &&& p.hash.bytes@ == q.hash.bytes@
            &&& p.number == q.number
            &&& filter_eq(f, g)
        },
        (EthereumTrigger::Call(x), EthereumTrigger::Call(y)) => call_eq(x, y),
        (EthereumTrigger::Log(x), EthereumTrigger::Log(y)) => {
            &&& opt_h256_same(x.transaction_hash, y.transaction_hash)
            &&& x.log_index == y.log_index
        },
        _ => false,
    }
}

fn opt_u256_eq(a: &Option<U256>, b: &Option<U256>) -> (r: bool)
    ensures
        r == (*a == *b),
{
    match (a, b) {
        (Some(x), Some(y)) => x == y,
        (None, None) => true,
        _ => false,
    }
}

impl PartialEq for EthereumTrigger {
    fn eq(&self, other: &EthereumTrigger) -> (r: bool) {
        match (self, other) {
            (EthereumTrigger::Block(a_ptr, a_kind), EthereumTrigger::Block(b_ptr, b_kind)) => {
                a_ptr.hash == b_ptr.hash && a_ptr.number == b_ptr.number && a_kind == b_kind
            },
            (EthereumTrigger::Call(a), EthereumTrigger::Call(b)) => a == b,
            (EthereumTrigger::Log(a), EthereumTrigger::Log(b)) => {
                opt_h256_eq(&a.transaction_hash, &b.transaction_hash) && opt_u256_eq(
                    &a.log_index,
                    &b.log_index,
                )
            },
            _ => false,
        }
    }
}

impl vstd::std_specs::cmp::PartialEqSpecImpl for EthereumTrigger {
    open spec fn obeys_eq_spec() -> bool {
        true
    }

    open spec fn eq_spec(&self, other: &EthereumTrigger) -> bool {
        trigger_eq(*self, *other)
    }
}

impl Eq for EthereumTrigger {}

/// The transaction hash that an error about a trigger names, if any.
pub open spec fn context_tx_hash(t: EthereumTrigger) -> Option<H256> {
    match t {
        EthereumTrigger::Log(l) => l.transaction_hash,
        EthereumTrigger::Call(c) => c.transaction_hash,
        EthereumTrigger::Block(..) => None,
    }
}

impl EthereumTrigger {
    /// Every log reaching the trigger core carries its block, transaction and log positions.
    pub open spec fn well_formed(&self) -> bool {
        match self {
            EthereumTrigger::Log(l) => l.well_formed(),
            _ => true,
        }
    }

    /// A log's block number fits the signed 32-bit block numbers of the rest of the system.
    pub open spec fn number_fits(&self) -> bool {
        match self {
            EthereumTrigger::Log(l) => l.block_number.is_some() && l.block_number.unwrap()
                <= i32::MAX,
            _ => true,
        }
    }

    pub open spec fn spec_block_number(&self) -> int {
        match self {
            EthereumTrigger::Block(ptr, _) => ptr.number as int,
            EthereumTrigger::Call(c) => c.block_number as int,
            EthereumTrigger::Log(l) => l.block_number.unwrap() as int,
        }
    }

    pub open spec fn spec_block_hash(&self) -> H256 {
        match self {
            EthereumTrigger::Block(ptr, _) => ptr.hash,
            EthereumTrigger::Call(c) => c.block_hash,
            EthereumTrigger::Log(l) => l.block_hash.unwrap(),
        }
    }

    /// The number of the block the trigger belongs to.
    pub fn block_number(&self) -> (r: i32)
        requires
            self.number_fits(),
        ensures
            r as int == self.spec_block_number(),
    {
        match self {
            EthereumTrigger::Block(block_ptr, _) => block_ptr.number,
            EthereumTrigger::Call(call) => call.block_number,
            EthereumTrigger::Log(log) => {
                let n = log.block_number.unwrap();
                n as i32
            },
        }
    }

    /// The hash of the block the trigger belongs to.
    pub fn block_hash(&self) -> (r: H256)
        requires
            self.well_formed(),
        ensures
            r == self.spec_block_hash(),
    {
        match self {
            EthereumTrigger::Block(block_ptr, _) => block_ptr.hash,
            EthereumTrigger::Call(call) => call.block_hash,
            EthereumTrigger::Log(log) => log.block_hash.unwrap(),
        }
    }

    /// Compares two triggers of one block in dispatch order.
    pub fn cmp(&self, other: &EthereumTrigger) -> (r: Ordering)
        requires
            self.well_formed(),
            other.well_formed(),
        ensures
            r == trigger_order(*self, *other),
    {
        match (self, other) {
            (EthereumTrigger::Block(..), EthereumTrigger::Block(..)) => Ordering::Equal,
            (EthereumTrigger::Block(..), _) => Ordering::Greater,
            (_, EthereumTrigger::Block(..)) => Ordering::Less,
            (EthereumTrigger::Call(a), EthereumTrigger::Call(b)) => cmp_u64(
                a.transaction_index,
                b.transaction_index,
            ),
            (EthereumTrigger::Log(a), EthereumTrigger::Log(b)) => {
                let ai = a.log_index.unwrap();
                let bi = b.log_index.unwrap();
                ai.cmp(&bi)
            },
            (EthereumTrigger::Call(a), EthereumTrigger::Log(b)) => {
                let b_tx = b.transaction_index.unwrap();
                if a.transaction_index == b_tx {
                    Ordering::Greater
                } else {
                    cmp_u64(a.transaction_index, b_tx)
                }
            },
            (EthereumTrigger::Log(a), EthereumTrigger::Call(b)) => {
                let a_tx = a.transaction_index.unwrap();
                if a_tx == b.transaction_index {
                    Ordering::Less
                } else {
                    cmp_u64(a_tx, b.transaction_index)
                }
            },
        }
    }

    /// Where an error about this trigger happened: block and transaction for logs
    /// and calls, nothing for block triggers.
    pub fn error_context(&self) -> (r: String)
        requires
            self.well_formed(),
            self.number_fits(),
        ensures
            r@ == match context_tx_hash(*self) {
                Some(tx) => "block #"@ + decimal_of(self.spec_block_number()) + " ("@
                    + short_hex_of(self.spec_block_hash().bytes@) + "), transaction "@ + hex_of(
                    tx.bytes@,
                ),
                None => Seq::<char>::empty(),
            },
    {
        let transaction_id = match self {
            EthereumTrigger::Log(log) => log.transaction_hash,
            EthereumTrigger::Call(call) => call.transaction_hash,
            EthereumTrigger::Block(..) => None,
        };
        match transaction_id {
            Some(tx_hash) => {
                let mut s = String::from_str("block #");
                let number = i32_to_string(self.block_number());
                s.append(number.as_str());
                s.append(" (");
                let hash = h256_short(&self.block_hash());
                s.append(hash.as_str());
                s.append("), transaction ");
                let tx = h256_hex(&tx_hash);
                s.append(tx.as_str());
                s
            },
            None => String::new(),
        }
    }
}

fn cmp_u64(a: u64, b: u64) -> (r: Ordering)
    ensures
        r == ord_of(a as int, b as int),
{
    if a < b {
        Ordering::Less
    } else if a == b {
        Ordering::Equal
    } else {
        Ordering::Greater
    }
}

} // verus!
