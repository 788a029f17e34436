//! The records a guest handler reads, and the choice of their layout by the API
//! version that the subgraph manifest declares.
use vstd::prelude::*;

use crate::mapping::MappingTrigger;
use crate::values::{Block, Log, Param, Transaction, H160, H256, U256};

verus! {

/// Block data as the guest sees it.
#[derive(Clone, Debug)]
pub struct EthereumBlockData {
    pub hash: H256,
    pub parent_hash: H256,
    pub uncles_hash: H256,
    pub author: H160,
    pub state_root: H256,
    pub transactions_root: H256,
    pub receipts_root: H256,
    pub number: u64,
    pub gas_used: U256,
    pub gas_limit: U256,
    pub timestamp: U256,
    pub difficulty: U256,
    pub total_difficulty: U256,
    pub size: Option<U256>,
}

/// Transaction data as the guest sees it. The 0.0.1 layout leaves out `index` and `from`.
#[derive(Clone, Debug)]
pub struct EthereumTransactionData {
    pub hash: H256,
    pub index: u128,
    pub from: H160,
    pub to: Option<H160>,
    pub value: U256,
    pub gas_limit: U256,
    pub gas_price: U256,
    pub input: Vec<u8>,
}

/// An event logged from a contract address in a block.
#[derive(Debug)]
pub struct EthereumEventData {
    pub address: H160,
    pub log_index: U256,
    pub transaction_log_index: U256,
    pub log_type: Option<String>,
    pub block: EthereumBlockData,
    pub transaction: EthereumTransactionData,
    pub params: Vec<Param>,
}

/// A call to a contract address within a transaction of a block.
#[derive(Debug)]
pub struct EthereumCallData {
    pub from: H160,
    pub to: H160,
    pub block: EthereumBlockData,
    pub transaction: EthereumTransactionData,
    pub inputs: Vec<Param>,
    pub outputs: Vec<Param>,
}

/// A semantic version, as manifests declare their API version.
#[derive(Clone, Copy, Debug, PartialEq, Eq, Structural)]
pub struct ApiVersion {
    pub major: u64,
    pub minor: u64,
    pub patch: u64,
}

impl ApiVersion {
    /// `self` is the version `major.minor.patch` or a later one.
    pub open spec fn spec_at_least(self, major: u64, minor: u64, patch: u64) -> bool {
        ||| self.major > major
        ||| self.major == major && self.minor > minor
        ||| self.major == major && self.minor == minor && self.patch >= patch
    }

    pub fn at_least(&self, major: u64, minor: u64, patch: u64) -> (r: bool)
        ensures
            r == self.spec_at_least(major, minor, patch),
    {
        self.major > major || (self.major == major && self.minor > minor) || (self.major == major
            && self.minor == minor && self.patch >= patch)
    }
}

/// A mapping trigger in the record layout that the guest's API version reads.
#[derive(Debug)]
pub enum GuestTrigger {
    /// An event whose transaction has the 0.0.1 layout: no `from`, no `index`.
    EventV0_0_1(EthereumEventData),
    /// An event whose transaction has the 0.0.2 layout, with `from` and `index`.
    EventV0_0_2(EthereumEventData),
    /// A call in the legacy layout: `inputs` only, no `outputs`.
    CallLegacy(EthereumCallData),
    /// A call in the 0.0.3 layout, with `inputs` and `outputs`.
    CallV0_0_3(EthereumCallData),
    Block(EthereumBlockData),
}

/// A field that the protocol guarantees was missing, so the trigger cannot be projected.
#[derive(Clone, Copy, Debug, PartialEq, Eq, Structural)]
pub enum DeterministicHostError {
    MissingBlockHash,
    MissingBlockNumber,
    MissingTransactionIndex,
}

/// The guest's view of a block.
pub open spec fn block_data(b: Block) -> EthereumBlockData {
    EthereumBlockData {
        hash: b.hash.unwrap(),
        parent_hash: b.parent_hash,
        uncles_hash: b.uncles_hash,
        author: b.author,
        state_root: b.state_root,
        transactions_root: b.transactions_root,
        receipts_root: b.receipts_root,
        number: b.number.unwrap(),
        gas_used: b.gas_used,
        gas_limit: b.gas_limit,
        timestamp: b.timestamp,
        difficulty: b.difficulty,
        total_difficulty: match b.total_difficulty {
            Some(d) => d,
            None => U256 { hi: 0, lo: 0 },
        },
        size: b.size,
    }
}

/// The guest's view of a transaction.
pub open spec fn transaction_data(tx: Transaction) -> EthereumTransactionData {
    EthereumTransactionData {
        hash: tx.hash,
        index: tx.transaction_index.unwrap() as u128,
        from: tx.from,
        to: tx.to,
        value: tx.value,
        gas_limit: tx.gas,
        gas_price: tx.gas_price,
        input: tx.input,
    }
}

/// The field that stops a block and a transaction from being projected, if any.
pub open spec fn missing_field(block: Block, tx: Option<Transaction>) -> Option<
    DeterministicHostError,
> {
    if block.hash.is_none() {
        Some(DeterministicHostError::MissingBlockHash)
    } else if block.number.is_none() {
        Some(DeterministicHostError::MissingBlockNumber)
    } else if tx is Some && tx.unwrap().transaction_index.is_none() {
        Some(DeterministicHostError::MissingTransactionIndex)
    } else {
        None
    }
}

/// The log index the guest reads: the log's own, or zero where it has none.
pub open spec fn guest_log_index(i: Option<U256>) -> U256 {
    match i {
        Some(v) => v,
        None => U256 { hi: 0, lo: 0 },
    }
}

/// The projection of a mapping trigger for a guest of API version `v`: events take the
/// 0.0.2 transaction layout from 0.0.2 on, calls carry their outputs from 0.0.3 on.
pub open spec fn projection(m: MappingTrigger, v: ApiVersion) -> Result<
    GuestTrigger,
    DeterministicHostError,
> {
    match m {
        MappingTrigger::Log { block, transaction, log, params, .. } => match missing_field(
            block,
            Some(transaction),
        ) {
            Some(e) => Err(e),
            None => {
                let event = EthereumEventData {
                    address: log.address,
                    log_index: guest_log_index(log.log_index),
                    transaction_log_index: guest_log_index(log.log_index),
                    log_type: log.log_type,
                    block: block_data(block),
                    transaction: transaction_data(transaction),
                    params,
                };
                if v.spec_at_least(0, 0, 2) {
                    Ok(GuestTrigger::EventV0_0_2(event))
                } else {
                    Ok(GuestTrigger::EventV0_0_1(event))
                }
            },
        },
        MappingTrigger::Call { block, transaction, call, inputs, outputs, .. } => match missing_field(
            block,
            Some(transaction),
        ) {
            Some(e) => Err(e),
            None => {
                let data = EthereumCallData {
                    from: call.from,
                    to: call.to,
                    block: block_data(block),
                    transaction: transaction_data(transaction),
                    inputs,
                    outputs,
                };
                if v.spec_at_least(0, 0, 3) {
                    Ok(GuestTrigger::CallV0_0_3(data))
                } else {
                    Ok(GuestTrigger::CallLegacy(data))
                }
            },
        },
        MappingTrigger::Block { block, .. } => match missing_field(block, None) {
            Some(e) => Err(e),
            None => Ok(GuestTrigger::Block(block_data(block))),
        },
    }
}

impl EthereumBlockData {
    /// The guest's view of a block that carries its hash and number; a missing total
    /// difficulty reads as zero.
    pub fn from_block(block: &Block) -> (r: EthereumBlockData)
        requires
            block.hash.is_some(),
            block.number.is_some(),
        ensures
            r == block_data(*block),
    {
        EthereumBlockData {
            hash: block.hash.unwrap(),
            parent_hash: block.parent_hash,
            uncles_hash: block.uncles_hash,
            author: block.author,
            state_root: block.state_root,
            transactions_root: block.transactions_root,
            receipts_root: block.receipts_root,
            number: block.number.unwrap(),
            gas_used: block.gas_used,
            gas_limit: block.gas_limit,
            timestamp: block.timestamp,
            difficulty: block.difficulty,
            total_difficulty: block.total_difficulty.unwrap_or(U256::zero()),
            size: block.size,
        }
    }
}

impl EthereumTransactionData {
    /// The guest's view of a transaction that carries its index.
    pub fn from_transaction(tx: Transaction) -> (r: EthereumTransactionData)
        requires
            tx.transaction_index.is_some(),
        ensures
            r == transaction_data(tx),
    {
        let index = tx.transaction_index.unwrap();
        EthereumTransactionData {
            hash: tx.hash,
            index: index as u128,
            from: tx.from,
            to: tx.to,
            value: tx.value,
            gas_limit: tx.gas,
            gas_price: tx.gas_price,
            input: tx.input,
        }
    }
}

/// Projection depends on the trigger and the API version alone: equal triggers projected
/// for equal versions give equal records.
pub proof fn lemma_projection_pure(m1: MappingTrigger, m2: MappingTrigger, v1: ApiVersion, v2: ApiVersion)
    requires
        m1 == m2,
        v1 == v2,
    ensures
        projection(m1, v1) == projection(m2, v2),
{
}

/// The layout table: a log takes the 0.0.2 transaction layout exactly from API version
/// 0.0.2 on, a call carries its outputs exactly from 0.0.3 on, and a block has one layout.
pub proof fn lemma_version_selection(m: MappingTrigger, v: ApiVersion)
    ensures
        match m {
            MappingTrigger::Log { block, transaction, .. } => missing_field(block, Some(transaction))
                is None ==> (projection(m, v) matches Ok(GuestTrigger::EventV0_0_2(_))
                <==> v.spec_at_least(0, 0, 2)) && (projection(m, v) matches Ok(
                GuestTrigger::EventV0_0_1(_),
            ) <==> !v.spec_at_least(0, 0, 2)),
            MappingTrigger::Call { block, transaction, .. } => missing_field(
                block,
                Some(transaction),
            ) is None ==> (projection(m, v) matches Ok(GuestTrigger::CallV0_0_3(_))
                <==> v.spec_at_least(0, 0, 3)) && (projection(m, v) matches Ok(
                GuestTrigger::CallLegacy(_),
            ) <==> !v.spec_at_least(0, 0, 3)),
            MappingTrigger::Block { block, .. } => missing_field(block, None) is None
                ==> projection(m, v) matches Ok(GuestTrigger::Block(_)),
        },
{
}

fn check_fields(block: &Block, tx: Option<&Transaction>) -> (r: Option<DeterministicHostError>)
    ensures
        r == missing_field(
            *block,
            match tx {
                Some(t) => Some(*t),
                None => None,
            },
        ),
{
    if block.hash.is_none() {
        Some(DeterministicHostError::MissingBlockHash)
    } else if block.number.is_none() {
        Some(DeterministicHostError::MissingBlockNumber)
    } else {
        match tx {
            Some(t) => if t.transaction_index.is_none() {
                Some(DeterministicHostError::MissingTransactionIndex)
            } else {
                None
            },
            None => None,
        }
    }
}

impl MappingTrigger {
    /// Projects the trigger into the records that a guest of API version `api_version`
    /// reads. Fails when the block lacks its hash or number, or the transaction its index.
    pub fn to_guest(self, api_version: &ApiVersion) -> (r: Result<GuestTrigger, DeterministicHostError>)
        ensures
            r == projection(self, *api_version),
    {
        match self {
            MappingTrigger::Log { block, transaction, log, params, handler: _ } => {
                if let Some(e) = check_fields(&block, Some(&transaction)) {
                    return Err(e);
                }
                let Log { address, log_index, log_type, .. } = log;
                let index = log_index.unwrap_or(U256::zero());
                let event = EthereumEventData {
                    address,
                    log_index: index,
                    transaction_log_index: index,
                    log_type,
                    block: EthereumBlockData::from_block(&block),
                    transaction: EthereumTransactionData::from_transaction(transaction),
                    params,
                };
                if api_version.at_least(0, 0, 2) {
                    Ok(GuestTrigger::EventV0_0_2(event))
                } else {
                    Ok(GuestTrigger::EventV0_0_1(event))
                }
            },
            MappingTrigger::Call { block, transaction, call, inputs, outputs, handler: _ } => {
                if let Some(e) = check_fields(&block, Some(&transaction)) {
                    return Err(e);
                }
                let data = EthereumCallData {
                    from: call.from,
                    to: call.to,
                    block: EthereumBlockData::from_block(&block),
                    transaction: EthereumTransactionData::from_transaction(transaction),
                    inputs,
                    outputs,
                };
                if api_version.at_least(0, 0, 3) {
                    Ok(GuestTrigger::CallV0_0_3(data))
                } else {
                    Ok(GuestTrigger::CallLegacy(data))
                }
            },
            MappingTrigger::Block { block, handler: _ } => {
                if let Some(e) = check_fields(&block, None) {
                    return Err(e);
                }
                Ok(GuestTrigger::Block(EthereumBlockData::from_block(&block)))
            },
        }
    }
}

} // verus!
