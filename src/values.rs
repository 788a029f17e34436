//! Plain-value shapes of the on-chain records that triggers are built from.
use vstd::prelude::*;

verus! {

/// Compares two byte strings for equality.
pub fn bytes_eq(a: &[u8], b: &[u8]) -> (r: bool)
    ensures
        r == (a@ == b@),
{
    if a.len() != b.len() {
        return false;
    }
    let mut i: usize = 0;
    while i < a.len()
        invariant
            a@.len() == b@.len(),
            0 <= i <= a@.len(),
            forall|k: int| 0 <= k < i ==> a@[k] == b@[k],
        decreases a@.len() - i,
    {
        if a[i] != b[i] {
            return false;
        }
        i = i + 1;
    }
    assert(a@ =~= b@);
    true
}

/// A 32-byte hash (block hash, transaction hash, state roots, topics).
#[derive(Clone, Copy, Debug)]
pub struct H256 {
    pub bytes: [u8; 32],
}

impl PartialEq for H256 {
    fn eq(&self, other: &H256) -> (r: bool)
        ensures
            r == (self.bytes@ == other.bytes@),
    {
        bytes_eq(self.bytes.as_slice(), other.bytes.as_slice())
    }
}

impl vstd::std_specs::cmp::PartialEqSpecImpl for H256 {
    open spec fn obeys_eq_spec() -> bool {
        true
    }

    open spec fn eq_spec(&self, other: &H256) -> bool {
        self.bytes@ == other.bytes@
    }
}

impl Eq for H256 {}

/// A 20-byte account or contract address.
#[derive(Clone, Copy, Debug)]
pub struct H160 {
    pub bytes: [u8; 20],
}

impl PartialEq for H160 {
    fn eq(&self, other: &H160) -> (r: bool)
        ensures
            r == (self.bytes@ == other.bytes@),
    {
        bytes_eq(self.bytes.as_slice(), other.bytes.as_slice())
    }
}

impl vstd::std_specs::cmp::PartialEqSpecImpl for H160 {
    open spec fn obeys_eq_spec() -> bool {
        true
    }

    open spec fn eq_spec(&self, other: &H160) -> bool {
        self.bytes@ == other.bytes@
    }
}

impl Eq for H160 {}

/// Two optional hashes are equal when both are absent or both hold the same bytes.
pub open spec fn opt_h256_same(a: Option<H256>, b: Option<H256>) -> bool {
    match (a, b) {
        (Some(x), Some(y)) => x.bytes@ == y.bytes@,
        (None, None) => true,
        _ => false,
    }
}

/// Equality of two optional hashes, by their bytes.
pub fn opt_h256_eq(a: &Option<H256>, b: &Option<H256>) -> (r: bool)
    ensures
        r == opt_h256_same(*a, *b),
{
    match (a, b) {
        (Some(x), Some(y)) => x == y,
        (None, None) => true,
        _ => false,
    }
}

/// An unsigned 256-bit integer, held as its upper and lower 128 bits.
#[derive(Clone, Copy, Debug, PartialEq, Eq, Structural)]
pub struct U256 {
    pub hi: u128,
    pub lo: u128,
}

pub open spec fn pow2_128() -> int {
    u128::MAX as int + 1
}

impl U256 {
    /// The number this value stands for.
    pub open spec fn value(self) -> nat {
        (self.hi as int * pow2_128() + self.lo as int) as nat
    }

    pub fn zero() -> (r: U256)
        ensures
            r == (U256 { hi: 0, lo: 0 }),
            r.value() == 0,
    {
        U256 { hi: 0, lo: 0 }
    }

    pub fn from_u128(v: u128) -> (r: U256)
        ensures
            r.value() == v,
    {
        U256 { hi: 0, lo: v }
    }

    /// Orders two values by the numbers they stand for.
    pub fn cmp(&self, other: &U256) -> (r: std::cmp::Ordering)
        ensures
            r == ord_of(self.value() as int, other.value() as int),
    {
        proof {
            lemma_limbs_order(self.hi as int, self.lo as int, other.hi as int, other.lo as int);
            lemma_limbs_order(other.hi as int, other.lo as int, self.hi as int, self.lo as int);
        }
        if self.hi < other.hi {
            std::cmp::Ordering::Less
        } else if self.hi > other.hi {
            std::cmp::Ordering::Greater
        } else if self.lo < other.lo {
            std::cmp::Ordering::Less
        } else if self.lo > other.lo {
            std::cmp::Ordering::Greater
        } else {
            std::cmp::Ordering::Equal
        }
    }
}

/// Two-limb numbers compare by their upper limb first.
proof fn lemma_limbs_order(ah: int, al: int, bh: int, bl: int)
    requires
        0 <= ah,
        0 <= al < pow2_128(),
        0 <= bh,
        0 <= bl < pow2_128(),
    ensures
        ah < bh ==> ah * pow2_128() + al < bh * pow2_128() + bl,
        ah == bh ==> (ah * pow2_128() + al < bh * pow2_128() + bl <==> al < bl),
{
    let p = pow2_128();
    if ah < bh {
        assert(ah * p + p <= bh * p) by (nonlinear_arith)
            requires
                ah < bh,
                p > 0,
        ;
    }
}

/// How two numbers compare.
pub open spec fn ord_of(a: int, b: int) -> std::cmp::Ordering {
    if a < b {
        std::cmp::Ordering::Less
    } else if a == b {
        std::cmp::Ordering::Equal
    } else {
        std::cmp::Ordering::Greater
    }
}

/// A block with its transactions, as the chain adapter hands it over.
#[derive(Clone, Debug)]
pub struct Block {
    pub hash: Option<H256>,
    pub parent_hash: H256,
    pub uncles_hash: H256,
    pub author: H160,
    pub state_root: H256,
    pub transactions_root: H256,
    pub receipts_root: H256,
    pub number: Option<u64>,
    pub gas_used: U256,
    pub gas_limit: U256,
    pub timestamp: U256,
    pub difficulty: U256,
    pub total_difficulty: Option<U256>,
    pub size: Option<U256>,
    pub transactions: Vec<Transaction>,
}

/// A transaction of a block.
#[derive(Clone, Debug)]
pub struct Transaction {
    pub hash: H256,
    pub transaction_index: Option<u64>,
    pub from: H160,
    pub to: Option<H160>,
    pub value: U256,
    pub gas: U256,
    pub gas_price: U256,
    pub input: Vec<u8>,
}

/// An event log emitted by a contract.
#[derive(Clone, Debug)]
pub struct Log {
    pub address: H160,
    pub topics: Vec<H256>,
    pub data: Vec<u8>,
    pub block_hash: Option<H256>,
    pub block_number: Option<u64>,
    pub transaction_hash: Option<H256>,
    pub transaction_index: Option<u64>,
    pub log_index: Option<U256>,
    pub log_type: Option<String>,
}

impl Log {
    /// The fields that every log reaching the trigger core carries.
    pub open spec fn well_formed(&self) -> bool {
        &&& self.block_number.is_some()
        &&& self.block_hash.is_some()
        &&& self.transaction_index.is_some()
        &&& self.log_index.is_some()
    }
}

/// A call made to a contract within a transaction, taken from the block's traces.
#[derive(Clone, Debug)]
pub struct Call {
    pub from: H160,
    pub to: H160,
    pub block_number: i32,
    pub block_hash: H256,
    pub transaction_hash: Option<H256>,
    pub transaction_index: u64,
    pub input: Vec<u8>,
    pub output: Vec<u8>,
}

impl PartialEq for Call {
    fn eq(&self, other: &Call) -> (r: bool) {
        self.from == other.from && self.to == other.to && self.block_number == other.block_number
            && self.block_hash == other.block_hash && opt_h256_eq(
            &self.transaction_hash,
            &other.transaction_hash,
        ) && self.transaction_index == other.transaction_index && bytes_eq(
            self.input.as_slice(),
            other.input.as_slice(),
        ) && bytes_eq(self.output.as_slice(), other.output.as_slice())
    }
}

impl vstd::std_specs::cmp::PartialEqSpecImpl for Call {
    open spec fn obeys_eq_spec() -> bool {
        true
    }

    open spec fn eq_spec(&self, other: &Call) -> bool {
        call_eq(*self, *other)
    }
}

/// Two calls are equal when every field is.
pub open spec fn call_eq(a: Call, b: Call) -> bool {
    &&& a.from.bytes@ == b.from.bytes@
    &&& a.to.bytes@ == b.to.bytes@
    &&& a.block_number == b.block_number
    &&& a.block_hash.bytes@ == b.block_hash.bytes@
    &&& opt_h256_same(a.transaction_hash, b.transaction_hash)
    &&& a.transaction_index == b.transaction_index
    &&& a.input@ == b.input@
    &&& a.output@ == b.output@
}

/// A value of the Ethereum ABI type lattice, as decoded from a log or a call.
#[derive(Debug)]
pub enum AbiValue {
    Address(H160),
    FixedBytes(Vec<u8>),
    Bytes(Vec<u8>),
    Int(U256),
    Uint(U256),
    Bool(bool),
    String(String),
    FixedArray(Vec<AbiValue>),
    Array(Vec<AbiValue>),
    Tuple(Vec<AbiValue>),
}

/// A named parameter decoded against a handler's ABI signature.
#[derive(Debug)]
pub struct Param {
    pub name: String,
    pub value: AbiValue,
}

} // verus!
