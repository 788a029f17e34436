//! Text renderings of hashes and numbers, as the hash and integer types print them.
use vstd::prelude::*;

use crate::values::{H160, H256};

verus! {

/// The digit that stands for `d` in base ten or sixteen (lower case).
pub open spec fn digit_char(d: int) -> char {
    seq!['0', '1', '2', '3', '4', '5', '6', '7', '8', '9', 'a', 'b', 'c', 'd', 'e', 'f'][d]
}

/// A natural number in decimal, with no leading zeros.
pub open spec fn decimal_of_nat(n: nat) -> Seq<char>
    decreases n,
{
    if n < 10 {
        seq![digit_char(n as int)]
    } else {
        decimal_of_nat(n / 10) + seq![digit_char((n % 10) as int)]
    }
}

/// An integer in decimal, with a leading `-` when negative.
pub open spec fn decimal_of(n: int) -> Seq<char> {
    if n < 0 {
        seq!['-'] + decimal_of_nat((-n) as nat)
    } else {
        decimal_of_nat(n as nat)
    }
}

/// Bytes as lower-case hex, two digits a byte.
pub open spec fn hex_of(b: Seq<u8>) -> Seq<char>
    decreases b.len(),
{
    if b.len() == 0 {
        Seq::empty()
    } else {
        hex_of(b.drop_last()) + seq![
            digit_char((b.last() / 16) as int),
            digit_char((b.last() % 16) as int),
        ]
    }
}

/// The abbreviated form of a hash: `0x`, its first two bytes, an ellipsis, its last two bytes.
pub open spec fn short_hex_of(b: Seq<u8>) -> Seq<char> {
    seq!['0', 'x'] + hex_of(b.subrange(0, 2)) + seq!['\u{2026}'] + hex_of(
        b.subrange(b.len() - 2, b.len() as int),
    )
}

/// Relies on std's `Display` for `i32`: decimal digits, `-` before a negative number.
#[verifier::external_body]
pub(crate) fn i32_to_string(n: i32) -> (r: String)
    ensures
        r@ == decimal_of(n as int),
{
    n.to_string()
}

/// Relies on `Display` of web3's `H256` (fixed-hash): the abbreviated form.
#[verifier::external_body]
pub(crate) fn h256_short(h: &H256) -> (r: String)
    ensures
        r@ == short_hex_of(h.bytes@),
{
    format!("{}", web3::types::H256(h.bytes))
}

/// Relies on `LowerHex` of web3's `H256` (fixed-hash): every byte as two lower-case digits.
#[verifier::external_body]
pub(crate) fn h256_hex(h: &H256) -> (r: String)
    ensures
        r@ == hex_of(h.bytes@),
{
    format!("{:x}", web3::types::H256(h.bytes))
}

/// Relies on `Display` of web3's `H160` (fixed-hash): the abbreviated form.
#[verifier::external_body]
pub(crate) fn h160_short(a: &H160) -> (r: String)
    ensures
        r@ == short_hex_of(a.bytes@),
{
    format!("{}", web3::types::H160(a.bytes))
}

} // verus!
