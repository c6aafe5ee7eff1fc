//! Wide unsigned numbers, as the node gives them.
use vstd::prelude::*;
use vstd::arithmetic::power::pow;
use crate::text::decimal;

verus! {

/// An unsigned number of 256 bits.
#[derive(Clone, Copy, Debug)]
pub struct U256 {
    /// The 64-bit words of the number, the least significant first.
    pub words: [u64; 4],
}

/// The number that four 64-bit words stand for, the least significant word first.
pub open spec fn number(words: Seq<u64>) -> nat {
    (words[0] + 0x1_0000_0000_0000_0000 * (words[1] + 0x1_0000_0000_0000_0000 * (words[2]
        + 0x1_0000_0000_0000_0000 * words[3]))) as nat
}

/// The 32 bytes of a number, the most significant first.
pub open spec fn big_endian(value: nat) -> Seq<u8> {
    Seq::new(32, |i: int| ((value as int / pow(256, (31 - i) as nat)) % 256) as u8)
}

/// The bytes of a number, where there is one.
pub open spec fn opt_big_endian(number: Option<U256>) -> Option<Seq<u8>> {
    match number {
        Some(number) => Some(big_endian(number.value())),
        None => None,
    }
}

/// `ethers::types::U256::as_u32`: the number itself. On a number of more than 32 bits the call
/// does not return.
#[verifier::external_body]
fn as_u32(words: [u64; 4]) -> (r: u32)
    requires
        number(words@) <= u32::MAX,
    ensures
        r == number(words@),
{
    ethers::types::U256(words).as_u32()
}

/// `ethers::types::U256::as_u64`: the number itself. On a number of more than 64 bits the call
/// does not return.
#[verifier::external_body]
fn as_u64(words: [u64; 4]) -> (r: u64)
    requires
        number(words@) <= u64::MAX,
    ensures
        r == number(words@),
{
    ethers::types::U256(words).as_u64()
}

/// `ethers::types::U256::to_string`: the decimal digits of the number, without leading zeros.
#[verifier::external_body]
fn to_decimal(words: [u64; 4]) -> (r: String)
    ensures
        r@ == decimal(number(words@)),
{
    ethers::types::U256(words).to_string()
}

/// `ethers::types::U256::to_big_endian`: the 32 bytes of the number, the most significant first.
#[verifier::external_body]
fn to_big_endian(words: [u64; 4]) -> (r: [u8; 32])
    ensures
        r@ == big_endian(number(words@)),
{
    let mut bytes = [0; 32];
    ethers::types::U256(words).to_big_endian(&mut bytes);
    bytes
}

/// `ethers::types::U64::as_u32`: the number itself. On a number of more than 32 bits the call
/// does not return.
#[verifier::external_body]
pub(crate) fn u64_as_u32(word: u64) -> (r: u32)
    requires
        word <= u32::MAX,
    ensures
        r == word,
{
    ethers::types::U64([word]).as_u32()
}

impl U256 {
    /// The number.
    pub open spec fn value(self) -> nat {
        number(self.words@)
    }

    /// The number in 32 bits.
    pub fn as_u32(&self) -> (r: u32)
        requires
            self.value() <= u32::MAX,
        ensures
            r == self.value(),
    {
        as_u32(self.words)
    }

    /// The number in 64 bits.
    pub fn as_u64(&self) -> (r: u64)
        requires
            self.value() <= u64::MAX,
        ensures
            r == self.value(),
    {
        as_u64(self.words)
    }

    /// The decimal digits of the number.
    pub fn to_decimal(&self) -> (r: String)
        ensures
            r@ == decimal(self.value()),
    {
        to_decimal(self.words)
    }

    /// The bytes of the number, the most significant first.
    pub fn to_vec_u8(&self) -> (r: Vec<u8>)
        ensures
            r@ == big_endian(self.value()),
    {
        let mut bytes: Vec<u8> = Vec::new();
        bytes.extend_from_slice(to_big_endian(self.words).as_slice());
        assert(bytes@ =~= big_endian(self.value()));
        bytes
    }

    /// Tells whether the number fits in 32 bits.
    pub fn fits_u32(&self) -> (r: bool)
        ensures
            r == (self.value() <= u32::MAX),
    {
        self.words[0] <= u32::MAX as u64 && self.words[1] == 0 && self.words[2] == 0
            && self.words[3] == 0
    }

    /// Tells whether the number fits in 64 bits.
    pub fn fits_u64(&self) -> (r: bool)
        ensures
            r == (self.value() <= u64::MAX),
    {
        self.words[1] == 0 && self.words[2] == 0 && self.words[3] == 0
    }
}

} // verus!
