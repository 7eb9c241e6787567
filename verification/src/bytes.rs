//! Numbers as they lie in memory, least significant byte first.
use vstd::prelude::*;

verus! {

/// The number that `bytes` hold, least significant byte first.
pub open spec fn little_endian(bytes: Seq<u8>) -> nat
    decreases bytes.len(),
{
    if bytes.len() == 0 {
        0
    } else {
        bytes[0] as nat + 256 * little_endian(bytes.drop_first())
    }
}

/// A number of `n` bytes is below 256 to the power of `n`.
pub proof fn lemma_little_endian_bound(bytes: Seq<u8>)
    ensures
        little_endian(bytes) < vstd::arithmetic::power::pow(256, bytes.len()),
    decreases bytes.len(),
{
    reveal(vstd::arithmetic::power::pow);
    if bytes.len() > 0 {
        lemma_little_endian_bound(bytes.drop_first());
        assert(little_endian(bytes.drop_first()) <= vstd::arithmetic::power::pow(256, (bytes.len() - 1) as nat) - 1);
    }
}

/// The number that up to eight bytes hold.
pub fn read_little_endian(bytes: &[u8]) -> (value: u64)
    requires
        bytes@.len() <= 8,
    ensures
        value == little_endian(bytes@),
        value < vstd::arithmetic::power::pow(256, bytes@.len()),
{
    let mut value: u64 = 0;
    let mut i: usize = bytes.len();
    assert(bytes@.subrange(i as int, bytes@.len() as int) =~= Seq::<u8>::empty());
    while i > 0
        invariant
            0 <= i <= bytes@.len() <= 8,
            value == little_endian(bytes@.subrange(i as int, bytes@.len() as int)),
        decreases i,
    {
        let ghost tail = bytes@.subrange(i as int, bytes@.len() as int);
        proof {
            lemma_little_endian_bound(tail);
            vstd::arithmetic::power::lemma_pow_increases(256, tail.len(), 7);
            reveal_with_fuel(vstd::arithmetic::power::pow, 8);
            assert(bytes@.subrange(i - 1, bytes@.len() as int).drop_first() =~= tail);
        }
        i = i - 1;
        value = value * 256 + bytes[i] as u64;
    }
    proof {
        assert(bytes@.subrange(0, bytes@.len() as int) =~= bytes@);
        lemma_little_endian_bound(bytes@);
    }
    value
}

} // verus!
