//! Numbers as bytes, the most significant byte first.
use vstd::prelude::*;

verus! {

/// The lowest `len` bytes of a number.
pub open spec fn be_bytes(n: nat, len: nat) -> Seq<u8>
    decreases len,
{
    if len == 0 {
        Seq::empty()
    } else {
        be_bytes(n / 256, (len - 1) as nat).push((n % 256) as u8)
    }
}

/// The number that a sequence of bytes stands for.
pub open spec fn be_value(bytes: Seq<u8>) -> nat
    decreases bytes.len(),
{
    if bytes.len() == 0 {
        0
    } else {
        be_value(bytes.drop_last()) * 256 + bytes.last() as nat
    }
}

/// 256 to the power of `len`: the first number that does not fit into `len` bytes.
pub open spec fn byte_capacity(len: nat) -> nat
    decreases len,
{
    if len == 0 {
        1
    } else {
        byte_capacity((len - 1) as nat) * 256
    }
}

/// A number that fits into `len` bytes is what its bytes stand for.
pub proof fn law_bytes_give_back_the_number(n: nat, len: nat)
    requires
        n < byte_capacity(len),
    ensures
        be_bytes(n, len).len() == len,
        be_value(be_bytes(n, len)) == n,
    decreases len,
{
    if len > 0 {
        law_bytes_give_back_the_number(n / 256, (len - 1) as nat);
        assert(be_bytes(n, len).drop_last() == be_bytes(n / 256, (len - 1) as nat));
    }
}

/// A sequence of bytes is what the number that it stands for is written as in that many bytes.
pub proof fn law_number_gives_back_the_bytes(bytes: Seq<u8>)
    ensures
        be_bytes(be_value(bytes), bytes.len()) == bytes,
    decreases bytes.len(),
{
    if bytes.len() > 0 {
        let front = bytes.drop_last();
        law_number_gives_back_the_bytes(front);
        assert(be_value(bytes) / 256 == be_value(front));
        assert(be_value(bytes) % 256 == bytes.last());
        assert(front.push(bytes.last()) == bytes);
    }
}

/// A sequence of bytes stands for a number that fits into it.
pub proof fn lemma_be_value_bound(bytes: Seq<u8>)
    ensures
        be_value(bytes) < byte_capacity(bytes.len()),
    decreases bytes.len(),
{
    if bytes.len() > 0 {
        lemma_be_value_bound(bytes.drop_last());
    }
}

/// Eight bytes hold every `u64` and nothing more.
pub proof fn lemma_eight_bytes()
    ensures
        byte_capacity(8) == u64::MAX + 1,
{
    reveal_with_fuel(byte_capacity, 9);
}

fn encode(n: u64, len: usize) -> (bytes: Vec<u8>)
    ensures
        bytes@ == be_bytes(n as nat, len as nat),
    decreases len,
{
    if len == 0 {
        Vec::new()
    } else {
        let mut bytes = encode(n / 256, len - 1);
        bytes.push((n % 256) as u8);
        bytes
    }
}

/// The eight bytes of a number.
pub fn to_be_bytes(n: u64) -> (bytes: Vec<u8>)
    ensures
        bytes@ == be_bytes(n as nat, 8),
        bytes@.len() == 8,
{
    proof {
        lemma_eight_bytes();
        law_bytes_give_back_the_number(n as nat, 8);
    }
    encode(n, 8)
}

/// The number that the first eight of the `bytes` stand for.
pub fn from_be_bytes(bytes: &Vec<u8>) -> (n: u64)
    requires
        bytes@.len() >= 8,
    ensures
        n == be_value(bytes@.take(8)),
{
    let mut n: u64 = 0;
    let mut i: usize = 0;
    while i < 8
        invariant
            i <= 8,
            bytes@.len() >= 8,
            n == be_value(bytes@.take(i as int)),
        decreases 8 - i,
    {
        proof {
            let next = bytes@.take(i + 1);
            assert(next.drop_last() == bytes@.take(i as int));
            lemma_be_value_bound(next);
            reveal_with_fuel(byte_capacity, 9);
        }
        n = n * 256 + bytes[i] as u64;
        i += 1;
    }
    n
}

/// The eight bytes of a number have the number as their value, the first byte counting most, and the
/// value of any bytes is reckoned so.
pub proof fn law_bytes_have_the_value_of_the_number(n: u64, bytes: Seq<u8>)
    ensures
        be_bytes(n as nat, 8).len() == 8,
        be_bytes(n as nat, 8).fold_left(0int, |value: int, b: u8| 256 * value + b) == n,
        be_value(bytes) == bytes.fold_left(0int, |value: int, b: u8| 256 * value + b),
{
    lemma_eight_bytes();
    law_bytes_give_back_the_number(n as nat, 8);
    lemma_value_by_folding(be_bytes(n as nat, 8));
    lemma_value_by_folding(bytes);
}

proof fn lemma_value_by_folding(bytes: Seq<u8>)
    ensures
        be_value(bytes) == bytes.fold_left(0int, |value: int, b: u8| 256 * value + b),
    decreases bytes.len(),
{
    if bytes.len() > 0 {
        lemma_value_by_folding(bytes.drop_last());
    }
}

} // verus!
