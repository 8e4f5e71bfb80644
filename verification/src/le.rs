//! Little-endian integers: what a run of bytes is worth, which bytes a number
//! is written as, and the executable reader and writer for a 64-bit field.

use vstd::prelude::*;

verus! {

/// The number of distinct values that `len` bytes can hold, `256^len`.
pub open spec fn le_modulus(len: nat) -> nat
    decreases len,
{
    if len == 0 {
        1
    } else {
        256 * le_modulus((len - 1) as nat)
    }
}

/// The number that `bytes` spell when the first byte is the least significant.
pub open spec fn le_value(bytes: Seq<u8>) -> nat
    decreases bytes.len(),
{
    if bytes.len() == 0 {
        0
    } else {
        bytes[0] as nat + 256 * le_value(bytes.drop_first())
    }
}

/// The `len` low-order bytes of `value`, least significant first.
pub open spec fn le_bytes(value: nat, len: nat) -> Seq<u8>
    decreases len,
{
    if len == 0 {
        Seq::empty()
    } else {
        seq![(value % 256) as u8] + le_bytes(value / 256, (len - 1) as nat)
    }
}

/// Eight bytes hold exactly the values of a `u64`.
pub proof fn lemma_le_modulus_u64()
    ensures
        le_modulus(8) == u64::MAX + 1,
{
    reveal_with_fuel(le_modulus, 9);
}

/// `le_bytes` yields exactly as many bytes as were asked for.
pub proof fn lemma_le_bytes_len(value: nat, len: nat)
    ensures
        le_bytes(value, len).len() == len,
    decreases len,
{
    if len > 0 {
        lemma_le_bytes_len(value / 256, (len - 1) as nat);
    }
}

/// A run of bytes is worth less than `256` to the power of its length.
pub proof fn lemma_le_value_bound(bytes: Seq<u8>)
    ensures
        le_value(bytes) < le_modulus(bytes.len()),
    decreases bytes.len(),
{
    if bytes.len() > 0 {
        lemma_le_value_bound(bytes.drop_first());
    }
}

/// Reading back the bytes written for a number that fits gives that number.
pub proof fn lemma_le_value_of_bytes(value: nat, len: nat)
    requires
        value < le_modulus(len),
    ensures
        le_value(le_bytes(value, len)) == value,
    decreases len,
{
    if len > 0 {
        let rest = le_bytes(value / 256, (len - 1) as nat);
        let bytes = le_bytes(value, len);
        lemma_le_value_of_bytes(value / 256, (len - 1) as nat);
        assert(bytes.drop_first() =~= rest);
    }
}

/// Writing the value of a run of bytes over its own length gives the run back.
pub proof fn lemma_le_bytes_of_value(bytes: Seq<u8>)
    ensures
        le_bytes(le_value(bytes), bytes.len()) == bytes,
    decreases bytes.len(),
{
    if bytes.len() > 0 {
        let tail = bytes.drop_first();
        lemma_le_bytes_of_value(tail);
        assert(le_value(bytes) / 256 == le_value(tail));
        assert(le_value(bytes) % 256 == bytes[0]);
        assert(le_bytes(le_value(bytes), bytes.len()) =~= bytes);
    }
}

/// Reads the 64-bit little-endian number held in the eight bytes of `src`
/// that start at `offset`.
pub(crate) fn read_u64_le(src: &[u8], offset: usize) -> (value: u64)
    requires
        offset + 8 <= src@.len(),
    ensures
        value == le_value(src@.subrange(offset as int, offset + 8)),
{
    proof {
        vstd::slice::axiom_spec_len(src);
    }
    let mut value: u64 = 0;
    let mut i: usize = 8;
    while i > 0
        invariant
            i <= 8,
            offset + 8 <= src@.len() <= usize::MAX,
            value == le_value(src@.subrange(offset + i, offset + 8)),
        decreases i,
    {
        i = i - 1;
        let ghost higher = src@.subrange(offset + i + 1, offset + 8);
        let ghost field = src@.subrange(offset + i, offset + 8);
        proof {
            lemma_le_value_bound(higher);
            reveal_with_fuel(le_modulus, 9);
            assert(field.drop_first() =~= higher);
        }
        value = value * 256 + src[offset + i] as u64;
    }
    value
}

/// Writes `value` as a 64-bit little-endian number into the eight bytes of
/// `dst` that start at `offset`, and leaves every other byte as it was.
pub(crate) fn write_u64_le(dst: &mut [u8], offset: usize, value: u64)
    requires
        offset + 8 <= old(dst)@.len(),
    ensures
        final(dst)@.len() == old(dst)@.len(),
        final(dst)@.subrange(offset as int, offset + 8) == le_bytes(value as nat, 8),
        forall|k: int|
            0 <= k < old(dst)@.len() && !(offset <= k < offset + 8) ==> final(dst)@[k] == old(
                dst,
            )@[k],
{
    proof {
        vstd::slice::axiom_spec_len(dst);
    }
    let mut rest: u64 = value;
    let mut i: usize = 0;
    while i < 8
        invariant
            i <= 8,
            dst@.len() == old(dst)@.len(),
            offset + 8 <= dst@.len() <= usize::MAX,
            le_bytes(value as nat, 8) == dst@.subrange(offset as int, offset + i) + le_bytes(
                rest as nat,
                (8 - i) as nat,
            ),
            forall|k: int|
                0 <= k < dst@.len() && !(offset <= k < offset + i) ==> dst@[k] == old(dst)@[k],
        decreases 8 - i,
    {
        let ghost before = dst@;
        dst[offset + i] = (rest % 256) as u8;
        proof {
            assert(dst@.subrange(offset as int, offset + i + 1) =~= before.subrange(
                offset as int,
                offset + i,
            ).push((rest % 256) as u8));
            assert(le_bytes(value as nat, 8) =~= dst@.subrange(offset as int, offset + i + 1)
                + le_bytes((rest / 256) as nat, (8 - i - 1) as nat));
        }
        rest = rest / 256;
        i = i + 1;
    }
    proof {
        assert(le_bytes(value as nat, 8) =~= dst@.subrange(offset as int, offset + 8));
    }
}

} // verus!
