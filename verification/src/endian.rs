//! Unsigned integers in network byte order, most significant byte first.

use vstd::prelude::*;

verus! {

/// 256 to the power `n`: the number of values that `n` bytes can hold.
pub open spec fn pow256(n: nat) -> nat
    decreases n,
{
    if n == 0 {
        1
    } else {
        256 * pow256((n - 1) as nat)
    }
}

/// The number that `bytes` spell, most significant byte first.
pub open spec fn be_value(bytes: Seq<u8>) -> nat
    decreases bytes.len(),
{
    if bytes.len() == 0 {
        0
    } else {
        be_value(bytes.drop_last()) * 256 + bytes.last() as nat
    }
}

/// The `width` low-order bytes of `value`, most significant byte first.
pub open spec fn be_bytes(value: nat, width: nat) -> Seq<u8>
    decreases width,
{
    if width == 0 {
        Seq::empty()
    } else {
        be_bytes(value / 256, (width - 1) as nat).push((value % 256) as u8)
    }
}

/// `be_bytes` yields exactly `width` bytes.
pub proof fn lemma_be_bytes_len(value: nat, width: nat)
    ensures
        be_bytes(value, width).len() == width,
    decreases width,
{
    if width > 0 {
        lemma_be_bytes_len(value / 256, (width - 1) as nat);
    }
}

/// What `n` bytes spell is below 256 to the power `n`.
pub proof fn lemma_be_value_bound(bytes: Seq<u8>)
    ensures
        be_value(bytes) < pow256(bytes.len()),
    decreases bytes.len(),
{
    if bytes.len() > 0 {
        lemma_be_value_bound(bytes.drop_last());
    }
}

/// A value that fits in `width` bytes is read back from its bytes.
pub proof fn lemma_be_value_of_be_bytes(value: nat, width: nat)
    requires
        value < pow256(width),
    ensures
        be_value(be_bytes(value, width)) == value,
    decreases width,
{
    if width > 0 {
        let head = be_bytes(value / 256, (width - 1) as nat);
        lemma_be_value_of_be_bytes(value / 256, (width - 1) as nat);
        assert(be_bytes(value, width).drop_last() =~= head);
    }
}

/// Bytes are written back from the value they spell.
pub proof fn lemma_be_bytes_of_be_value(bytes: Seq<u8>)
    ensures
        be_bytes(be_value(bytes), bytes.len()) == bytes,
    decreases bytes.len(),
{
    if bytes.len() > 0 {
        lemma_be_bytes_of_be_value(bytes.drop_last());
        assert(be_bytes(be_value(bytes), bytes.len()) =~= bytes);
    }
}

/// Eight bytes hold exactly the values of a `u64`, two those of a `u16`.
pub proof fn lemma_pow256_values()
    ensures
        pow256(0) == 1,
        pow256(2) == 0x1_0000,
        pow256(8) == 0x1_0000_0000_0000_0000,
{
    reveal_with_fuel(pow256, 9);
}

/// Reads the `width` bytes of `bytes` that start at `at` as one number.
pub fn read_be(bytes: &[u8], at: usize, width: usize) -> (value: u64)
    requires
        width <= 8,
        at + width <= bytes@.len(),
    ensures
        value == be_value(bytes@.subrange(at as int, at + width)),
{
    let total = bytes.len();
    let mut value: u64 = 0;
    let mut i: usize = 0;
    proof {
        lemma_pow256_values();
    }
    while i < width
        invariant
            i <= width <= 8,
            at + width <= total == bytes@.len(),
            value == be_value(bytes@.subrange(at as int, at + i)),
            value < pow256(i as nat),
            pow256(8) == 0x1_0000_0000_0000_0000,
        decreases width - i,
    {
        let byte: u8 = bytes[at + i];
        proof {
            let next = bytes@.subrange(at as int, at + i + 1);
            assert(next.drop_last() =~= bytes@.subrange(at as int, at + i));
            assert(next.last() == byte);
            lemma_pow256_monotonic((i + 1) as nat, 8);
        }
        value = value * 256 + byte as u64;
        i = i + 1;
    }
    value
}

/// Appends the `width` low-order bytes of `value` to `sink`, most
/// significant byte first.
pub fn push_be(sink: &mut Vec<u8>, value: u64, width: usize)
    ensures
        final(sink)@ == old(sink)@ + be_bytes(value as nat, width as nat),
    decreases width,
{
    if width > 0 {
        push_be(sink, value / 256, width - 1);
        sink.push((value % 256) as u8);
        assert(sink@ =~= old(sink)@ + be_bytes(value as nat, width as nat));
    } else {
        assert(sink@ =~= old(sink)@ + be_bytes(value as nat, width as nat));
    }
}

/// More bytes hold more values.
pub proof fn lemma_pow256_monotonic(m: nat, n: nat)
    requires
        m <= n,
    ensures
        pow256(m) <= pow256(n),
        pow256(m) >= 1,
    decreases n - m,
{
    lemma_pow256_positive(m);
    if m < n {
        lemma_pow256_monotonic(m + 1, n);
    }
}

proof fn lemma_pow256_positive(n: nat)
    ensures
        pow256(n) >= 1,
    decreases n,
{
    if n > 0 {
        lemma_pow256_positive((n - 1) as nat);
    }
}

} // verus!
