//! Machine words as bytes.
//!
//! A record that crosses into user space is laid out as the task's ABI
//! reads it: each unsigned machine word as `usize::BITS / 8` bytes, the least
//! significant byte first.
use vstd::prelude::*;

verus! {

/// 256 to the power `n`: the number of values that `n` bytes can take.
pub open spec fn pow256(n: nat) -> nat
    decreases n,
{
    if n == 0 {
        1
    } else {
        256 * pow256((n - 1) as nat)
    }
}

/// The `n` low bytes of `x`, the least significant first.
pub open spec fn le_bytes(x: nat, n: nat) -> Seq<u8>
    decreases n,
{
    if n == 0 {
        Seq::empty()
    } else {
        seq![(x % 256) as u8] + le_bytes(x / 256, (n - 1) as nat)
    }
}

/// The number whose bytes, the least significant first, are `bytes`.
pub open spec fn le_value(bytes: Seq<u8>) -> nat
    decreases bytes.len(),
{
    if bytes.len() == 0 {
        0
    } else {
        bytes[0] as nat + 256 * le_value(bytes.drop_first())
    }
}

/// The number of bytes in a machine word.
pub open spec fn word_size_spec() -> usize {
    (usize::BITS / 8) as usize
}

/// The number of bytes in a machine word.
#[verifier::when_used_as_spec(word_size_spec)]
pub fn word_size() -> (n: usize)
    ensures
        n == word_size(),
        n == 4 || n == 8,
{
    (usize::BITS / 8) as usize
}

/// `le_bytes(x, n)` has `n` bytes.
pub proof fn le_bytes_len(x: nat, n: nat)
    ensures
        le_bytes(x, n).len() == n,
    decreases n,
{
    if n > 0 {
        le_bytes_len(x / 256, (n - 1) as nat);
    }
}

/// `n` bytes hold a number below `pow256(n)`.
pub proof fn le_value_bound(bytes: Seq<u8>)
    ensures
        le_value(bytes) < pow256(bytes.len()),
    decreases bytes.len(),
{
    if bytes.len() > 0 {
        le_value_bound(bytes.drop_first());
    }
}

/// A number that fits in `n` bytes is read back from its `n` bytes.
pub proof fn le_value_of_le_bytes(x: nat, n: nat)
    requires
        x < pow256(n),
    ensures
        le_value(le_bytes(x, n)) == x,
    decreases n,
{
    if n > 0 {
        let rest = le_bytes(x / 256, (n - 1) as nat);
        le_bytes_len(x / 256, (n - 1) as nat);
        le_value_of_le_bytes(x / 256, (n - 1) as nat);
        assert(le_bytes(x, n).drop_first() =~= rest);
    }
}

/// `n` bytes are the `n` bytes of the number they hold.
pub proof fn le_bytes_of_le_value(bytes: Seq<u8>)
    ensures
        le_bytes(le_value(bytes), bytes.len()) == bytes,
    decreases bytes.len(),
{
    if bytes.len() > 0 {
        le_bytes_of_le_value(bytes.drop_first());
        assert(le_bytes(le_value(bytes), bytes.len()) =~= bytes);
    }
}

/// Every machine word fits in `word_size()` bytes, and no larger number does.
pub proof fn word_fits()
    ensures
        pow256(word_size() as nat) == usize::MAX + 1,
{
    reveal_with_fuel(pow256, 9);
}

/// The bytes of `x`, the least significant first.
pub fn word_to_bytes(x: usize) -> (bytes: Vec<u8>)
    ensures
        bytes@ == le_bytes(x as nat, word_size() as nat),
{
    let n = word_size();
    let mut bytes: Vec<u8> = Vec::with_capacity(n);
    let mut rest = x;
    let mut i: usize = 0;
    while i < n
        invariant
            i <= n,
            bytes@ + le_bytes(rest as nat, (n - i) as nat) == le_bytes(x as nat, n as nat),
        decreases n - i,
    {
        let ghost tail = le_bytes((rest / 256) as nat, (n - i - 1) as nat);
        assert(bytes@.push((rest % 256) as u8) + tail =~= bytes@ + (seq![(rest % 256) as u8]
            + tail));
        bytes.push((rest % 256) as u8);
        rest = rest / 256;
        i += 1;
    }
    assert(bytes@ + Seq::<u8>::empty() =~= bytes@);
    bytes
}

/// The word whose bytes, the least significant first, are `bytes`; `None`
/// unless there are exactly `word_size()` of them.
pub fn word_from_bytes(bytes: &[u8]) -> (word: Option<usize>)
    ensures
        bytes@.len() == word_size() ==> word == Some(le_value(bytes@) as usize),
        bytes@.len() == word_size() ==> le_value(bytes@) <= usize::MAX,
        bytes@.len() != word_size() ==> word.is_none(),
{
    let n = word_size();
    if bytes.len() != n {
        return None;
    }
    let mut value: usize = 0;
    let mut i: usize = n;
    while i > 0
        invariant
            i <= n == bytes@.len(),
            n == word_size(),
            value == le_value(bytes@.subrange(i as int, n as int)),
        decreases i,
    {
        let ghost tail = bytes@.subrange(i as int, n as int);
        let ghost next = bytes@.subrange(i - 1, n as int);
        proof {
            assert(next.drop_first() =~= tail);
            le_value_bound(next);
            pow256_grows(next.len(), n as nat);
            word_fits();
        }
        value = value * 256 + bytes[i - 1] as usize;
        i -= 1;
    }
    proof {
        assert(bytes@.subrange(0, n as int) =~= bytes@);
    }
    Some(value)
}

/// `pow256` does not decrease.
proof fn pow256_grows(m: nat, n: nat)
    requires
        m <= n,
    ensures
        pow256(m) <= pow256(n),
    decreases n,
{
    if m < n {
        pow256_grows(m, (n - 1) as nat);
    }
}

} // verus!
