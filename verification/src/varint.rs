//! Unsigned variable-length integers, as the block archive writes its lengths.

use vstd::prelude::*;

verus! {

/// The most bytes that one integer may take.
pub const MAX_WIDTH: usize = 10;

/// The outcome of reading one integer.
#[derive(Debug, Clone, Copy, PartialEq, Eq, Structural)]
pub enum VarintRead {
    /// An integer, and the number of bytes it took.
    Value { value: u64, width: usize },
    /// The input ended before the integer did.
    Short,
    /// Ten bytes went by and each of them announced another.
    Overlong,
}

/// The integer that starts at `at`, given that `i` of its bytes were read into `acc`.
///
/// Each byte carries seven bits, the lowest first; its top bit says whether another byte
/// follows. Bits that do not fit in 64 are dropped.
pub open spec fn varint_from(s: Seq<u8>, at: int, i: int, acc: u64) -> VarintRead
    decreases MAX_WIDTH - i,
{
    if i >= MAX_WIDTH || i < 0 {
        VarintRead::Overlong
    } else if at < 0 || at + i >= s.len() {
        VarintRead::Short
    } else {
        let byte = s[at + i];
        let next = acc | (((byte & 0x7f) as u64) << ((i * 7) as u64));
        if byte & 0x80 == 0 {
            VarintRead::Value { value: next, width: (i + 1) as usize }
        } else {
            varint_from(s, at, i + 1, next)
        }
    }
}

/// The integer that starts at `at` in `s`.
pub open spec fn varint_at(s: Seq<u8>, at: int) -> VarintRead {
    varint_from(s, at, 0, 0)
}

/// An integer that was read has a width between one and ten and lies within the input.
pub proof fn lemma_varint_width(s: Seq<u8>, at: int, i: int, acc: u64)
    requires
        0 <= i,
    ensures
        varint_from(s, at, i, acc) matches VarintRead::Value { width, .. } ==> i < width
            <= MAX_WIDTH && at + width <= s.len(),
    decreases MAX_WIDTH - i,
{
    if i < MAX_WIDTH && 0 <= at && at + i < s.len() {
        let byte = s[at + i];
        let next = acc | (((byte & 0x7f) as u64) << ((i * 7) as u64));
        if byte & 0x80 != 0 {
            lemma_varint_width(s, at, i + 1, next);
        }
    }
}

/// Reads the integer that starts at `at`.
pub fn read_varint(bytes: &[u8], at: usize) -> (read: VarintRead)
    ensures
        read == varint_at(bytes@, at as int),
        read matches VarintRead::Value { width, .. } ==> 0 < width <= MAX_WIDTH && at + width
            <= bytes.len(),
{
    let mut acc: u64 = 0;
    let mut i: usize = 0;
    proof {
        lemma_varint_width(bytes@, at as int, 0, 0);
    }
    while i < MAX_WIDTH
        invariant
            i <= MAX_WIDTH,
            varint_at(bytes@, at as int) == varint_from(bytes@, at as int, i as int, acc),
        decreases MAX_WIDTH - i,
    {
        if at >= bytes.len() || i >= bytes.len() - at {
            return VarintRead::Short;
        }
        let byte: u8 = bytes[at + i];
        let shift: u64 = (i as u64) * 7;
        let next: u64 = acc | (((byte & 0x7f) as u64) << shift);
        if byte & 0x80 == 0 {
            return VarintRead::Value { value: next, width: i + 1 };
        }
        acc = next;
        i += 1;
    }
    VarintRead::Overlong
}

} // verus!
