//! Small helpers on byte strings: copying, appending, big-endian numbers.

use vstd::prelude::*;

verus! {

/// The number that `bytes` spells in big-endian order.
pub open spec fn be_value(bytes: Seq<u8>) -> nat
    decreases bytes.len(),
{
    if bytes.len() == 0 {
        0
    } else {
        be_value(bytes.drop_last()) * 256 + bytes.last() as nat
    }
}

/// A big-endian number of `bytes.len()` digits is below `256` to that power.
pub proof fn lemma_be_value_bound(bytes: Seq<u8>)
    ensures
        bytes.len() == 0 ==> be_value(bytes) == 0,
        bytes.len() == 1 ==> be_value(bytes) == bytes[0],
        bytes.len() == 2 ==> be_value(bytes) == bytes[0] * 0x100 + bytes[1],
        bytes.len() == 3 ==> be_value(bytes) == bytes[0] * 0x1_0000 + bytes[1] * 0x100 + bytes[2],
        bytes.len() == 4 ==> be_value(bytes) == bytes[0] * 0x100_0000 + bytes[1] * 0x1_0000
            + bytes[2] * 0x100 + bytes[3],
        bytes.len() <= 4 ==> be_value(bytes) <= 0xFFFF_FFFF,
{
    reveal_with_fuel(be_value, 5);
    if bytes.len() >= 1 && bytes.len() <= 4 {
        let a = bytes.drop_last();
        if a.len() >= 1 {
            let b = a.drop_last();
            if b.len() >= 1 {
                let c = b.drop_last();
                if c.len() >= 1 {
                    assert(c.drop_last().len() == 0);
                }
            }
        }
    }
}

/// The four bytes that spell `value` in big-endian order.
pub open spec fn be_u32(value: u32) -> Seq<u8> {
    seq![
        (value / 0x100_0000) as u8,
        (value / 0x1_0000 % 0x100) as u8,
        (value / 0x100 % 0x100) as u8,
        (value % 0x100) as u8,
    ]
}

/// Reading back the four big-endian bytes of a number gives the number.
pub proof fn lemma_be_u32_value(value: u32)
    ensures
        be_u32(value).len() == 4,
        be_value(be_u32(value)) == value,
{
    lemma_be_value_bound(be_u32(value));
}

/// Appends `bytes` to `buffer`.
pub(crate) fn append(buffer: &mut Vec<u8>, bytes: &[u8])
    ensures
        final(buffer)@ == old(buffer)@ + bytes@,
{
    let mut i: usize = 0;
    while i < bytes.len()
        invariant
            i <= bytes@.len(),
            buffer@ == old(buffer)@ + bytes@.subrange(0, i as int),
        decreases bytes@.len() - i,
    {
        buffer.push(bytes[i]);
        i += 1;
    }
    assert(bytes@.subrange(0, i as int) == bytes@);
}

/// Appends the bytes of `bytes` from `start` up to `end` to `buffer`.
pub(crate) fn append_range(buffer: &mut Vec<u8>, bytes: &[u8], start: usize, end: usize)
    requires
        start <= end <= bytes@.len(),
    ensures
        final(buffer)@ == old(buffer)@ + bytes@.subrange(start as int, end as int),
{
    let mut i: usize = start;
    while i < end
        invariant
            start <= i <= end <= bytes@.len(),
            buffer@ == old(buffer)@ + bytes@.subrange(start as int, i as int),
        decreases end - i,
    {
        buffer.push(bytes[i]);
        i += 1;
    }
}

/// Copies the bytes of `bytes` from `start` up to `end`.
pub(crate) fn copy_range(bytes: &[u8], start: usize, end: usize) -> (copy: Vec<u8>)
    requires
        start <= end <= bytes@.len(),
    ensures
        copy@ == bytes@.subrange(start as int, end as int),
{
    let mut copy: Vec<u8> = Vec::new();
    let mut i: usize = start;
    while i < end
        invariant
            start <= i <= end <= bytes@.len(),
            copy@ == bytes@.subrange(start as int, i as int),
        decreases end - i,
    {
        copy.push(bytes[i]);
        i += 1;
    }
    copy
}

/// Appends the four big-endian bytes of `value` to `buffer`.
pub(crate) fn append_be_u32(buffer: &mut Vec<u8>, value: u32)
    ensures
        final(buffer)@ == old(buffer)@ + be_u32(value),
{
    buffer.push((value / 0x100_0000) as u8);
    buffer.push((value / 0x1_0000 % 0x100) as u8);
    buffer.push((value / 0x100 % 0x100) as u8);
    buffer.push((value % 0x100) as u8);
    assert(buffer@ == old(buffer)@ + be_u32(value));
}

/// Reads the big-endian number in `bytes` from `start` up to `end`, at most four digits.
pub(crate) fn read_be(bytes: &[u8], start: usize, end: usize) -> (value: u32)
    requires
        start <= end <= bytes@.len(),
        end - start <= 4,
    ensures
        value == be_value(bytes@.subrange(start as int, end as int)),
{
    let mut value: u32 = 0;
    let mut i: usize = start;
    while i < end
        invariant
            start <= i <= end <= bytes@.len(),
            end - start <= 4,
            value == be_value(bytes@.subrange(start as int, i as int)),
        decreases end - i,
    {
        proof {
            let before = bytes@.subrange(start as int, i as int);
            let after = bytes@.subrange(start as int, i + 1);
            assert(after.drop_last() == before);
            assert(after.last() == bytes@[i as int]);
            lemma_be_value_bound(before);
            lemma_be_value_bound(after);
        }
        value = value * 256 + bytes[i] as u32;
        i += 1;
    }
    value
}

} // verus!
