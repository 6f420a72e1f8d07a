//! Little-endian numbers inside byte sequences.

use vstd::prelude::*;

verus! {

/// `value` in `count` bytes, the least significant byte first.
pub open spec fn le_bytes(value: nat, count: nat) -> Seq<u8>
    decreases count,
{
    if count == 0 {
        Seq::empty()
    } else {
        seq![(value % 256) as u8] + le_bytes(value / 256, (count - 1) as nat)
    }
}

/// The number that `bytes` spell, the least significant byte first.
pub open spec fn le_value(bytes: Seq<u8>) -> nat
    decreases bytes.len(),
{
    if bytes.len() == 0 {
        0
    } else {
        bytes[0] as nat + 256 * le_value(bytes.skip(1))
    }
}

/// The little-endian number in the `count` bytes of `bytes` at `offset`.
pub open spec fn le_field(bytes: Seq<u8>, offset: int, count: int) -> nat {
    le_value(bytes.subrange(offset, offset + count))
}

/// `256` to the power of `count`: how many numbers fit in `count` bytes.
pub open spec fn le_range(count: nat) -> nat
    decreases count,
{
    if count == 0 {
        1
    } else {
        256 * le_range((count - 1) as nat)
    }
}

/// `count` bytes are written for a number.
pub proof fn lemma_le_bytes_len(value: nat, count: nat)
    ensures
        le_bytes(value, count).len() == count,
    decreases count,
{
    if count > 0 {
        lemma_le_bytes_len(value / 256, (count - 1) as nat);
    }
}

/// A number that fits in `count` bytes is read back from the bytes written for it.
pub proof fn law_le_bytes_read_back(value: nat, count: nat)
    requires
        value < le_range(count),
    ensures
        le_value(le_bytes(value, count)) == value,
    decreases count,
{
    if count > 0 {
        let rest = le_bytes(value / 256, (count - 1) as nat);
        law_le_bytes_read_back(value / 256, (count - 1) as nat);
        assert(le_bytes(value, count).skip(1) =~= rest);
        assert(value == 256 * (value / 256) + value % 256);
    }
}

/// The number of values that two, four and eight bytes can spell.
pub proof fn lemma_le_ranges()
    ensures
        le_range(2) == 0x1_0000,
        le_range(4) == 0x1_0000_0000,
        le_range(8) == 0x1_0000_0000_0000_0000,
{
    reveal_with_fuel(le_range, 9);
}

/// Appends `value` to `bytes` in `count` little-endian bytes.
pub fn push_le(bytes: &mut Vec<u8>, value: u64, count: usize)
    ensures
        final(bytes)@ == old(bytes)@ + le_bytes(value as nat, count as nat),
{
    let mut rest: u64 = value;
    let mut written: usize = 0;
    proof {
        assert(old(bytes)@ + le_bytes(value as nat, count as nat) == bytes@ + le_bytes(
            rest as nat,
            (count - written) as nat,
        ));
    }
    while written < count
        invariant
            written <= count,
            old(bytes)@ + le_bytes(value as nat, count as nat) == bytes@ + le_bytes(
                rest as nat,
                (count - written) as nat,
            ),
        decreases count - written,
    {
        let ghost before = bytes@;
        let ghost tail = le_bytes((rest / 256) as nat, (count - written - 1) as nat);
        bytes.push((rest % 256) as u8);
        proof {
            assert(bytes@ + tail =~= before + (seq![(rest % 256) as u8] + tail));
        }
        rest = rest / 256;
        written = written + 1;
    }
    proof {
        assert(bytes@ + le_bytes(rest as nat, 0) =~= bytes@);
    }
}

/// Reads the little-endian number in the `count` bytes at `offset`.
pub fn read_le(bytes: &[u8], offset: usize, count: usize) -> (value: u64)
    requires
        offset + count <= bytes@.len(),
        count <= 8,
    ensures
        value as nat == le_field(bytes@, offset as int, count as int),
        (value as nat) < le_range(count as nat),
{
    let mut value: u64 = 0;
    let mut unread: usize = count;
    let length: usize = bytes.len();
    proof {
        assert(bytes@.subrange(offset + count, offset + count).len() == 0);
        reveal_with_fuel(le_range, 9);
    }
    while unread > 0
        invariant
            unread <= count,
            count <= 8,
            offset + count <= bytes@.len(),
            bytes@.len() == length,
            value as nat == le_value(bytes@.subrange(offset + unread, offset + count)),
            (value as nat) < le_range((count - unread) as nat),
        decreases unread,
    {
        let ghost longer = bytes@.subrange(offset + unread - 1, offset + count);
        proof {
            assert(longer.skip(1) =~= bytes@.subrange(offset + unread, offset + count));
            reveal_with_fuel(le_range, 9);
        }
        unread = unread - 1;
        value = bytes[offset + unread] as u64 + 256 * value;
    }
    value
}

/// The first byte of a number counts ones, the second one 256s, and so on.
pub proof fn law_bytes_have_weights(bytes: Seq<u8>)
    ensures
        bytes.len() == 1 ==> le_value(bytes) == bytes[0],
        bytes.len() == 2 ==> le_value(bytes) == bytes[0] + 0x100 * bytes[1],
        bytes.len() == 4 ==> le_value(bytes) == bytes[0] + 0x100 * bytes[1] + 0x1_0000 * bytes[2]
            + 0x100_0000 * bytes[3],
        bytes.len() == 8 ==> le_value(bytes) == bytes[0] + 0x100 * bytes[1] + 0x1_0000 * bytes[2]
            + 0x100_0000 * bytes[3] + 0x1_0000_0000 * bytes[4] + 0x100_0000_0000 * bytes[5]
            + 0x1_0000_0000_0000 * bytes[6] + 0x100_0000_0000_0000 * bytes[7],
{
    reveal_with_fuel(le_value, 9);
}

/// A number that fits is written as bytes of which the first one counts ones, the second
/// one 256s, and so on.
pub proof fn law_written_bytes_have_weights(value: nat)
    ensures
        value < 0x1_0000 ==> ({
            let bytes = le_bytes(value, 2);
            bytes.len() == 2 && bytes[0] + 0x100 * bytes[1] == value
        }),
        value < 0x1_0000_0000 ==> ({
            let bytes = le_bytes(value, 4);
            bytes.len() == 4 && bytes[0] + 0x100 * bytes[1] + 0x1_0000 * bytes[2] + 0x100_0000
                * bytes[3] == value
        }),
{
    lemma_le_ranges();
    lemma_le_bytes_len(value, 2);
    lemma_le_bytes_len(value, 4);
    law_bytes_have_weights(le_bytes(value, 2));
    law_bytes_have_weights(le_bytes(value, 4));
    if value < 0x1_0000 {
        law_le_bytes_read_back(value, 2);
    }
    if value < 0x1_0000_0000 {
        law_le_bytes_read_back(value, 4);
    }
}

} // verus!
