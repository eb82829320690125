//! Portable table-driven checksum.
use vstd::prelude::*;

use super::model::{
    absorb, crc_byte, crc_bytes, lanes, lemma_crc_byte, lemma_crc_concat, lemma_parallel,
    lemma_shift_bits_add, lemma_shift_byte, lemma_xor, shift_bits,
};
use super::tables::table;

verus! {

/// The checksum of `bytes` followed by the separately supplied byte `extra`.
pub open spec fn crc_with_extra(crc: u16, bytes: Seq<u8>, extra: u8) -> u16 {
    crc_byte(crc_bytes(crc, bytes), extra)
}

proof fn lemma_with_extra(crc: u16, bytes: Seq<u8>, extra: u8)
    ensures
        crc_with_extra(crc, bytes, extra) == crc_bytes(crc, bytes.push(extra)),
{
    assert(bytes.push(extra).drop_last() =~= bytes);
}

/// Shifts eight bits out of `value`.
pub fn table_entry(value: u16, polynomial: u16) -> (entry: u16)
    ensures
        entry == shift_bits(value, polynomial, 8),
{
    let mut entry = value;
    let mut bit: u32 = 0;
    while bit < 8
        invariant
            bit <= 8,
            entry == shift_bits(value, polynomial, bit as nat),
        decreases 8 - bit,
    {
        assert(entry & 1 == 0 || entry & 1 == 1) by (bit_vector);
        entry = if entry & 1 == 1 {
            (entry >> 1) ^ polynomial
        } else {
            entry >> 1
        };
        bit += 1;
    }
    entry
}

/// Tabulates, for every byte and every distance from the end of a block, what
/// the byte contributes to the register.
pub fn make_tables(polynomial: u16) -> (tables: [[u16; 256]; 16])
    ensures
        forall|lane: int, byte: int|
            0 <= lane < 16 && 0 <= byte < 256 ==> #[trigger] tables@[lane]@[byte] == shift_bits(
                byte as u16,
                polynomial,
                (8 * (lane + 1)) as nat,
            ),
{
    let mut tables: [[u16; 256]; 16] = [[0; 256]; 16];

    let mut byte: usize = 0;
    while byte < 256
        invariant
            byte <= 256,
            forall|b: int|
                0 <= b < byte ==> #[trigger] tables@[0]@[b] == shift_bits(
                    b as u16,
                    polynomial,
                    8,
                ),
        decreases 256 - byte,
    {
        tables[0][byte] = table_entry(byte as u16, polynomial);
        byte += 1;
    }

    let mut byte: usize = 0;
    while byte < 256
        invariant
            byte <= 256,
            forall|b: int|
                0 <= b < 256 ==> #[trigger] tables@[0]@[b] == shift_bits(b as u16, polynomial, 8),
            forall|k: int, b: int|
                0 <= k < 16 && 0 <= b < byte ==> #[trigger] tables@[k]@[b] == shift_bits(
                    b as u16,
                    polynomial,
                    (8 * (k + 1)) as nat,
                ),
        decreases 256 - byte,
    {
        let mut lane: usize = 1;
        while lane < 16
            invariant
                byte < 256,
                1 <= lane <= 16,
                forall|b: int|
                    0 <= b < 256 ==> #[trigger] tables@[0]@[b] == shift_bits(
                        b as u16,
                        polynomial,
                        8,
                    ),
                forall|k: int, b: int|
                    0 <= k < 16 && 0 <= b < byte ==> #[trigger] tables@[k]@[b] == shift_bits(
                        b as u16,
                        polynomial,
                        (8 * (k + 1)) as nat,
                    ),
                forall|k: int|
                    0 <= k < lane ==> #[trigger] tables@[k]@[byte as int] == shift_bits(
                        byte as u16,
                        polynomial,
                        (8 * (k + 1)) as nat,
                    ),
            decreases 16 - lane,
        {
            let previous = tables[lane - 1][byte];
            assert((previous & 0xff) < 256) by (bit_vector);
            proof {
                lemma_shift_bits_add(byte as u16, polynomial, (8 * lane) as nat, 8);
                lemma_shift_byte(previous, polynomial);
            }
            let ghost before = tables;
            tables[lane][byte] = (previous >> 8) ^ tables[0][(previous & 0xff) as usize];
            assert forall|k: int, b: int| 0 <= k < 16 && 0 <= b < 256 && !(k == lane && b == byte)
                implies #[trigger] tables@[k]@[b] == before@[k]@[b] by {}
            lane += 1;
        }
        byte += 1;
    }

    tables
}

/// Adds one byte to the register.
#[inline]
pub fn update_byte(crc: u16, byte: u8) -> (updated: u16)
    ensures
        updated == crc_byte(crc, byte),
{
    proof {
        lemma_crc_byte(crc, byte);
    }
    (crc >> 8) ^ table(0, (crc as u8) ^ byte)
}

/// Adds a handful of bytes, then `extra`.
#[inline]
pub fn update_small_and_extra(crc: u16, bytes: &[u8], extra: u8) -> (updated: u16)
    ensures
        updated == crc_with_extra(crc, bytes@, extra),
{
    assert(bytes@.skip(0) =~= bytes@);
    update_byte(update_bytes(crc, bytes, 0), extra)
}

/// Adds `bytes[start..]` one at a time.
fn update_bytes(crc: u16, bytes: &[u8], start: usize) -> (updated: u16)
    requires
        start <= bytes@.len(),
    ensures
        updated == crc_bytes(crc, bytes@.skip(start as int)),
{
    let mut updated = crc;
    let mut position = start;
    assert(bytes@.subrange(start as int, start as int) =~= Seq::<u8>::empty());
    while position < bytes.len()
        invariant
            start <= position <= bytes@.len(),
            updated == crc_bytes(crc, bytes@.subrange(start as int, position as int)),
        decreases bytes@.len() - position,
    {
        updated = update_byte(updated, bytes[position]);
        assert(bytes@.subrange(start as int, position + 1).drop_last() =~= bytes@.subrange(
            start as int,
            position as int,
        ));
        position += 1;
    }
    updated
}

/// Folds the five-byte MAVLink 1 header and `extra` in parallel.
#[inline]
pub fn update_5_and_extra(crc: u16, bytes: &[u8], extra: u8) -> (updated: u16)
    requires
        bytes@.len() == 5,
    ensures
        updated == crc_with_extra(crc, bytes@, extra),
{
    proof {
        lemma_with_extra(crc, bytes@, extra);
        lemma_parallel(crc, bytes@.push(extra));
        reveal_with_fuel(lanes, 6);
    }
    table(0, extra)
        ^ table(1, bytes[4])
        ^ table(2, bytes[3])
        ^ table(3, bytes[2])
        ^ table(4, bytes[1] ^ ((crc >> 8) as u8))
        ^ table(5, bytes[0] ^ (crc as u8))
}

/// Folds the nine-byte MAVLink 2 header and `extra` in parallel.
#[inline]
pub fn update_9_and_extra(crc: u16, bytes: &[u8], extra: u8) -> (updated: u16)
    requires
        bytes@.len() == 9,
    ensures
        updated == crc_with_extra(crc, bytes@, extra),
{
    proof {
        lemma_with_extra(crc, bytes@, extra);
        lemma_parallel(crc, bytes@.push(extra));
        reveal_with_fuel(lanes, 10);
    }
    table(0, extra)
        ^ table(1, bytes[8])
        ^ table(2, bytes[7])
        ^ table(3, bytes[6])
        ^ table(4, bytes[5])
        ^ table(5, bytes[4])
        ^ table(6, bytes[3])
        ^ table(7, bytes[2])
        ^ table(8, bytes[1] ^ ((crc >> 8) as u8))
        ^ table(9, bytes[0] ^ (crc as u8))
}

/// Folds a full nine-byte MAVLink 1 heartbeat payload, its five-byte header,
/// and `extra` without a serial lookup chain.
#[inline]
pub fn update_14_and_extra(crc: u16, bytes: &[u8], extra: u8) -> (updated: u16)
    requires
        bytes@.len() == 14,
    ensures
        updated == crc_with_extra(crc, bytes@, extra),
{
    proof {
        lemma_with_extra(crc, bytes@, extra);
        lemma_parallel(crc, bytes@.push(extra));
        reveal_with_fuel(lanes, 15);
    }
    table(0, extra)
        ^ table(1, bytes[13])
        ^ table(2, bytes[12])
        ^ table(3, bytes[11])
        ^ table(4, bytes[10])
        ^ table(5, bytes[9])
        ^ table(6, bytes[8])
        ^ table(7, bytes[7])
        ^ table(8, bytes[6])
        ^ table(9, bytes[5])
        ^ table(10, bytes[4])
        ^ table(11, bytes[3])
        ^ table(12, bytes[2])
        ^ table(13, bytes[1] ^ ((crc >> 8) as u8))
        ^ table(14, bytes[0] ^ (crc as u8))
}

/// Adds any number of bytes, sixteen at a time.
#[inline]
pub fn update(crc: u16, bytes: &[u8]) -> (updated: u16)
    ensures
        updated == crc_bytes(crc, bytes@),
{
    let mut updated = crc;
    let mut offset: usize = 0;
    assert(bytes@.take(0) =~= Seq::<u8>::empty());
    while bytes.len() - offset >= 16
        invariant
            offset <= bytes@.len(),
            updated == crc_bytes(crc, bytes@.take(offset as int)),
        decreases bytes@.len() - offset,
    {
        let ghost block = bytes@.subrange(offset as int, offset + 16);
        proof {
            assert(bytes@.take(offset + 16) =~= bytes@.take(offset as int) + block);
            lemma_crc_concat(crc, bytes@.take(offset as int), block);
            lemma_parallel(updated, block);
            reveal_with_fuel(lanes, 16);
        }
        let first = bytes[offset] ^ (updated as u8);
        let second = bytes[offset + 1] ^ ((updated >> 8) as u8);
        updated = table(0, bytes[offset + 15])
            ^ table(1, bytes[offset + 14])
            ^ table(2, bytes[offset + 13])
            ^ table(3, bytes[offset + 12])
            ^ table(4, bytes[offset + 11])
            ^ table(5, bytes[offset + 10])
            ^ table(6, bytes[offset + 9])
            ^ table(7, bytes[offset + 8])
            ^ table(8, bytes[offset + 7])
            ^ table(9, bytes[offset + 6])
            ^ table(10, bytes[offset + 5])
            ^ table(11, bytes[offset + 4])
            ^ table(12, bytes[offset + 3])
            ^ table(13, bytes[offset + 2])
            ^ table(14, second)
            ^ table(15, first);
        offset += 16;
    }
    proof {
        assert(bytes@ =~= bytes@.take(offset as int) + bytes@.skip(offset as int));
        lemma_crc_concat(crc, bytes@.take(offset as int), bytes@.skip(offset as int));
    }
    update_bytes(updated, bytes, offset)
}

/// Adds exactly fifteen bytes, then `extra`.
///
/// This avoids turning a final sixteen-byte block into serial table lookups
/// just because its last byte is passed separately.
#[inline]
pub fn update_15_and_extra(crc: u16, bytes: &[u8], extra: u8) -> (updated: u16)
    requires
        bytes@.len() == 15,
    ensures
        updated == crc_with_extra(crc, bytes@, extra),
{
    proof {
        lemma_with_extra(crc, bytes@, extra);
        lemma_parallel(crc, bytes@.push(extra));
        reveal_with_fuel(lanes, 16);
    }
    let first = bytes[0] ^ (crc as u8);
    let second = bytes[1] ^ ((crc >> 8) as u8);
    table(0, extra)
        ^ table(1, bytes[14])
        ^ table(2, bytes[13])
        ^ table(3, bytes[12])
        ^ table(4, bytes[11])
        ^ table(5, bytes[10])
        ^ table(6, bytes[9])
        ^ table(7, bytes[8])
        ^ table(8, bytes[7])
        ^ table(9, bytes[6])
        ^ table(10, bytes[5])
        ^ table(11, bytes[4])
        ^ table(12, bytes[3])
        ^ table(13, bytes[2])
        ^ table(14, second)
        ^ table(15, first)
}

/// Folds a short remainder and `extra` in parallel.
#[inline]
pub fn update_tail_and_extra(crc: u16, bytes: &[u8], extra: u8) -> (updated: u16)
    requires
        2 <= bytes@.len() < 16,
    ensures
        updated == crc_with_extra(crc, bytes@, extra),
{
    let total: usize = bytes.len() + 1;
    let ghost block = bytes@.push(extra);
    let ghost folded = absorb(crc, block);
    proof {
        lemma_with_extra(crc, bytes@, extra);
        lemma_parallel(crc, block);
    }
    let mut result: u16 = 0;
    let mut position: usize = 0;
    proof {
        lemma_xor(lanes(folded, total as nat), 0, 0);
    }
    while position < total
        invariant
            total == bytes@.len() + 1,
            2 <= bytes@.len() < 16,
            position <= total,
            block == bytes@.push(extra),
            folded == absorb(crc, block),
            position < total ==> result ^ lanes(folded, (total - position) as nat) == lanes(
                folded,
                total as nat,
            ),
            position == total ==> result == lanes(folded, total as nat),
        decreases total - position,
    {
        let mut byte = if position == bytes.len() {
            extra
        } else {
            bytes[position]
        };
        if position == 0 {
            byte = byte ^ (crc as u8);
        } else if position == 1 {
            byte = byte ^ ((crc >> 8) as u8);
        }
        assert(byte == folded[position as int]);
        let value = table(total - position - 1, byte);
        proof {
            lemma_xor(lanes(folded, (total - position - 1) as nat), value, 0);
            lemma_xor(result, value, lanes(folded, (total - position - 1) as nat));
        }
        result = result ^ value;
        position += 1;
    }
    result
}

} // verus!
