//! The checksum, bit by bit.
use vstd::prelude::*;

use crate::crc::model::{
    crc_byte, crc_bytes, lemma_shift_bits_linear, lemma_shift_byte, lemma_xor, shift_bit,
    shift_bits, POLYNOMIAL,
};
use crate::crc::{calculate, mavlink_crc, Digest};

verus! {

/// The register of CRC-16/MCRF4XX after one more bit has left it.
pub open spec fn next_bit(register: u16) -> u16 {
    if register & 1 == 1 {
        (register >> 1) ^ 0x8408
    } else {
        register >> 1
    }
}

/// The register after one more byte.
pub open spec fn next_byte(register: u16, byte: u8) -> u16 {
    let mixed = register ^ (byte as u16);
    next_bit(next_bit(next_bit(next_bit(next_bit(next_bit(next_bit(next_bit(mixed))))))))
}

/// The register after `bytes`, first to last.
pub open spec fn checksum(register: u16, bytes: Seq<u8>) -> u16
    decreases bytes.len(),
{
    if bytes.len() == 0 {
        register
    } else {
        checksum(next_byte(register, bytes[0]), bytes.drop_first())
    }
}

/// Low byte first.
pub open spec fn low_high(value: u16) -> Seq<u8> {
    seq![(value % 256) as u8, (value / 256) as u8]
}

pub(crate) proof fn lemma_bits(x: u16, y: u16, a: u8, b: u8)
    by (bit_vector)
    ensures
        next_bit(x) == next_bit(y) ==> x == y,
        x ^ (a as u16) == y ^ (a as u16) ==> x == y,
        x ^ (a as u16) == x ^ (b as u16) ==> a == b,
        (x ^ (((x % 256) as u8) as u16)) & 0xff == 0,
        (x ^ (((x % 256) as u8) as u16)) >> 8 == x >> 8,
        (x >> 8) ^ (((x / 256) as u8) as u16) == 0,
        shift_bit(x, 0x8408) == next_bit(x),
        a & !1 == 0 <==> a <= 1,
        a & 1 == a % 2,
{
}

proof fn lemma_byte(register: u16, byte: u8)
    ensures
        crc_byte(register, byte) == next_byte(register, byte),
{
    let mixed = register ^ (byte as u16);
    reveal_with_fuel(shift_bits, 9);
    let one = next_bit(mixed);
    let two = next_bit(one);
    let three = next_bit(two);
    let four = next_bit(three);
    let five = next_bit(four);
    let six = next_bit(five);
    let seven = next_bit(six);
    lemma_bits(mixed, 0, 0, 0);
    lemma_bits(one, 0, 0, 0);
    lemma_bits(two, 0, 0, 0);
    lemma_bits(three, 0, 0, 0);
    lemma_bits(four, 0, 0, 0);
    lemma_bits(five, 0, 0, 0);
    lemma_bits(six, 0, 0, 0);
    lemma_bits(seven, 0, 0, 0);
    assert(POLYNOMIAL == 0x8408);
}

/// Eight bits that leave the register lose nothing.
proof fn lemma_eight_bits(x: u16, y: u16)
    requires
        next_bit(
            next_bit(next_bit(next_bit(next_bit(next_bit(next_bit(next_bit(x))))))),
        ) == next_bit(next_bit(next_bit(next_bit(next_bit(next_bit(next_bit(next_bit(y)))))))),
    ensures
        x == y,
{
    let (x1, y1) = (next_bit(x), next_bit(y));
    let (x2, y2) = (next_bit(x1), next_bit(y1));
    let (x3, y3) = (next_bit(x2), next_bit(y2));
    let (x4, y4) = (next_bit(x3), next_bit(y3));
    let (x5, y5) = (next_bit(x4), next_bit(y4));
    let (x6, y6) = (next_bit(x5), next_bit(y5));
    let (x7, y7) = (next_bit(x6), next_bit(y6));
    lemma_bits(x7, y7, 0, 0);
    lemma_bits(x6, y6, 0, 0);
    lemma_bits(x5, y5, 0, 0);
    lemma_bits(x4, y4, 0, 0);
    lemma_bits(x3, y3, 0, 0);
    lemma_bits(x2, y2, 0, 0);
    lemma_bits(x1, y1, 0, 0);
    lemma_bits(x, y, 0, 0);
}

/// What the register is after a byte tells both of them apart.
proof fn lemma_register(x: u16, y: u16, a: u8, b: u8)
    ensures
        next_byte(x, a) == next_byte(y, a) ==> x == y,
        next_byte(x, a) == next_byte(x, b) ==> a == b,
{
    lemma_bits(x, y, a, b);
    if next_byte(x, a) == next_byte(y, a) {
        lemma_eight_bits(x ^ (a as u16), y ^ (a as u16));
    }
    if next_byte(x, a) == next_byte(x, b) {
        lemma_eight_bits(x ^ (a as u16), x ^ (b as u16));
    }
}

/// A register that is given itself is empty.
proof fn lemma_emptied(register: u16)
    ensures
        next_byte(
            next_byte(register, (register % 256) as u8),
            (register / 256) as u8,
        ) == 0,
{
    let low = (register % 256) as u8;
    let high = (register / 256) as u8;
    let mixed = register ^ (low as u16);
    lemma_bits(register, 0, 0, 0);
    lemma_byte(register, low);
    lemma_shift_byte(mixed, POLYNOMIAL);
    lemma_shift_bits_linear(0, 0, POLYNOMIAL, 8);
    lemma_xor(register >> 8, 0, 0);
    lemma_byte(register >> 8, high);
}

/// One more byte at the end.
pub proof fn lemma_checksum_push(register: u16, bytes: Seq<u8>, byte: u8)
    ensures
        checksum(register, bytes.push(byte)) == next_byte(checksum(register, bytes), byte),
    decreases bytes.len(),
{
    let more = bytes.push(byte);
    if bytes.len() == 0 {
        assert(more.drop_first() =~= Seq::<u8>::empty());
        assert(checksum(next_byte(register, byte), more.drop_first()) == next_byte(register, byte));
    } else {
        lemma_checksum_push(next_byte(register, bytes[0]), bytes.drop_first(), byte);
        assert(more.drop_first() =~= bytes.drop_first().push(byte));
    }
}

/// The library computes this checksum.
pub proof fn lemma_checksum(register: u16, bytes: Seq<u8>)
    ensures
        crc_bytes(register, bytes) == checksum(register, bytes),
    decreases bytes.len(),
{
    if bytes.len() > 0 {
        let shorter = bytes.drop_last();
        lemma_checksum(register, shorter);
        lemma_checksum_push(register, shorter, bytes.last());
        lemma_byte(checksum(register, shorter), bytes.last());
        assert(shorter.push(bytes.last()) =~= bytes);
    }
}

/// The checksum of a message, with its extra byte.
pub proof fn lemma_message_checksum(bytes: Seq<u8>, extra: u8)
    ensures
        mavlink_crc(bytes, extra) == checksum(0xffff, bytes.push(extra)),
{
    lemma_checksum(0xffff, bytes);
    lemma_checksum_push(0xffff, bytes, extra);
    lemma_byte(checksum(0xffff, bytes), extra);
}

/// What is calculated for a message is CRC-16/MCRF4XX, from the register `0xffff`, of its
/// bytes and the extra byte behind them.
pub proof fn law_calculated_checksum(bytes: &[u8], extra: u8, crc: u16)
    requires
        call_ensures(calculate, (bytes, extra), crc),
    ensures
        crc == checksum(0xffff, bytes@.push(extra)),
{
    lemma_message_checksum(bytes@, extra);
}

/// A new digest gives the initial register.
pub proof fn law_new_digest(digest: Digest, crc: u16)
    requires
        call_ensures(Digest::new, (), digest),
        call_ensures(Digest::finalize, (digest,), crc),
    ensures
        crc == 0xffff,
{
}

/// A digest that is given bytes gives the checksum that goes on behind what it gave
/// before.
pub proof fn law_updated_digest(digest: &mut Digest, bytes: &[u8], before: u16)
    requires
        call_ensures(Digest::finalize, (*old(digest),), before),
        call_ensures(Digest::update, (digest, bytes), ()),
    ensures
        forall|after: u16| #[trigger]
            call_ensures(Digest::finalize, (*final(digest),), after) ==> after == checksum(
                before,
                bytes@,
            ),
{
    lemma_checksum(before, bytes@);
}

/// The same for a single byte.
pub proof fn law_digest_updated_by_a_byte(digest: &mut Digest, byte: u8, before: u16)
    requires
        call_ensures(Digest::finalize, (*old(digest),), before),
        call_ensures(Digest::update_byte, (digest, byte), ()),
    ensures
        forall|after: u16| #[trigger]
            call_ensures(Digest::finalize, (*final(digest),), after) ==> after == checksum(
                before,
                seq![byte],
            ),
{
    lemma_byte(before, byte);
    assert(seq![byte].drop_first() =~= Seq::<u8>::empty());
    assert(checksum(next_byte(before, byte), seq![byte].drop_first()) == next_byte(before, byte));
}

/// Bytes followed by their own checksum, low byte first, leave an empty register.
pub proof fn law_checksum_of_checksummed_bytes_is_zero(register: u16, bytes: Seq<u8>)
    ensures
        checksum(register, bytes + low_high(checksum(register, bytes))) == 0,
{
    let crc = checksum(register, bytes);
    let low = (crc % 256) as u8;
    let high = (crc / 256) as u8;
    lemma_checksum_push(register, bytes, low);
    lemma_checksum_push(register, bytes.push(low), high);
    lemma_emptied(crc);
    assert(bytes + low_high(crc) =~= bytes.push(low).push(high));
}

/// A changed byte changes the checksum, wherever it stands.
pub proof fn law_changed_byte_changes_the_checksum(
    register: u16,
    bytes: Seq<u8>,
    index: int,
    byte: u8,
)
    requires
        0 <= index < bytes.len(),
        byte != bytes[index],
    ensures
        checksum(register, bytes.update(index, byte)) != checksum(register, bytes),
    decreases bytes.len(),
{
    let changed = bytes.update(index, byte);
    let rest = bytes.drop_first();
    if index == 0 {
        lemma_register(register, 0, byte, bytes[0]);
        assert(changed.drop_first() =~= rest);
        lemma_registers_stay_apart(
            next_byte(register, byte),
            next_byte(register, bytes[0]),
            rest,
        );
    } else {
        law_changed_byte_changes_the_checksum(
            next_byte(register, bytes[0]),
            rest,
            index - 1,
            byte,
        );
        assert(changed.drop_first() =~= rest.update(index - 1, byte));
    }
}

proof fn lemma_registers_stay_apart(first: u16, second: u16, bytes: Seq<u8>)
    requires
        first != second,
    ensures
        checksum(first, bytes) != checksum(second, bytes),
    decreases bytes.len(),
{
    if bytes.len() > 0 {
        lemma_register(first, second, bytes[0], 0);
        lemma_registers_stay_apart(
            next_byte(first, bytes[0]),
            next_byte(second, bytes[0]),
            bytes.drop_first(),
        );
    }
}

} // verus!
