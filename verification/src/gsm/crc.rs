//! The checksum that closes a telemetry packet.
use vstd::prelude::*;

verus! {

/// One step of the shift register: the lowest bit leaves, and where it was set the register is
/// combined with the reflected polynomial.
pub open spec fn crc_shift(c: u8) -> u8 {
    if c & 0x01 != 0 {
        (c >> 1) ^ 0x8C
    } else {
        c >> 1
    }
}

/// `n` steps of the shift register.
pub open spec fn crc_shifts(c: u8, n: nat) -> u8
    decreases n,
{
    if n == 0 {
        c
    } else {
        crc_shift(crc_shifts(c, (n - 1) as nat))
    }
}

/// The register after one more byte of data.
pub open spec fn crc_byte(crc: u8, byte: u8) -> u8 {
    crc_shifts(crc ^ byte, 8)
}

/// The register after `data`, when it held `crc` before.
pub open spec fn crc_from(crc: u8, data: Seq<u8>) -> u8
    decreases data.len(),
{
    if data.len() == 0 {
        crc
    } else {
        crc_byte(crc_from(crc, data.drop_last()), data.last())
    }
}

/// The checksum of `data`: the register starts with every bit set.
pub open spec fn crc(data: Seq<u8>) -> u8 {
    crc_from(0xFF, data)
}

proof fn lemma_eight_shifts(c: u8)
    ensures
        crc_shifts(c, 8) == crc_shift(
            crc_shift(crc_shift(crc_shift(crc_shift(crc_shift(crc_shift(crc_shift(c))))))),
        ),
{
    reveal_with_fuel(crc_shifts, 9);
}

proof fn lemma_byte_is_injective(x: u8, y: u8)
    ensures
        x != y ==> crc_shifts(x, 8) != crc_shifts(y, 8),
        crc_shifts(0, 8) == 0,
{
    lemma_eight_shifts(x);
    lemma_eight_shifts(y);
    lemma_eight_shifts(0);
    assert(x != y ==> crc_shift(
        crc_shift(crc_shift(crc_shift(crc_shift(crc_shift(crc_shift(crc_shift(x))))))),
    ) != crc_shift(
        crc_shift(crc_shift(crc_shift(crc_shift(crc_shift(crc_shift(crc_shift(y))))))),
    )) by (bit_vector);
    assert(crc_shift(
        crc_shift(crc_shift(crc_shift(crc_shift(crc_shift(crc_shift(crc_shift(0u8))))))),
    ) == 0) by (bit_vector);
}

proof fn lemma_xor_is_injective(c: u8, d: u8, x: u8, y: u8)
    ensures
        x != y ==> c ^ x != c ^ y,
        c != d ==> c ^ x != d ^ x,
        c ^ c == 0,
{
    assert(x != y ==> c ^ x != c ^ y) by (bit_vector);
    assert(c != d ==> c ^ x != d ^ x) by (bit_vector);
    assert(c ^ c == 0) by (bit_vector);
}

/// The checksum of a message can be taken piece by piece.
pub proof fn crc_of_concatenation(start: u8, a: Seq<u8>, b: Seq<u8>)
    ensures
        crc_from(start, a + b) == crc_from(crc_from(start, a), b),
    decreases b.len(),
{
    if b.len() == 0 {
        assert(a + b =~= a);
    } else {
        crc_of_concatenation(start, a, b.drop_last());
        assert((a + b).drop_last() =~= a + b.drop_last());
    }
}

/// The same data takes different registers to different registers.
proof fn lemma_different_starts(c: u8, d: u8, data: Seq<u8>)
    requires
        c != d,
    ensures
        crc_from(c, data) != crc_from(d, data),
    decreases data.len(),
{
    if data.len() > 0 {
        lemma_different_starts(c, d, data.drop_last());
        let c1: u8 = crc_from(c, data.drop_last());
        let d1: u8 = crc_from(d, data.drop_last());
        lemma_xor_is_injective(c1, d1, data.last(), data.last());
        lemma_byte_is_injective(c1 ^ data.last(), d1 ^ data.last());
    }
}

/// Two messages of one length that differ in a single byte have different checksums: damage to
/// one byte never goes unseen.
pub proof fn crc_sees_one_changed_byte(a: Seq<u8>, b: Seq<u8>, at: int)
    requires
        a.len() == b.len(),
        0 <= at < a.len(),
        a[at] != b[at],
        forall|i: int| 0 <= i < a.len() && i != at ==> a[i] == b[i],
    ensures
        crc(a) != crc(b),
{
    let head = a.take(at);
    let tail = a.skip(at + 1);
    assert(b.take(at) =~= head);
    assert(b.skip(at + 1) =~= tail);
    assert(a =~= head + seq![a[at]] + tail);
    assert(b =~= head + seq![b[at]] + tail);
    let before = crc_from(0xFF, head);
    crc_of_concatenation(0xFF, head + seq![a[at]], tail);
    crc_of_concatenation(0xFF, head + seq![b[at]], tail);
    assert((head + seq![a[at]]).drop_last() =~= head);
    assert((head + seq![b[at]]).drop_last() =~= head);
    lemma_xor_is_injective(before, before, a[at], b[at]);
    lemma_byte_is_injective(before ^ a[at], before ^ b[at]);
    lemma_different_starts(crc_byte(before, a[at]), crc_byte(before, b[at]), tail);
}

/// A message followed by its own checksum has the checksum zero.
pub proof fn crc_with_itself_appended_is_zero(data: Seq<u8>)
    ensures
        crc(data.push(crc(data))) == 0,
{
    assert(data.push(crc(data)).drop_last() =~= data);
    lemma_xor_is_injective(crc(data), 0, 0, 0);
    lemma_byte_is_injective(0, 0);
}

/// The 8-bit checksum of `data`.
pub fn crc_8(data: &[u8]) -> (r: u8)
    ensures
        r == crc(data@),
{
    let mut register: u8 = 0xFF;
    let mut i: usize = 0;
    while i < data.len()
        invariant
            i <= data@.len(),
            register == crc(data@.take(i as int)),
        decreases data@.len() - i,
    {
        register = register ^ data[i];
        let ghost start = register;
        let mut bit: usize = 0;
        while bit < 8
            invariant
                bit <= 8,
                register == crc_shifts(start, bit as nat),
            decreases 8 - bit,
        {
            if (register & 0x01) != 0 {
                register = (register >> 1) ^ 0x8C;
            } else {
                register = register >> 1;
            }
            bit = bit + 1;
        }
        assert(data@.take(i + 1).drop_last() =~= data@.take(i as int));
        i = i + 1;
    }
    assert(data@.take(i as int) =~= data@);
    register
}

proof fn lemma_byte_by_bits(x: u8)
    ensures
        crc_shifts(x, 8) == (if x & 0x01 != 0 { 0x5Eu8 } else { 0 }) ^ (if x & 0x02 != 0 {
            0xBCu8
        } else {
            0
        }) ^ (if x & 0x04 != 0 { 0x61u8 } else { 0 }) ^ (if x & 0x08 != 0 { 0xC2u8 } else { 0 }) ^ (
        if x & 0x10 != 0 { 0x9Du8 } else { 0 }) ^ (if x & 0x20 != 0 { 0x23u8 } else { 0 }) ^ (
        if x & 0x40 != 0 { 0x46u8 } else { 0 }) ^ (if x & 0x80 != 0 { 0x8Cu8 } else { 0 }),
{
    lemma_eight_shifts(x);
    assert(crc_shift(
        crc_shift(crc_shift(crc_shift(crc_shift(crc_shift(crc_shift(crc_shift(x))))))),
    ) == (if x & 0x01 != 0 { 0x5Eu8 } else { 0 }) ^ (if x & 0x02 != 0 { 0xBCu8 } else { 0 }) ^ (
    if x & 0x04 != 0 { 0x61u8 } else { 0 }) ^ (if x & 0x08 != 0 { 0xC2u8 } else { 0 }) ^ (
    if x & 0x10 != 0 { 0x9Du8 } else { 0 }) ^ (if x & 0x20 != 0 { 0x23u8 } else { 0 }) ^ (
    if x & 0x40 != 0 { 0x46u8 } else { 0 }) ^ (if x & 0x80 != 0 { 0x8Cu8 } else { 0 })) by (
    bit_vector);
}

/// The checksum of nothing has every bit set, and one more byte makes the next checksum by bits:
/// each bit in which the byte differs from the checksum before turns over its own pattern of bits,
/// and the patterns are the remainders of the polynomial x^8 + x^5 + x^4 + 1.
pub proof fn each_bit_turns_over_its_pattern(data: Seq<u8>, byte: u8)
    ensures
        crc(Seq::empty()) == 0xFF,
        ({
            let x = crc(data) ^ byte;
            crc(data.push(byte)) == (if x & 0x01 != 0 { 0x5Eu8 } else { 0 }) ^ (if x & 0x02 != 0 {
                0xBCu8
            } else {
                0
            }) ^ (if x & 0x04 != 0 { 0x61u8 } else { 0 }) ^ (if x & 0x08 != 0 {
                0xC2u8
            } else {
                0
            }) ^ (if x & 0x10 != 0 { 0x9Du8 } else { 0 }) ^ (if x & 0x20 != 0 {
                0x23u8
            } else {
                0
            }) ^ (if x & 0x40 != 0 { 0x46u8 } else { 0 }) ^ (if x & 0x80 != 0 {
                0x8Cu8
            } else {
                0
            })
        }),
{
    assert(data.push(byte).drop_last() =~= data);
    lemma_byte_by_bits(crc(data) ^ byte);
}

} // verus!
