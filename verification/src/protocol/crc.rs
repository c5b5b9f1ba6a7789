//! CRC-8/CCITT (polynomial 0x07, initial value 0x00, no reflection, no final
//! XOR), the checksum that closes every AP frame.

use vstd::prelude::*;

verus! {

/// One bit step of the CRC register: shift left, folding in the polynomial
/// when the top bit falls out.
pub open spec fn crc8_shift(c: u8) -> u8 {
    if c & 0x80u8 != 0u8 {
        (((c & 0x7Fu8) * 2) as u8) ^ 0x07u8
    } else {
        ((c & 0x7Fu8) * 2) as u8
    }
}

/// `n` bit steps of the register.
pub open spec fn crc8_bits(c: u8, n: nat) -> u8
    decreases n,
{
    if n == 0 {
        c
    } else {
        crc8_bits(crc8_shift(c), (n - 1) as nat)
    }
}

/// Absorbs one byte into the register.
pub open spec fn crc8_update(c: u8, b: u8) -> u8 {
    crc8_bits(c ^ b, 8)
}

/// CRC-8/CCITT of a byte sequence.
pub open spec fn crc8_spec(data: Seq<u8>) -> u8
    decreases data.len(),
{
    if data.len() == 0 {
        0u8
    } else {
        crc8_update(crc8_spec(data.drop_last()), data.last())
    }
}

proof fn lemma_crc8_bits_step(c: u8, n: nat)
    ensures
        crc8_bits(c, n + 1) == crc8_shift(crc8_bits(c, n)),
    decreases n,
{
    assert(crc8_bits(c, n + 1) == crc8_bits(crc8_shift(c), n));
    if n > 0 {
        lemma_crc8_bits_step(crc8_shift(c), (n - 1) as nat);
        assert(crc8_bits(c, n) == crc8_bits(crc8_shift(c), (n - 1) as nat));
    }
}

fn shift_once(c: u8) -> (r: u8)
    ensures
        r == crc8_shift(c),
{
    let low: u8 = c & 0x7F;
    assert(low < 128) by (bit_vector)
        requires
            low == c & 0x7Fu8,
    ;
    let doubled: u8 = low * 2;
    if c & 0x80 != 0 {
        doubled ^ 0x07
    } else {
        doubled
    }
}

fn update_once(c: u8, b: u8) -> (r: u8)
    ensures
        r == crc8_update(c, b),
{
    let start: u8 = c ^ b;
    let mut reg: u8 = start;
    let mut k: usize = 0;
    while k < 8
        invariant
            k <= 8,
            reg == crc8_bits(start, k as nat),
        decreases 8 - k,
    {
        proof {
            lemma_crc8_bits_step(start, k as nat);
        }
        reg = shift_once(reg);
        k = k + 1;
    }
    reg
}

/// CRC-8/CCITT over `data`.
pub fn crc8(data: &[u8]) -> (r: u8)
    ensures
        r == crc8_spec(data@),
{
    let mut crc: u8 = 0;
    let mut i: usize = 0;
    while i < data.len()
        invariant
            i <= data@.len(),
            crc == crc8_spec(data@.take(i as int)),
        decreases data@.len() - i,
    {
        proof {
            let next = data@.take(i + 1);
            assert(next.drop_last() =~= data@.take(i as int));
            assert(next.last() == data@[i as int]);
        }
        crc = update_once(crc, data[i]);
        i = i + 1;
    }
    proof {
        assert(data@.take(data@.len() as int) =~= data@);
    }
    crc
}

} // verus!
