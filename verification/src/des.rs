//! The Triple-DES variant that protects QQ Music QRC lyrics. Bits are numbered
//! with a custom byte order, and decryption runs the three single-DES passes in
//! reverse order with reversed round keys.

use vstd::prelude::*;

verus! {

/// Mode argument that builds an encrypting schedule.
pub const ENCRYPT: u8 = 1;
/// Mode argument that builds a decrypting schedule.
pub const DECRYPT: u8 = 0;

/// One 48-bit round key, as six bytes.
pub type RoundKey = [u8; 6];
/// The sixteen round keys of one single-DES pass.
pub type DesSchedule = [RoundKey; 16];
/// The schedules of the three passes of Triple DES.
pub type TripleSchedule = [DesSchedule; 3];


/// The DES S-boxes.
pub const SBOX: [[u8; 64]; 8] = [
    [14, 4, 13, 1, 2, 15, 11, 8, 3, 10, 6, 12, 5, 9, 0, 7,
    0, 15, 7, 4, 14, 2, 13, 1, 10, 6, 12, 11, 9, 5, 3, 8,
    4, 1, 14, 8, 13, 6, 2, 11, 15, 12, 9, 7, 3, 10, 5, 0,
    15, 12, 8, 2, 4, 9, 1, 7, 5, 11, 3, 14, 10, 0, 6, 13],
    [15, 1, 8, 14, 6, 11, 3, 4, 9, 7, 2, 13, 12, 0, 5, 10,
    3, 13, 4, 7, 15, 2, 8, 15, 12, 0, 1, 10, 6, 9, 11, 5,
    0, 14, 7, 11, 10, 4, 13, 1, 5, 8, 12, 6, 9, 3, 2, 15,
    13, 8, 10, 1, 3, 15, 4, 2, 11, 6, 7, 12, 0, 5, 14, 9],
    [10, 0, 9, 14, 6, 3, 15, 5, 1, 13, 12, 7, 11, 4, 2, 8,
    13, 7, 0, 9, 3, 4, 6, 10, 2, 8, 5, 14, 12, 11, 15, 1,
    13, 6, 4, 9, 8, 15, 3, 0, 11, 1, 2, 12, 5, 10, 14, 7,
    1, 10, 13, 0, 6, 9, 8, 7, 4, 15, 14, 3, 11, 5, 2, 12],
    [7, 13, 14, 3, 0, 6, 9, 10, 1, 2, 8, 5, 11, 12, 4, 15,
    13, 8, 11, 5, 6, 15, 0, 3, 4, 7, 2, 12, 1, 10, 14, 9,
    10, 6, 9, 0, 12, 11, 7, 13, 15, 1, 3, 14, 5, 2, 8, 4,
    3, 15, 0, 6, 10, 10, 13, 8, 9, 4, 5, 11, 12, 7, 2, 14],
    [2, 12, 4, 1, 7, 10, 11, 6, 8, 5, 3, 15, 13, 0, 14, 9,
    14, 11, 2, 12, 4, 7, 13, 1, 5, 0, 15, 10, 3, 9, 8, 6,
    4, 2, 1, 11, 10, 13, 7, 8, 15, 9, 12, 5, 6, 3, 0, 14,
    11, 8, 12, 7, 1, 14, 2, 13, 6, 15, 0, 9, 10, 4, 5, 3],
    [12, 1, 10, 15, 9, 2, 6, 8, 0, 13, 3, 4, 14, 7, 5, 11,
    10, 15, 4, 2, 7, 12, 9, 5, 6, 1, 13, 14, 0, 11, 3, 8,
    9, 14, 15, 5, 2, 8, 12, 3, 7, 0, 4, 10, 1, 13, 11, 6,
    4, 3, 2, 12, 9, 5, 15, 10, 11, 14, 1, 7, 6, 0, 8, 13],
    [4, 11, 2, 14, 15, 0, 8, 13, 3, 12, 9, 7, 5, 10, 6, 1,
    13, 0, 11, 7, 4, 9, 1, 10, 14, 3, 5, 12, 2, 15, 8, 6,
    1, 4, 11, 13, 12, 3, 7, 14, 10, 15, 6, 8, 0, 5, 9, 2,
    6, 11, 13, 8, 1, 4, 10, 7, 9, 5, 0, 15, 14, 2, 3, 12],
    [13, 2, 8, 4, 6, 15, 11, 1, 10, 9, 3, 14, 5, 0, 12, 7,
    1, 15, 13, 8, 10, 3, 7, 4, 12, 5, 6, 11, 0, 14, 9, 2,
    7, 11, 4, 1, 9, 12, 14, 2, 0, 6, 10, 13, 15, 3, 5, 8,
    2, 1, 14, 7, 4, 10, 8, 13, 15, 12, 9, 0, 3, 5, 6, 11],
];
    /// Key bits that form the left half of the key state.
pub const KEY_PERM_C: [usize; 28] = [
    56, 48, 40, 32, 24, 16, 8, 0, 57, 49, 41, 33, 25, 17,
    9, 1, 58, 50, 42, 34, 26, 18, 10, 2, 59, 51, 43, 35,
];
/// Key bits that form the right half of the key state.
pub const KEY_PERM_D: [usize; 28] = [
    62, 54, 46, 38, 30, 22, 14, 6, 61, 53, 45, 37, 29, 21,
    13, 5, 60, 52, 44, 36, 28, 20, 12, 4, 27, 19, 11, 3,
];
/// Positions of the 48 round-key bits within the two key-state halves.
pub const KEY_COMPRESSION: [u32; 48] = [
    13, 16, 10, 23, 0, 4, 2, 27, 14, 5, 20, 9, 22, 18, 11, 3,
    25, 7, 15, 6, 26, 19, 12, 1, 40, 51, 30, 36, 46, 54, 29, 39,
    50, 44, 32, 47, 43, 48, 38, 55, 33, 52, 45, 41, 49, 35, 28, 31,
];
/// Left rotation of the key state before each round.
pub const KEY_RND_SHIFT: [u32; 16] = [1, 1, 2, 2, 2, 2, 2, 2, 1, 2, 2, 2, 2, 2, 2, 1];

/// Bit `b` of the block (in the cipher's byte order), moved to position `c`.
pub open spec fn spec_bitnum(a: Seq<u8>, b: int, c: u32) -> u32 {
    (((a[(b / 32) * 4 + 3 - (b % 32) / 8] >> ((7 - b % 8) as u8)) & 1u8) as u32) << c
}

/// Bit `b` (counted from the most significant end) of `a`, moved to position `c`.
pub open spec fn spec_bitnum_intr(a: u32, b: u32, c: u32) -> u32 {
    ((a >> ((31 - b) as u32)) & 1u32) << c
}

/// Bit `b` (counted from the most significant end) of `a`, moved to the top and
/// shifted right by `c`.
pub open spec fn spec_bitnum_intl(a: u32, b: u32, c: u32) -> u32 {
    (vstd::wrapping::u32_specs::wrapping_shl(a, b) & 0x8000_0000u32) >> c
}

/// Index into an S-box row for a six-bit input.
pub open spec fn spec_sbox_bit(a: u32) -> u32 {
    (a & 32u32) | ((a & 31u32) >> 1u32) | ((a & 1u32) << 4u32)
}

/// First half of the initial permutation, over the block's eight bytes.
pub open spec fn ip_left(x0: u8, x1: u8, x2: u8, x3: u8, x4: u8, x5: u8, x6: u8, x7: u8) -> u32 {
    ((((x4 >> 6u8) & 1u8) as u32) << 31u32)
        | ((((x5 >> 6u8) & 1u8) as u32) << 30u32)
        | ((((x6 >> 6u8) & 1u8) as u32) << 29u32)
        | ((((x7 >> 6u8) & 1u8) as u32) << 28u32)
        | ((((x0 >> 6u8) & 1u8) as u32) << 27u32)
        | ((((x1 >> 6u8) & 1u8) as u32) << 26u32)
        | ((((x2 >> 6u8) & 1u8) as u32) << 25u32)
        | ((((x3 >> 6u8) & 1u8) as u32) << 24u32)
        | ((((x4 >> 4u8) & 1u8) as u32) << 23u32)
        | ((((x5 >> 4u8) & 1u8) as u32) << 22u32)
        | ((((x6 >> 4u8) & 1u8) as u32) << 21u32)
        | ((((x7 >> 4u8) & 1u8) as u32) << 20u32)
        | ((((x0 >> 4u8) & 1u8) as u32) << 19u32)
        | ((((x1 >> 4u8) & 1u8) as u32) << 18u32)
        | ((((x2 >> 4u8) & 1u8) as u32) << 17u32)
        | ((((x3 >> 4u8) & 1u8) as u32) << 16u32)
        | ((((x4 >> 2u8) & 1u8) as u32) << 15u32)
        | ((((x5 >> 2u8) & 1u8) as u32) << 14u32)
        | ((((x6 >> 2u8) & 1u8) as u32) << 13u32)
        | ((((x7 >> 2u8) & 1u8) as u32) << 12u32)
        | ((((x0 >> 2u8) & 1u8) as u32) << 11u32)
        | ((((x1 >> 2u8) & 1u8) as u32) << 10u32)
        | ((((x2 >> 2u8) & 1u8) as u32) << 9u32)
        | ((((x3 >> 2u8) & 1u8) as u32) << 8u32)
        | ((((x4 >> 0u8) & 1u8) as u32) << 7u32)
        | ((((x5 >> 0u8) & 1u8) as u32) << 6u32)
        | ((((x6 >> 0u8) & 1u8) as u32) << 5u32)
        | ((((x7 >> 0u8) & 1u8) as u32) << 4u32)
        | ((((x0 >> 0u8) & 1u8) as u32) << 3u32)
        | ((((x1 >> 0u8) & 1u8) as u32) << 2u32)
        | ((((x2 >> 0u8) & 1u8) as u32) << 1u32)
        | ((((x3 >> 0u8) & 1u8) as u32) << 0u32)
}

/// Second half of the initial permutation, over the block's eight bytes.
pub open spec fn ip_right(x0: u8, x1: u8, x2: u8, x3: u8, x4: u8, x5: u8, x6: u8, x7: u8) -> u32 {
    ((((x4 >> 7u8) & 1u8) as u32) << 31u32)
        | ((((x5 >> 7u8) & 1u8) as u32) << 30u32)
        | ((((x6 >> 7u8) & 1u8) as u32) << 29u32)
        | ((((x7 >> 7u8) & 1u8) as u32) << 28u32)
        | ((((x0 >> 7u8) & 1u8) as u32) << 27u32)
        | ((((x1 >> 7u8) & 1u8) as u32) << 26u32)
        | ((((x2 >> 7u8) & 1u8) as u32) << 25u32)
        | ((((x3 >> 7u8) & 1u8) as u32) << 24u32)
        | ((((x4 >> 5u8) & 1u8) as u32) << 23u32)
        | ((((x5 >> 5u8) & 1u8) as u32) << 22u32)
        | ((((x6 >> 5u8) & 1u8) as u32) << 21u32)
        | ((((x7 >> 5u8) & 1u8) as u32) << 20u32)
        | ((((x0 >> 5u8) & 1u8) as u32) << 19u32)
        | ((((x1 >> 5u8) & 1u8) as u32) << 18u32)
        | ((((x2 >> 5u8) & 1u8) as u32) << 17u32)
        | ((((x3 >> 5u8) & 1u8) as u32) << 16u32)
        | ((((x4 >> 3u8) & 1u8) as u32) << 15u32)
        | ((((x5 >> 3u8) & 1u8) as u32) << 14u32)
        | ((((x6 >> 3u8) & 1u8) as u32) << 13u32)
        | ((((x7 >> 3u8) & 1u8) as u32) << 12u32)
        | ((((x0 >> 3u8) & 1u8) as u32) << 11u32)
        | ((((x1 >> 3u8) & 1u8) as u32) << 10u32)
        | ((((x2 >> 3u8) & 1u8) as u32) << 9u32)
        | ((((x3 >> 3u8) & 1u8) as u32) << 8u32)
        | ((((x4 >> 1u8) & 1u8) as u32) << 7u32)
        | ((((x5 >> 1u8) & 1u8) as u32) << 6u32)
        | ((((x6 >> 1u8) & 1u8) as u32) << 5u32)
        | ((((x7 >> 1u8) & 1u8) as u32) << 4u32)
        | ((((x0 >> 1u8) & 1u8) as u32) << 3u32)
        | ((((x1 >> 1u8) & 1u8) as u32) << 2u32)
        | ((((x2 >> 1u8) & 1u8) as u32) << 1u32)
        | ((((x3 >> 1u8) & 1u8) as u32) << 0u32)
}

/// Byte 0 of the inverse permutation of `(s0, s1)`.
pub open spec fn inv_byte0(s0: u32, s1: u32) -> u8 {
    ((((s1 >> 27u32) & 1u32) << 7u32)
        | (((s0 >> 27u32) & 1u32) << 6u32)
        | (((s1 >> 19u32) & 1u32) << 5u32)
        | (((s0 >> 19u32) & 1u32) << 4u32)
        | (((s1 >> 11u32) & 1u32) << 3u32)
        | (((s0 >> 11u32) & 1u32) << 2u32)
        | (((s1 >> 3u32) & 1u32) << 1u32)
        | (((s0 >> 3u32) & 1u32) << 0u32)) as u8
}

/// Byte 1 of the inverse permutation of `(s0, s1)`.
pub open spec fn inv_byte1(s0: u32, s1: u32) -> u8 {
    ((((s1 >> 26u32) & 1u32) << 7u32)
        | (((s0 >> 26u32) & 1u32) << 6u32)
        | (((s1 >> 18u32) & 1u32) << 5u32)
        | (((s0 >> 18u32) & 1u32) << 4u32)
        | (((s1 >> 10u32) & 1u32) << 3u32)
        | (((s0 >> 10u32) & 1u32) << 2u32)
        | (((s1 >> 2u32) & 1u32) << 1u32)
        | (((s0 >> 2u32) & 1u32) << 0u32)) as u8
}

/// Byte 2 of the inverse permutation of `(s0, s1)`.
pub open spec fn inv_byte2(s0: u32, s1: u32) -> u8 {
    ((((s1 >> 25u32) & 1u32) << 7u32)
        | (((s0 >> 25u32) & 1u32) << 6u32)
        | (((s1 >> 17u32) & 1u32) << 5u32)
        | (((s0 >> 17u32) & 1u32) << 4u32)
        | (((s1 >> 9u32) & 1u32) << 3u32)
        | (((s0 >> 9u32) & 1u32) << 2u32)
        | (((s1 >> 1u32) & 1u32) << 1u32)
        | (((s0 >> 1u32) & 1u32) << 0u32)) as u8
}

/// Byte 3 of the inverse permutation of `(s0, s1)`.
pub open spec fn inv_byte3(s0: u32, s1: u32) -> u8 {
    ((((s1 >> 24u32) & 1u32) << 7u32)
        | (((s0 >> 24u32) & 1u32) << 6u32)
        | (((s1 >> 16u32) & 1u32) << 5u32)
        | (((s0 >> 16u32) & 1u32) << 4u32)
        | (((s1 >> 8u32) & 1u32) << 3u32)
        | (((s0 >> 8u32) & 1u32) << 2u32)
        | (((s1 >> 0u32) & 1u32) << 1u32)
        | (((s0 >> 0u32) & 1u32) << 0u32)) as u8
}

/// Byte 4 of the inverse permutation of `(s0, s1)`.
pub open spec fn inv_byte4(s0: u32, s1: u32) -> u8 {
    ((((s1 >> 31u32) & 1u32) << 7u32)
        | (((s0 >> 31u32) & 1u32) << 6u32)
        | (((s1 >> 23u32) & 1u32) << 5u32)
        | (((s0 >> 23u32) & 1u32) << 4u32)
        | (((s1 >> 15u32) & 1u32) << 3u32)
        | (((s0 >> 15u32) & 1u32) << 2u32)
        | (((s1 >> 7u32) & 1u32) << 1u32)
        | (((s0 >> 7u32) & 1u32) << 0u32)) as u8
}

/// Byte 5 of the inverse permutation of `(s0, s1)`.
pub open spec fn inv_byte5(s0: u32, s1: u32) -> u8 {
    ((((s1 >> 30u32) & 1u32) << 7u32)
        | (((s0 >> 30u32) & 1u32) << 6u32)
        | (((s1 >> 22u32) & 1u32) << 5u32)
        | (((s0 >> 22u32) & 1u32) << 4u32)
        | (((s1 >> 14u32) & 1u32) << 3u32)
        | (((s0 >> 14u32) & 1u32) << 2u32)
        | (((s1 >> 6u32) & 1u32) << 1u32)
        | (((s0 >> 6u32) & 1u32) << 0u32)) as u8
}

/// Byte 6 of the inverse permutation of `(s0, s1)`.
pub open spec fn inv_byte6(s0: u32, s1: u32) -> u8 {
    ((((s1 >> 29u32) & 1u32) << 7u32)
        | (((s0 >> 29u32) & 1u32) << 6u32)
        | (((s1 >> 21u32) & 1u32) << 5u32)
        | (((s0 >> 21u32) & 1u32) << 4u32)
        | (((s1 >> 13u32) & 1u32) << 3u32)
        | (((s0 >> 13u32) & 1u32) << 2u32)
        | (((s1 >> 5u32) & 1u32) << 1u32)
        | (((s0 >> 5u32) & 1u32) << 0u32)) as u8
}

/// Byte 7 of the inverse permutation of `(s0, s1)`.
pub open spec fn inv_byte7(s0: u32, s1: u32) -> u8 {
    ((((s1 >> 28u32) & 1u32) << 7u32)
        | (((s0 >> 28u32) & 1u32) << 6u32)
        | (((s1 >> 20u32) & 1u32) << 5u32)
        | (((s0 >> 20u32) & 1u32) << 4u32)
        | (((s1 >> 12u32) & 1u32) << 3u32)
        | (((s0 >> 12u32) & 1u32) << 2u32)
        | (((s1 >> 4u32) & 1u32) << 1u32)
        | (((s0 >> 4u32) & 1u32) << 0u32)) as u8
}

/// The initial permutation of an eight-byte block.
#[verifier::opaque]
pub open spec fn spec_initial_permutation(x: Seq<u8>) -> (u32, u32) {
    (ip_left(x[0], x[1], x[2], x[3], x[4], x[5], x[6], x[7]),
     ip_right(x[0], x[1], x[2], x[3], x[4], x[5], x[6], x[7]))
}

/// The inverse permutation of the two halves, as eight bytes.
#[verifier::opaque]
pub open spec fn spec_inverse_permutation(s0: u32, s1: u32) -> Seq<u8> {
    seq![inv_byte0(s0, s1), inv_byte1(s0, s1), inv_byte2(s0, s1), inv_byte3(s0, s1),
         inv_byte4(s0, s1), inv_byte5(s0, s1), inv_byte6(s0, s1), inv_byte7(s0, s1)]
}


/// Undoing the initial permutation restores every byte of the block.
pub proof fn lemma_inverse_undoes_initial(x0: u8, x1: u8, x2: u8, x3: u8, x4: u8, x5: u8, x6: u8, x7: u8)
    by (bit_vector)
    ensures
        inv_byte0(ip_left(x0, x1, x2, x3, x4, x5, x6, x7), ip_right(x0, x1, x2, x3, x4, x5, x6, x7)) == x0,
        inv_byte1(ip_left(x0, x1, x2, x3, x4, x5, x6, x7), ip_right(x0, x1, x2, x3, x4, x5, x6, x7)) == x1,
        inv_byte2(ip_left(x0, x1, x2, x3, x4, x5, x6, x7), ip_right(x0, x1, x2, x3, x4, x5, x6, x7)) == x2,
        inv_byte3(ip_left(x0, x1, x2, x3, x4, x5, x6, x7), ip_right(x0, x1, x2, x3, x4, x5, x6, x7)) == x3,
        inv_byte4(ip_left(x0, x1, x2, x3, x4, x5, x6, x7), ip_right(x0, x1, x2, x3, x4, x5, x6, x7)) == x4,
        inv_byte5(ip_left(x0, x1, x2, x3, x4, x5, x6, x7), ip_right(x0, x1, x2, x3, x4, x5, x6, x7)) == x5,
        inv_byte6(ip_left(x0, x1, x2, x3, x4, x5, x6, x7), ip_right(x0, x1, x2, x3, x4, x5, x6, x7)) == x6,
        inv_byte7(ip_left(x0, x1, x2, x3, x4, x5, x6, x7), ip_right(x0, x1, x2, x3, x4, x5, x6, x7)) == x7,
{
}

/// Permuting the output of the inverse permutation restores both halves.
pub proof fn lemma_initial_undoes_inverse(s0: u32, s1: u32)
    by (bit_vector)
    ensures
        ip_left(inv_byte0(s0, s1), inv_byte1(s0, s1), inv_byte2(s0, s1), inv_byte3(s0, s1), inv_byte4(s0, s1), inv_byte5(s0, s1), inv_byte6(s0, s1), inv_byte7(s0, s1)) == s0,
        ip_right(inv_byte0(s0, s1), inv_byte1(s0, s1), inv_byte2(s0, s1), inv_byte3(s0, s1), inv_byte4(s0, s1), inv_byte5(s0, s1), inv_byte6(s0, s1), inv_byte7(s0, s1)) == s1,
{
}

/// Bit `b` of the eight-byte block, moved to position `c`.
pub fn bitnum(a: &[u8; 8], b: usize, c: u32) -> (r: u32)
    requires
        b < 64,
        c < 32,
    ensures
        r == spec_bitnum(a@, b as int, c),
{
    (((a[(b / 32) * 4 + 3 - (b % 32) / 8] >> (7 - b % 8)) & 1) as u32) << c
}

/// Bit `b` of `a` (from the most significant end), moved to position `c`.
pub fn bitnum_intr(a: u32, b: u32, c: u32) -> (r: u32)
    requires
        b < 32,
        c < 32,
    ensures
        r == spec_bitnum_intr(a, b, c),
{
    ((a >> (31 - b)) & 1) << c
}

/// Bit `b` of `a` (from the most significant end), moved to the top and shifted
/// right by `c`.
pub fn bitnum_intl(a: u32, b: u32, c: u32) -> (r: u32)
    requires
        c < 32,
    ensures
        r == spec_bitnum_intl(a, b, c),
{
    (a.wrapping_shl(b) & 0x8000_0000) >> c
}

/// Row-and-column index into an S-box for a six-bit input; always below 64.
pub fn sbox_bit(a: u32) -> (r: usize)
    ensures
        r == spec_sbox_bit(a),
        r < 64,
{
    let v = (a & 32) | ((a & 31) >> 1) | ((a & 1) << 4);
    assert(((a & 32u32) | ((a & 31u32) >> 1u32) | ((a & 1u32) << 4u32)) < 64u32) by (bit_vector);
    v as usize
}

/// The initial permutation of an eight-byte block.
pub fn initial_permutation(input: &[u8; 8]) -> (r: (u32, u32))
    ensures
        r == spec_initial_permutation(input@),
{
    reveal(spec_initial_permutation);
    let s0 = bitnum(input, 57, 31)
        | bitnum(input, 49, 30)
        | bitnum(input, 41, 29)
        | bitnum(input, 33, 28)
        | bitnum(input, 25, 27)
        | bitnum(input, 17, 26)
        | bitnum(input, 9, 25)
        | bitnum(input, 1, 24)
        | bitnum(input, 59, 23)
        | bitnum(input, 51, 22)
        | bitnum(input, 43, 21)
        | bitnum(input, 35, 20)
        | bitnum(input, 27, 19)
        | bitnum(input, 19, 18)
        | bitnum(input, 11, 17)
        | bitnum(input, 3, 16)
        | bitnum(input, 61, 15)
        | bitnum(input, 53, 14)
        | bitnum(input, 45, 13)
        | bitnum(input, 37, 12)
        | bitnum(input, 29, 11)
        | bitnum(input, 21, 10)
        | bitnum(input, 13, 9)
        | bitnum(input, 5, 8)
        | bitnum(input, 63, 7)
        | bitnum(input, 55, 6)
        | bitnum(input, 47, 5)
        | bitnum(input, 39, 4)
        | bitnum(input, 31, 3)
        | bitnum(input, 23, 2)
        | bitnum(input, 15, 1)
        | bitnum(input, 7, 0);
    let s1 = bitnum(input, 56, 31)
        | bitnum(input, 48, 30)
        | bitnum(input, 40, 29)
        | bitnum(input, 32, 28)
        | bitnum(input, 24, 27)
        | bitnum(input, 16, 26)
        | bitnum(input, 8, 25)
        | bitnum(input, 0, 24)
        | bitnum(input, 58, 23)
        | bitnum(input, 50, 22)
        | bitnum(input, 42, 21)
        | bitnum(input, 34, 20)
        | bitnum(input, 26, 19)
        | bitnum(input, 18, 18)
        | bitnum(input, 10, 17)
        | bitnum(input, 2, 16)
        | bitnum(input, 60, 15)
        | bitnum(input, 52, 14)
        | bitnum(input, 44, 13)
        | bitnum(input, 36, 12)
        | bitnum(input, 28, 11)
        | bitnum(input, 20, 10)
        | bitnum(input, 12, 9)
        | bitnum(input, 4, 8)
        | bitnum(input, 62, 7)
        | bitnum(input, 54, 6)
        | bitnum(input, 46, 5)
        | bitnum(input, 38, 4)
        | bitnum(input, 30, 3)
        | bitnum(input, 22, 2)
        | bitnum(input, 14, 1)
        | bitnum(input, 6, 0);
    (s0, s1)
}

/// The inverse permutation of the two halves of a block.
pub fn inverse_permutation(s0: u32, s1: u32) -> (r: [u8; 8])
    ensures
        r@ == spec_inverse_permutation(s0, s1),
{
    reveal(spec_inverse_permutation);
    let d0 = (bitnum_intr(s1, 4, 7)
        | bitnum_intr(s0, 4, 6)
        | bitnum_intr(s1, 12, 5)
        | bitnum_intr(s0, 12, 4)
        | bitnum_intr(s1, 20, 3)
        | bitnum_intr(s0, 20, 2)
        | bitnum_intr(s1, 28, 1)
        | bitnum_intr(s0, 28, 0)) as u8;
    let d1 = (bitnum_intr(s1, 5, 7)
        | bitnum_intr(s0, 5, 6)
        | bitnum_intr(s1, 13, 5)
        | bitnum_intr(s0, 13, 4)
        | bitnum_intr(s1, 21, 3)
        | bitnum_intr(s0, 21, 2)
        | bitnum_intr(s1, 29, 1)
        | bitnum_intr(s0, 29, 0)) as u8;
    let d2 = (bitnum_intr(s1, 6, 7)
        | bitnum_intr(s0, 6, 6)
        | bitnum_intr(s1, 14, 5)
        | bitnum_intr(s0, 14, 4)
        | bitnum_intr(s1, 22, 3)
        | bitnum_intr(s0, 22, 2)
        | bitnum_intr(s1, 30, 1)
        | bitnum_intr(s0, 30, 0)) as u8;
    let d3 = (bitnum_intr(s1, 7, 7)
        | bitnum_intr(s0, 7, 6)
        | bitnum_intr(s1, 15, 5)
        | bitnum_intr(s0, 15, 4)
        | bitnum_intr(s1, 23, 3)
        | bitnum_intr(s0, 23, 2)
        | bitnum_intr(s1, 31, 1)
        | bitnum_intr(s0, 31, 0)) as u8;
    let d4 = (bitnum_intr(s1, 0, 7)
        | bitnum_intr(s0, 0, 6)
        | bitnum_intr(s1, 8, 5)
        | bitnum_intr(s0, 8, 4)
        | bitnum_intr(s1, 16, 3)
        | bitnum_intr(s0, 16, 2)
        | bitnum_intr(s1, 24, 1)
        | bitnum_intr(s0, 24, 0)) as u8;
    let d5 = (bitnum_intr(s1, 1, 7)
        | bitnum_intr(s0, 1, 6)
        | bitnum_intr(s1, 9, 5)
        | bitnum_intr(s0, 9, 4)
        | bitnum_intr(s1, 17, 3)
        | bitnum_intr(s0, 17, 2)
        | bitnum_intr(s1, 25, 1)
        | bitnum_intr(s0, 25, 0)) as u8;
    let d6 = (bitnum_intr(s1, 2, 7)
        | bitnum_intr(s0, 2, 6)
        | bitnum_intr(s1, 10, 5)
        | bitnum_intr(s0, 10, 4)
        | bitnum_intr(s1, 18, 3)
        | bitnum_intr(s0, 18, 2)
        | bitnum_intr(s1, 26, 1)
        | bitnum_intr(s0, 26, 0)) as u8;
    let d7 = (bitnum_intr(s1, 3, 7)
        | bitnum_intr(s0, 3, 6)
        | bitnum_intr(s1, 11, 5)
        | bitnum_intr(s0, 11, 4)
        | bitnum_intr(s1, 19, 3)
        | bitnum_intr(s0, 19, 2)
        | bitnum_intr(s1, 27, 1)
        | bitnum_intr(s0, 27, 0)) as u8;
    let d = [d0, d1, d2, d3, d4, d5, d6, d7];
    assert(d@ =~= spec_inverse_permutation(s0, s1));
    d
}

/// The key tables select bits inside an eight-byte key and inside the 28-bit
/// halves of the key state.
pub proof fn lemma_key_tables()
    ensures
        forall|i: int| 0 <= i < 28 ==> #[trigger] KEY_PERM_C[i] < 64,
        forall|i: int| 0 <= i < 28 ==> #[trigger] KEY_PERM_D[i] < 64,
        forall|j: int| 0 <= j < 24 ==> #[trigger] KEY_COMPRESSION[j] < 32,
        forall|j: int| 24 <= j < 48 ==> 27 <= #[trigger] KEY_COMPRESSION[j] < 59,
        forall|i: int| 0 <= i < 16 ==> 1 <= #[trigger] KEY_RND_SHIFT[i] <= 2,
{
    assert forall|i: int| 0 <= i < 28 implies #[trigger] KEY_PERM_C[i] < 64 && KEY_PERM_D[i] < 64 by {
        if i == 0 {
        } else if i == 1 {
        } else if i == 2 {
        } else if i == 3 {
        } else if i == 4 {
        } else if i == 5 {
        } else if i == 6 {
        } else if i == 7 {
        } else if i == 8 {
        } else if i == 9 {
        } else if i == 10 {
        } else if i == 11 {
        } else if i == 12 {
        } else if i == 13 {
        } else if i == 14 {
        } else if i == 15 {
        } else if i == 16 {
        } else if i == 17 {
        } else if i == 18 {
        } else if i == 19 {
        } else if i == 20 {
        } else if i == 21 {
        } else if i == 22 {
        } else if i == 23 {
        } else if i == 24 {
        } else if i == 25 {
        } else if i == 26 {
        } else if i == 27 {
        }
    }
    assert forall|j: int| 0 <= j < 24 implies #[trigger] KEY_COMPRESSION[j] < 32 by {
        if j == 0 {
        } else if j == 1 {
        } else if j == 2 {
        } else if j == 3 {
        } else if j == 4 {
        } else if j == 5 {
        } else if j == 6 {
        } else if j == 7 {
        } else if j == 8 {
        } else if j == 9 {
        } else if j == 10 {
        } else if j == 11 {
        } else if j == 12 {
        } else if j == 13 {
        } else if j == 14 {
        } else if j == 15 {
        } else if j == 16 {
        } else if j == 17 {
        } else if j == 18 {
        } else if j == 19 {
        } else if j == 20 {
        } else if j == 21 {
        } else if j == 22 {
        } else if j == 23 {
        }
    }
    assert forall|j: int| 24 <= j < 48 implies 27 <= #[trigger] KEY_COMPRESSION[j] < 59 by {
        if j == 24 {
        } else if j == 25 {
        } else if j == 26 {
        } else if j == 27 {
        } else if j == 28 {
        } else if j == 29 {
        } else if j == 30 {
        } else if j == 31 {
        } else if j == 32 {
        } else if j == 33 {
        } else if j == 34 {
        } else if j == 35 {
        } else if j == 36 {
        } else if j == 37 {
        } else if j == 38 {
        } else if j == 39 {
        } else if j == 40 {
        } else if j == 41 {
        } else if j == 42 {
        } else if j == 43 {
        } else if j == 44 {
        } else if j == 45 {
        } else if j == 46 {
        } else if j == 47 {
        }
    }
    assert forall|i: int| 0 <= i < 16 implies 1 <= #[trigger] KEY_RND_SHIFT[i] <= 2 by {
        if i == 0 {
        } else if i == 1 {
        } else if i == 2 {
        } else if i == 3 {
        } else if i == 4 {
        } else if i == 5 {
        } else if i == 6 {
        } else if i == 7 {
        } else if i == 8 {
        } else if i == 9 {
        } else if i == 10 {
        } else if i == 11 {
        } else if i == 12 {
        } else if i == 13 {
        } else if i == 14 {
        } else if i == 15 {
        }
    }
}

/// The round function applied to one half of the state and a round key.
#[verifier::opaque]
pub open spec fn spec_feistel(state: u32, key: Seq<u8>) -> u32 {
    let t1 = spec_bitnum_intl(state, 31, 0)
        | ((state & 0xf000_0000) >> 1)
        | spec_bitnum_intl(state, 4, 5)
        | spec_bitnum_intl(state, 3, 6)
        | ((state & 0x0f00_0000) >> 3)
        | spec_bitnum_intl(state, 8, 11)
        | spec_bitnum_intl(state, 7, 12)
        | ((state & 0x00f0_0000) >> 5)
        | spec_bitnum_intl(state, 12, 17)
        | spec_bitnum_intl(state, 11, 18)
        | ((state & 0x000f_0000) >> 7)
        | spec_bitnum_intl(state, 16, 23);

    let t2 = spec_bitnum_intl(state, 15, 0)
        | ((state & 0x0000_f000) << 15)
        | spec_bitnum_intl(state, 20, 5)
        | spec_bitnum_intl(state, 19, 6)
        | ((state & 0x0000_0f00) << 13)
        | spec_bitnum_intl(state, 24, 11)
        | spec_bitnum_intl(state, 23, 12)
        | ((state & 0x0000_00f0) << 11)
        | spec_bitnum_intl(state, 28, 17)
        | spec_bitnum_intl(state, 27, 18)
        | ((state & 0x0000_000f) << 9)
        | spec_bitnum_intl(state, 0, 23);

    let l0 = ((t1 >> 24) & 0xff) ^ (key[0] as u32);
    let l1 = ((t1 >> 16) & 0xff) ^ (key[1] as u32);
    let l2 = ((t1 >> 8) & 0xff) ^ (key[2] as u32);
    let l3 = ((t2 >> 24) & 0xff) ^ (key[3] as u32);
    let l4 = ((t2 >> 16) & 0xff) ^ (key[4] as u32);
    let l5 = ((t2 >> 8) & 0xff) ^ (key[5] as u32);

    let st = ((SBOX[0][spec_sbox_bit(l0 >> 2) as int] as u32) << 28)
        | ((SBOX[1][spec_sbox_bit(((l0 & 0x03) << 4) | (l1 >> 4)) as int] as u32) << 24)
        | ((SBOX[2][spec_sbox_bit(((l1 & 0x0f) << 2) | (l2 >> 6)) as int] as u32) << 20)
        | ((SBOX[3][spec_sbox_bit(l2 & 0x3f) as int] as u32) << 16)
        | ((SBOX[4][spec_sbox_bit(l3 >> 2) as int] as u32) << 12)
        | ((SBOX[5][spec_sbox_bit(((l3 & 0x03) << 4) | (l4 >> 4)) as int] as u32) << 8)
        | ((SBOX[6][spec_sbox_bit(((l4 & 0x0f) << 2) | (l5 >> 6)) as int] as u32) << 4)
        | (SBOX[7][spec_sbox_bit(l5 & 0x3f) as int] as u32);

    spec_bitnum_intl(st, 15, 0)
        | spec_bitnum_intl(st, 6, 1)
        | spec_bitnum_intl(st, 19, 2)
        | spec_bitnum_intl(st, 20, 3)
        | spec_bitnum_intl(st, 28, 4)
        | spec_bitnum_intl(st, 11, 5)
        | spec_bitnum_intl(st, 27, 6)
        | spec_bitnum_intl(st, 16, 7)
        | spec_bitnum_intl(st, 0, 8)
        | spec_bitnum_intl(st, 14, 9)
        | spec_bitnum_intl(st, 22, 10)
        | spec_bitnum_intl(st, 25, 11)
        | spec_bitnum_intl(st, 4, 12)
        | spec_bitnum_intl(st, 17, 13)
        | spec_bitnum_intl(st, 30, 14)
        | spec_bitnum_intl(st, 9, 15)
        | spec_bitnum_intl(st, 1, 16)
        | spec_bitnum_intl(st, 7, 17)
        | spec_bitnum_intl(st, 23, 18)
        | spec_bitnum_intl(st, 13, 19)
        | spec_bitnum_intl(st, 31, 20)
        | spec_bitnum_intl(st, 26, 21)
        | spec_bitnum_intl(st, 2, 22)
        | spec_bitnum_intl(st, 8, 23)
        | spec_bitnum_intl(st, 18, 24)
        | spec_bitnum_intl(st, 12, 25)
        | spec_bitnum_intl(st, 29, 26)
        | spec_bitnum_intl(st, 5, 27)
        | spec_bitnum_intl(st, 21, 28)
        | spec_bitnum_intl(st, 10, 29)
        | spec_bitnum_intl(st, 3, 30)
        | spec_bitnum_intl(st, 24, 31)
}

/// The DES round function.
pub fn feistel(state: u32, key: &RoundKey) -> (r: u32)
    ensures
        r == spec_feistel(state, key@),
{
    reveal(spec_feistel);
    let t1 = bitnum_intl(state, 31, 0)
        | ((state & 0xf000_0000) >> 1)
        | bitnum_intl(state, 4, 5)
        | bitnum_intl(state, 3, 6)
        | ((state & 0x0f00_0000) >> 3)
        | bitnum_intl(state, 8, 11)
        | bitnum_intl(state, 7, 12)
        | ((state & 0x00f0_0000) >> 5)
        | bitnum_intl(state, 12, 17)
        | bitnum_intl(state, 11, 18)
        | ((state & 0x000f_0000) >> 7)
        | bitnum_intl(state, 16, 23);

    let t2 = bitnum_intl(state, 15, 0)
        | ((state & 0x0000_f000) << 15)
        | bitnum_intl(state, 20, 5)
        | bitnum_intl(state, 19, 6)
        | ((state & 0x0000_0f00) << 13)
        | bitnum_intl(state, 24, 11)
        | bitnum_intl(state, 23, 12)
        | ((state & 0x0000_00f0) << 11)
        | bitnum_intl(state, 28, 17)
        | bitnum_intl(state, 27, 18)
        | ((state & 0x0000_000f) << 9)
        | bitnum_intl(state, 0, 23);

    let lrg = [
        ((t1 >> 24) & 0xff) ^ key[0] as u32,
        ((t1 >> 16) & 0xff) ^ key[1] as u32,
        ((t1 >> 8) & 0xff) ^ key[2] as u32,
        ((t2 >> 24) & 0xff) ^ key[3] as u32,
        ((t2 >> 16) & 0xff) ^ key[4] as u32,
        ((t2 >> 8) & 0xff) ^ key[5] as u32,
    ];

    let state = ((SBOX[0][sbox_bit(lrg[0] >> 2)] as u32) << 28)
        | ((SBOX[1][sbox_bit(((lrg[0] & 0x03) << 4) | (lrg[1] >> 4))] as u32) << 24)
        | ((SBOX[2][sbox_bit(((lrg[1] & 0x0f) << 2) | (lrg[2] >> 6))] as u32) << 20)
        | ((SBOX[3][sbox_bit(lrg[2] & 0x3f)] as u32) << 16)
        | ((SBOX[4][sbox_bit(lrg[3] >> 2)] as u32) << 12)
        | ((SBOX[5][sbox_bit(((lrg[3] & 0x03) << 4) | (lrg[4] >> 4))] as u32) << 8)
        | ((SBOX[6][sbox_bit(((lrg[4] & 0x0f) << 2) | (lrg[5] >> 6))] as u32) << 4)
        | (SBOX[7][sbox_bit(lrg[5] & 0x3f)] as u32);

    bitnum_intl(state, 15, 0)
        | bitnum_intl(state, 6, 1)
        | bitnum_intl(state, 19, 2)
        | bitnum_intl(state, 20, 3)
        | bitnum_intl(state, 28, 4)
        | bitnum_intl(state, 11, 5)
        | bitnum_intl(state, 27, 6)
        | bitnum_intl(state, 16, 7)
        | bitnum_intl(state, 0, 8)
        | bitnum_intl(state, 14, 9)
        | bitnum_intl(state, 22, 10)
        | bitnum_intl(state, 25, 11)
        | bitnum_intl(state, 4, 12)
        | bitnum_intl(state, 17, 13)
        | bitnum_intl(state, 30, 14)
        | bitnum_intl(state, 9, 15)
        | bitnum_intl(state, 1, 16)
        | bitnum_intl(state, 7, 17)
        | bitnum_intl(state, 23, 18)
        | bitnum_intl(state, 13, 19)
        | bitnum_intl(state, 31, 20)
        | bitnum_intl(state, 26, 21)
        | bitnum_intl(state, 2, 22)
        | bitnum_intl(state, 8, 23)
        | bitnum_intl(state, 18, 24)
        | bitnum_intl(state, 12, 25)
        | bitnum_intl(state, 29, 26)
        | bitnum_intl(state, 5, 27)
        | bitnum_intl(state, 21, 28)
        | bitnum_intl(state, 10, 29)
        | bitnum_intl(state, 3, 30)
        | bitnum_intl(state, 24, 31)
}

/// One Feistel round: the halves swap and the new right half absorbs the round
/// function of the old right half.
pub open spec fn spec_round(s: (u32, u32), k: Seq<u8>) -> (u32, u32) {
    (s.1, spec_feistel(s.1, k) ^ s.0)
}

/// The rounds for the keys `ks`, applied in order.
pub open spec fn spec_rounds(s: (u32, u32), ks: Seq<Seq<u8>>) -> (u32, u32)
    decreases ks.len(),
{
    if ks.len() == 0 {
        s
    } else {
        spec_round(spec_rounds(s, ks.drop_last()), ks.last())
    }
}

/// The two halves exchanged.
pub open spec fn swap_halves(s: (u32, u32)) -> (u32, u32) {
    (s.1, s.0)
}

/// The round keys of a single-DES schedule, as byte sequences.
pub open spec fn schedule_view(schedule: DesSchedule) -> Seq<Seq<u8>> {
    schedule@.map_values(|k: RoundKey| k@)
}

/// The schedules of a Triple-DES pass, as byte sequences.
pub open spec fn triple_view(schedule: TripleSchedule) -> Seq<Seq<Seq<u8>>> {
    schedule@.map_values(|s: DesSchedule| schedule_view(s))
}

/// Single DES of an eight-byte block: fifteen swapping rounds, a last round
/// without swap, then the inverse permutation.
#[verifier::opaque]
pub open spec fn spec_crypt(x: Seq<u8>, ks: Seq<Seq<u8>>) -> Seq<u8> {
    let s = spec_rounds(spec_initial_permutation(x), ks.take(15));
    spec_inverse_permutation(s.0 ^ spec_feistel(s.1, ks[15]), s.1)
}

/// Runs one single-DES pass over a block with the given schedule.
pub fn crypt(input: &[u8; 8], schedule: &DesSchedule) -> (r: [u8; 8])
    ensures
        r@ == spec_crypt(input@, schedule_view(*schedule)),
{
    reveal(spec_crypt);
    let ghost ks = schedule_view(*schedule);
    let (mut s0, mut s1) = initial_permutation(input);
    let mut i: usize = 0;
    while i < 15
        invariant
            i <= 15,
            ks == schedule_view(*schedule),
            (s0, s1) == spec_rounds(spec_initial_permutation(input@), ks.take(i as int)),
        decreases 15 - i,
    {
        let previous = s1;
        s1 = feistel(s1, &schedule[i]) ^ s0;
        s0 = previous;
        assert(ks.take(i + 1).drop_last() =~= ks.take(i as int));
        i = i + 1;
    }
    s0 = s0 ^ feistel(s1, &schedule[15]);
    inverse_permutation(s0, s1)
}

/// Bits of the key selected by `perm`, the `i`-th one placed at bit `31 - i`.
pub open spec fn spec_key_half(key: Seq<u8>, perm: Seq<usize>, n: nat) -> u32
    decreases n,
{
    if n == 0 {
        0
    } else {
        spec_key_half(key, perm, (n - 1) as nat) | spec_bitnum(key, perm[n - 1] as int, (31 - (n - 1)) as u32)
    }
}

/// The 28-bit key-state half rotated left by `shift` (kept in the top bits).
pub open spec fn spec_rotate(c: u32, shift: u32) -> u32 {
    (vstd::wrapping::u32_specs::wrapping_shl(c, shift) | (c >> ((28 - shift) as u32))) & 0xffff_fff0u32
}

/// The left key-state half after `n` rotations.
pub open spec fn spec_c_state(key: Seq<u8>, n: nat) -> u32
    decreases n,
{
    if n == 0 {
        spec_key_half(key, KEY_PERM_C@, 28)
    } else {
        spec_rotate(spec_c_state(key, (n - 1) as nat), KEY_RND_SHIFT[n - 1])
    }
}

/// The right key-state half after `n` rotations.
pub open spec fn spec_d_state(key: Seq<u8>, n: nat) -> u32
    decreases n,
{
    if n == 0 {
        spec_key_half(key, KEY_PERM_D@, 28)
    } else {
        spec_rotate(spec_d_state(key, (n - 1) as nat), KEY_RND_SHIFT[n - 1])
    }
}

/// Round-key bit `j` (placed in its byte), taken from the key state `(c, d)`.
pub open spec fn spec_subkey_bit(c: u32, d: u32, j: int) -> u8 {
    if j < 24 {
        spec_bitnum_intr(c, KEY_COMPRESSION[j], (7 - j % 8) as u32) as u8
    } else {
        spec_bitnum_intr(d, (KEY_COMPRESSION[j] - 27) as u32, (7 - j % 8) as u32) as u8
    }
}

/// The round key after its first `n` bits have been set.
pub open spec fn spec_subkey_partial(c: u32, d: u32, n: nat) -> Seq<u8>
    decreases n,
{
    if n == 0 {
        seq![0u8, 0u8, 0u8, 0u8, 0u8, 0u8]
    } else {
        let p = spec_subkey_partial(c, d, (n - 1) as nat);
        let idx = (n - 1) / 8;
        p.update(idx, p[idx] | spec_subkey_bit(c, d, n - 1))
    }
}

/// The `i`-th round key in the order of generation.
pub open spec fn spec_generated_key(key: Seq<u8>, i: int) -> Seq<u8> {
    spec_subkey_partial(spec_c_state(key, (i + 1) as nat), spec_d_state(key, (i + 1) as nat), 48)
}

/// Where the `i`-th generated round key is stored for the given mode.
pub open spec fn schedule_slot(mode: u8, i: int) -> int {
    if mode == DECRYPT {
        15 - i
    } else {
        i
    }
}

/// The schedule for `key`: in generation order, or reversed when decrypting.
pub open spec fn spec_key_schedule(key: Seq<u8>, mode: u8) -> Seq<Seq<u8>> {
    Seq::new(16, |t: int| spec_generated_key(key, schedule_slot(mode, t)))
}

/// The schedule while keys `0..n` (in generation order) have been stored.
pub open spec fn spec_partial_schedule(key: Seq<u8>, mode: u8, n: int) -> Seq<Seq<u8>> {
    Seq::new(
        16,
        |t: int|
            if schedule_slot(mode, t) < n {
                spec_generated_key(key, schedule_slot(mode, t))
            } else {
                seq![0u8, 0u8, 0u8, 0u8, 0u8, 0u8]
            },
    )
}

/// Builds the sixteen round keys for an eight-byte key.
pub fn key_schedule(key: &[u8; 8], mode: u8) -> (schedule: DesSchedule)
    ensures
        schedule_view(schedule) == spec_key_schedule(key@, mode),
{
    proof {
        lemma_key_tables();
    }
    let zero: RoundKey = [0u8, 0u8, 0u8, 0u8, 0u8, 0u8];
    let mut schedule: DesSchedule = [
        zero, zero, zero, zero, zero, zero, zero, zero,
        zero, zero, zero, zero, zero, zero, zero, zero,
    ];
    let mut c: u32 = 0;
    let mut d: u32 = 0;
    let mut i: usize = 0;
    while i < 28
        invariant
            i <= 28,
            c == spec_key_half(key@, KEY_PERM_C@, i as nat),
            d == spec_key_half(key@, KEY_PERM_D@, i as nat),
            forall|k: int| 0 <= k < 28 ==> #[trigger] KEY_PERM_C[k] < 64,
            forall|k: int| 0 <= k < 28 ==> #[trigger] KEY_PERM_D[k] < 64,
        decreases 28 - i,
    {
        c = c | bitnum(key, KEY_PERM_C[i], 31 - i as u32);
        d = d | bitnum(key, KEY_PERM_D[i], 31 - i as u32);
        i = i + 1;
    }
    assert(schedule_view(schedule) =~= spec_partial_schedule(key@, mode, 0));
    let mut i: usize = 0;
    while i < 16
        invariant
            i <= 16,
            c == spec_c_state(key@, i as nat),
            d == spec_d_state(key@, i as nat),
            schedule_view(schedule) == spec_partial_schedule(key@, mode, i as int),
            forall|j: int| 0 <= j < 24 ==> #[trigger] KEY_COMPRESSION[j] < 32,
            forall|j: int| 24 <= j < 48 ==> 27 <= #[trigger] KEY_COMPRESSION[j] < 59,
            forall|k: int| 0 <= k < 16 ==> 1 <= #[trigger] KEY_RND_SHIFT[k] <= 2,
        decreases 16 - i,
    {
        let shift = KEY_RND_SHIFT[i];
        c = (c.wrapping_shl(shift) | (c >> (28 - shift))) & 0xffff_fff0;
        d = (d.wrapping_shl(shift) | (d >> (28 - shift))) & 0xffff_fff0;
        assert(c == spec_c_state(key@, (i + 1) as nat));
        assert(d == spec_d_state(key@, (i + 1) as nat));

        let togen = if mode == DECRYPT {
            15 - i
        } else {
            i
        };
        let mut round: RoundKey = [0u8, 0u8, 0u8, 0u8, 0u8, 0u8];
        assert(round@ =~= spec_subkey_partial(c, d, 0));
        let mut j: usize = 0;
        while j < 24
            invariant
                j <= 24,
                round@ == spec_subkey_partial(c, d, j as nat),
                forall|k: int| 0 <= k < 24 ==> #[trigger] KEY_COMPRESSION[k] < 32,
            decreases 24 - j,
        {
            let idx = j / 8;
            let bit = bitnum_intr(c, KEY_COMPRESSION[j], 7 - (j as u32 % 8)) as u8;
            round[idx] = round[idx] | bit;
            j = j + 1;
        }
        while j < 48
            invariant
                24 <= j <= 48,
                round@ == spec_subkey_partial(c, d, j as nat),
                forall|k: int| 24 <= k < 48 ==> 27 <= #[trigger] KEY_COMPRESSION[k] < 59,
            decreases 48 - j,
        {
            let idx = j / 8;
            let bit = bitnum_intr(d, KEY_COMPRESSION[j] - 27, 7 - (j as u32 % 8)) as u8;
            round[idx] = round[idx] | bit;
            j = j + 1;
        }
        let ghost before = schedule_view(schedule);
        schedule[togen] = round;
        assert(round@ == spec_generated_key(key@, i as int));
        assert(schedule_slot(mode, togen as int) == i);
        assert forall|t: int| 0 <= t < 16 implies #[trigger] schedule_view(schedule)[t] == spec_partial_schedule(key@, mode, i + 1)[t] by {
            if t != togen {
                assert(schedule_view(schedule)[t] == before[t]);
            }
        }
        assert(schedule_view(schedule) =~= spec_partial_schedule(key@, mode, i + 1));
        i = i + 1;
    }
    assert(schedule_view(schedule) =~= spec_key_schedule(key@, mode));
    schedule
}

/// The three single-DES schedules for a 24-byte key: encrypt–decrypt–encrypt
/// with keys 0, 1, 2, or, when decrypting, the reverse passes with keys 2, 1, 0.
pub open spec fn spec_triple_des_key_setup(key: Seq<u8>, mode: u8) -> Seq<Seq<Seq<u8>>> {
    let k0 = key.subrange(0, 8);
    let k1 = key.subrange(8, 16);
    let k2 = key.subrange(16, 24);
    if mode == ENCRYPT {
        seq![spec_key_schedule(k0, ENCRYPT), spec_key_schedule(k1, DECRYPT), spec_key_schedule(k2, ENCRYPT)]
    } else {
        seq![spec_key_schedule(k2, DECRYPT), spec_key_schedule(k1, ENCRYPT), spec_key_schedule(k0, DECRYPT)]
    }
}

/// Builds the Triple-DES schedules for a 24-byte key.
pub fn triple_des_key_setup(key: &[u8; 24], mode: u8) -> (r: TripleSchedule)
    ensures
        triple_view(r) == spec_triple_des_key_setup(key@, mode),
{
    let k0: [u8; 8] = [key[0], key[1], key[2], key[3], key[4], key[5], key[6], key[7]];
    let k1: [u8; 8] = [key[8], key[9], key[10], key[11], key[12], key[13], key[14], key[15]];
    let k2: [u8; 8] = [key[16], key[17], key[18], key[19], key[20], key[21], key[22], key[23]];
    assert(k0@ =~= key@.subrange(0, 8));
    assert(k1@ =~= key@.subrange(8, 16));
    assert(k2@ =~= key@.subrange(16, 24));
    let r = if mode == ENCRYPT {
        [key_schedule(&k0, ENCRYPT), key_schedule(&k1, DECRYPT), key_schedule(&k2, ENCRYPT)]
    } else {
        [key_schedule(&k2, DECRYPT), key_schedule(&k1, ENCRYPT), key_schedule(&k0, DECRYPT)]
    };
    assert(triple_view(r) =~= spec_triple_des_key_setup(key@, mode));
    r
}

/// Triple DES of one block: the three passes in order.
pub open spec fn spec_triple_des_crypt(x: Seq<u8>, s: Seq<Seq<Seq<u8>>>) -> Seq<u8> {
    spec_crypt(spec_crypt(spec_crypt(x, s[0]), s[1]), s[2])
}

/// Runs the three single-DES passes over one block.
pub fn triple_des_crypt(data: &[u8; 8], schedule: &TripleSchedule) -> (r: [u8; 8])
    ensures
        r@ == spec_triple_des_crypt(data@, triple_view(*schedule)),
{
    let first = crypt(data, &schedule[0]);
    let second = crypt(&first, &schedule[1]);
    crypt(&second, &schedule[2])
}

/// Exclusive or cancels itself and commutes.
pub proof fn lemma_xor_cancel(f: u32, a: u32)
    by (bit_vector)
    ensures
        f ^ (f ^ a) == a,
        f ^ a == a ^ f,
{
}

/// Running the rounds for `[k] + q` is running round `k` and then those for `q`.
pub proof fn lemma_rounds_prepend(s: (u32, u32), k: Seq<u8>, q: Seq<Seq<u8>>)
    ensures
        spec_rounds(s, seq![k] + q) == spec_rounds(spec_round(s, k), q),
    decreases q.len(),
{
    let p = seq![k] + q;
    if q.len() == 0 {
        assert(p.drop_last() =~= Seq::<Seq<u8>>::empty());
        assert(p.last() == k);
        assert(spec_rounds(s, p) == spec_round(spec_rounds(s, p.drop_last()), p.last()));
    } else {
        assert(p.drop_last() =~= seq![k] + q.drop_last());
        assert(p.last() == q.last());
        lemma_rounds_prepend(s, k, q.drop_last());
        assert(spec_rounds(s, p) == spec_round(spec_rounds(s, p.drop_last()), p.last()));
        assert(spec_rounds(spec_round(s, k), q) == spec_round(spec_rounds(spec_round(s, k), q.drop_last()), q.last()));
    }
}

/// A round applied to the swapped output of the same round gives back the
/// swapped input.
pub proof fn lemma_round_undone(w: (u32, u32), k: Seq<u8>)
    ensures
        spec_round(swap_halves(spec_round(w, k)), k) == swap_halves(w),
{
    lemma_xor_cancel(spec_feistel(w.1, k), w.0);
}

/// The rounds with the keys reversed undo the rounds, up to swapping the halves.
pub proof fn lemma_rounds_reversed(y: (u32, u32), ks: Seq<Seq<u8>>)
    ensures
        spec_rounds(swap_halves(spec_rounds(y, ks)), ks.reverse()) == swap_halves(y),
    decreases ks.len(),
{
    if ks.len() == 0 {
        assert(ks.reverse() =~= ks);
    } else {
        let p = ks.drop_last();
        let k = ks.last();
        assert(ks.reverse() =~= seq![k] + p.reverse());
        lemma_rounds_prepend(swap_halves(spec_rounds(y, ks)), k, p.reverse());
        lemma_round_undone(spec_rounds(y, p), k);
        lemma_rounds_reversed(y, p);
    }
}

/// Single DES is the inverse permutation of the swapped state after all sixteen
/// rounds.
pub proof fn lemma_crypt_via_rounds(x: Seq<u8>, ks: Seq<Seq<u8>>)
    requires
        ks.len() == 16,
    ensures
        ({
            let s = swap_halves(spec_rounds(spec_initial_permutation(x), ks));
            spec_crypt(x, ks) == spec_inverse_permutation(s.0, s.1)
        }),
{
    reveal(spec_crypt);
    assert(ks.drop_last() =~= ks.take(15));
    let s = spec_rounds(spec_initial_permutation(x), ks.take(15));
    lemma_xor_cancel(s.0, spec_feistel(s.1, ks[15]));
}

/// Single DES yields eight bytes.
pub proof fn lemma_crypt_len(x: Seq<u8>, ks: Seq<Seq<u8>>)
    ensures
        spec_crypt(x, ks).len() == 8,
{
    reveal(spec_crypt);
    reveal(spec_inverse_permutation);
}

/// Single DES with the round keys reversed decrypts single DES.
pub proof fn lemma_des_round_trip(x: Seq<u8>, ks: Seq<Seq<u8>>)
    requires
        x.len() == 8,
        ks.len() == 16,
    ensures
        spec_crypt(spec_crypt(x, ks), ks.reverse()) == x,
{
    let y = spec_initial_permutation(x);
    let z = swap_halves(spec_rounds(y, ks));
    lemma_crypt_via_rounds(x, ks);
    let c1 = spec_crypt(x, ks);
    lemma_permutation_after_inverse(z.0, z.1);
    lemma_crypt_via_rounds(c1, ks.reverse());
    lemma_rounds_reversed(y, ks);
    lemma_inverse_after_permutation(x);
}

/// The initial permutation undoes the inverse permutation.
pub proof fn lemma_permutation_after_inverse(s0: u32, s1: u32)
    ensures
        spec_initial_permutation(spec_inverse_permutation(s0, s1)) == (s0, s1),
{
    reveal(spec_initial_permutation);
    reveal(spec_inverse_permutation);
    lemma_initial_undoes_inverse(s0, s1);
}

/// The inverse permutation undoes the initial permutation of an eight-byte block.
pub proof fn lemma_inverse_after_permutation(x: Seq<u8>)
    requires
        x.len() == 8,
    ensures
        spec_inverse_permutation(spec_initial_permutation(x).0, spec_initial_permutation(x).1) == x,
{
    reveal(spec_initial_permutation);
    reveal(spec_inverse_permutation);
    lemma_inverse_undoes_initial(x[0], x[1], x[2], x[3], x[4], x[5], x[6], x[7]);
    assert(spec_inverse_permutation(spec_initial_permutation(x).0, spec_initial_permutation(x).1) =~= x);
}

/// The decrypting schedule is the encrypting schedule in reverse order, and the
/// other way round.
pub proof fn lemma_schedule_modes_reverse(key: Seq<u8>)
    ensures
        spec_key_schedule(key, DECRYPT) == spec_key_schedule(key, ENCRYPT).reverse(),
        spec_key_schedule(key, ENCRYPT) == spec_key_schedule(key, DECRYPT).reverse(),
{
    assert(spec_key_schedule(key, DECRYPT) =~= spec_key_schedule(key, ENCRYPT).reverse());
    assert(spec_key_schedule(key, ENCRYPT) =~= spec_key_schedule(key, DECRYPT).reverse());
}

/// Triple DES with the decrypting schedules undoes Triple DES with the
/// encrypting schedules of the same key, and the other way round.
pub proof fn lemma_triple_des_round_trip(key: Seq<u8>, block: Seq<u8>)
    requires
        key.len() == 24,
        block.len() == 8,
    ensures
        spec_triple_des_crypt(
            spec_triple_des_crypt(block, spec_triple_des_key_setup(key, ENCRYPT)),
            spec_triple_des_key_setup(key, DECRYPT),
        ) == block,
        spec_triple_des_crypt(
            spec_triple_des_crypt(block, spec_triple_des_key_setup(key, DECRYPT)),
            spec_triple_des_key_setup(key, ENCRYPT),
        ) == block,
{
    let k0 = key.subrange(0, 8);
    let k1 = key.subrange(8, 16);
    let k2 = key.subrange(16, 24);
    lemma_schedule_modes_reverse(k0);
    lemma_schedule_modes_reverse(k1);
    lemma_schedule_modes_reverse(k2);
    let e0 = spec_key_schedule(k0, ENCRYPT);
    let d0 = spec_key_schedule(k0, DECRYPT);
    let e1 = spec_key_schedule(k1, ENCRYPT);
    let d1 = spec_key_schedule(k1, DECRYPT);
    let e2 = spec_key_schedule(k2, ENCRYPT);
    let d2 = spec_key_schedule(k2, DECRYPT);
    let t1 = spec_crypt(block, e0);
    let t2 = spec_crypt(t1, d1);
    lemma_crypt_len(block, e0);
    lemma_crypt_len(t1, d1);
    lemma_des_round_trip(t2, e2);
    lemma_des_round_trip(t1, d1);
    lemma_des_round_trip(block, e0);
    let u1 = spec_crypt(block, d2);
    let u2 = spec_crypt(u1, e1);
    lemma_crypt_len(block, d2);
    lemma_crypt_len(u1, e1);
    lemma_des_round_trip(u2, d0);
    lemma_des_round_trip(u1, e1);
    lemma_des_round_trip(block, d2);
}

} // verus!
