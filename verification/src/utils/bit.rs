use vstd::prelude::*;

verus! {

/// Bit `n` of `byte`, as 0 or 1.
pub open spec fn bit_of(byte: u8, n: u8) -> u8 {
    (byte >> n) & 1
}

/// Bit `n` of `word`, as 0 or 1.
pub open spec fn bit_of_u16(word: u16, n: u8) -> u16 {
    (word >> n) & 1
}

/// The mask that `fill_to(n)` builds: bits 1 to n + 1 set, bit 0 clear
/// (saturating at 0xFE once n + 1 reaches the top bit).
pub open spec fn fill_mask(n: u8) -> u8 {
    if n >= 6 {
        0xFE
    } else {
        ((1u8 << ((n + 2) as u8)) - 2) as u8
    }
}

/// The word mask that `fill_to_word(n)` builds: bits 1 to n + 1 set, bit 0 clear
/// (saturating at 0xFFFE).
pub open spec fn fill_mask_word(n: u16) -> u16 {
    if n >= 14 {
        0xFFFE
    } else {
        ((1u16 << ((n + 2) as u16)) - 2) as u16
    }
}

/// The value after `i` rounds of "set bit 0, shift left" starting from 0.
spec fn filled_after(i: u16) -> u8 {
    if i >= 7 {
        0xFE
    } else {
        ((1u8 << ((i + 1) as u8)) - 2) as u8
    }
}

spec fn filled_after_word(i: u32) -> u16 {
    if i >= 15 {
        0xFFFE
    } else {
        ((1u16 << ((i + 1) as u16)) - 2) as u16
    }
}

pub fn get(byte: u8, n: u8) -> (r: u8)
    requires
        n < 8,
    ensures
        r == bit_of(byte, n),
        r <= 1,
{
    assert((byte >> n) & 1 <= 1) by (bit_vector);
    (byte >> n) & 1
}

pub fn is_set(byte: u8, n: u8) -> (r: bool)
    requires
        n < 8,
    ensures
        r == (bit_of(byte, n) == 1),
{
    get(byte, n) == 1
}

pub fn get_u16(word: u16, n: u8) -> (r: u16)
    requires
        n < 16,
    ensures
        r == bit_of_u16(word, n),
        r <= 1,
{
    assert((word >> n) & 1 <= 1) by (bit_vector);
    (word >> n) & 1
}

pub fn is_set_u16(word: u16, n: u8) -> (r: bool)
    requires
        n < 16,
    ensures
        r == (bit_of_u16(word, n) == 1),
{
    get_u16(word, n) == 1
}

pub fn set(byte: &mut u8, n: u8)
    requires
        n < 8,
    ensures
        *final(byte) == *old(byte) | (1u8 << n),
{
    *byte = *byte | (1 << n)
}

pub fn reset(byte: &mut u8, n: u8)
    requires
        n < 8,
    ensures
        *final(byte) == *old(byte) & !(1u8 << n),
{
    *byte = *byte & !(1 << n)
}

pub fn toggle(byte: &mut u8, n: u8)
    requires
        n < 8,
    ensures
        *final(byte) == *old(byte) ^ (1u8 << n),
{
    *byte = *byte ^ (1 << n)
}

/// Setting bit `n` makes it read as 1 and leaves every other bit as it was.
pub proof fn lemma_set_bit(byte: u8, n: u8, m: u8)
    requires
        n < 8,
        m < 8,
    ensures
        bit_of(byte | (1u8 << n), n) == 1,
        m != n ==> bit_of(byte | (1u8 << n), m) == bit_of(byte, m),
{
    assert(bit_of(byte | (1u8 << n), n) == 1 && (m != n ==> bit_of(byte | (1u8 << n), m)
        == bit_of(byte, m))) by (bit_vector)
        requires
            n < 8,
            m < 8,
    ;
}

/// Resetting bit `n` makes it read as 0 and leaves every other bit as it was.
pub proof fn lemma_reset_bit(byte: u8, n: u8, m: u8)
    requires
        n < 8,
        m < 8,
    ensures
        bit_of(byte & !(1u8 << n), n) == 0,
        m != n ==> bit_of(byte & !(1u8 << n), m) == bit_of(byte, m),
{
    assert(bit_of(byte & !(1u8 << n), n) == 0 && (m != n ==> bit_of(byte & !(1u8 << n), m)
        == bit_of(byte, m))) by (bit_vector)
        requires
            n < 8,
            m < 8,
    ;
}

/// Toggling bit `n` flips it, leaves every other bit as it was, and toggling twice
/// gives the byte back.
pub proof fn lemma_toggle_bit(byte: u8, n: u8, m: u8)
    requires
        n < 8,
        m < 8,
    ensures
        bit_of(byte ^ (1u8 << n), n) == 1 - bit_of(byte, n),
        m != n ==> bit_of(byte ^ (1u8 << n), m) == bit_of(byte, m),
        (byte ^ (1u8 << n)) ^ (1u8 << n) == byte,
{
    assert(bit_of(byte ^ (1u8 << n), n) == 1 - bit_of(byte, n) && (m != n ==> bit_of(
        byte ^ (1u8 << n),
        m,
    ) == bit_of(byte, m)) && (byte ^ (1u8 << n)) ^ (1u8 << n) == byte) by (bit_vector)
        requires
            n < 8,
            m < 8,
    ;
}

/// The fields of a byte that masks and shifts pick out, as arithmetic.
pub proof fn lemma_byte_fields(x: u8)
    ensures
        x & 0xF == x % 16,
        x & 0b111 == x % 8,
        x & 0b11 == x % 4,
        x & 1 == x % 2,
        x >> 1u8 == x / 2,
        (x >> 6u8) & 0b11 == x / 64,
        (x & 0b1100_0000) >> 6u8 == x / 64,
        (x & 0b1111_1000) >> 3u8 == x / 8,
        (x & 0b0011_1000) >> 3u8 == (x / 8) % 8,
        (x & 0b0011_1000) >> 3u8 == (x % 64) / 8,
        (x & 0b0001_1000) >> 3u8 == (x / 8) % 4,
        (x & 0b0011_0000) >> 4u8 == (x / 16) % 4,
        ((x >> 5u8) & 1 == 1) == (x % 64 >= 0x20),
        bit_of(x, 0) == x % 2,
        bit_of(x, 7) == x / 128,
        x << 1u8 == (x * 2) % 256,
        !x == 255 - x,
        (!x) & 0xF == 15 - x % 16,
        x <= 1 ==> x << 7u8 == x * 128,
{
    assert(x & 0xF == x % 16 && x & 0b111 == x % 8 && x & 0b11 == x % 4 && x & 1 == x % 2 && x >> 1u8 == x / 2 && (x
        >> 6u8) & 0b11 == x / 64 && (x & 0b1100_0000) >> 6u8 == x / 64 && (x & 0b1111_1000)
        >> 3u8 == x / 8 && (x & 0b0011_1000) >> 3u8 == (x / 8) % 8 && (x & 0b0011_1000) >> 3u8
        == (x % 64) / 8 && (x & 0b0001_1000) >> 3u8 == (x / 8) % 4 && (x & 0b0011_0000) >> 4u8
        == (x / 16) % 4 && ((x >> 5u8) & 1 == 1) == (x % 64 >= 0x20) && (x >> 0u8) & 1 == x % 2
        && (x >> 7u8) & 1 == x / 128 && x << 1u8 == (x * 2) % 256 && !x == 255 - x && (!x) & 0xF
        == 15 - x % 16 && (x <= 1 ==> x << 7u8 == x * 128)) by (bit_vector);
}

/// The bytes and fields of a word that masks, shifts and casts pick out, as
/// arithmetic.
pub proof fn lemma_word_fields(w: u16)
    ensures
        w & 0xFF == w % 256,
        w as u8 == w % 256,
        (w & 0xFF) as u8 == w % 256,
        (w & 0xFF00) >> 8u16 == w / 256,
        ((w & 0xFF00) >> 8u16) as u8 == w / 256,
        w >> 8u16 == w / 256,
        (w >> 8u16) as u8 == w / 256,
        (!w) as u8 == 255 - w % 256,
        (!w) & 0xFF == 255 - w % 256,
        !(w & 0xFF) == 0xFFFF - w % 256,
        (!w) & 1 == 1 - w % 2,
        w & 0xFFF == w % 0x1000,
        !w == 0xFFFF - w,
{
    assert(w & 0xFF == w % 256 && w as u8 == w % 256 && (w & 0xFF) as u8 == w % 256 && (w
        & 0xFF00) >> 8u16 == w / 256 && ((w & 0xFF00) >> 8u16) as u8 == w / 256 && w >> 8u16 == w
        / 256 && (w >> 8u16) as u8 == w / 256 && (!w) as u8 == 255 - w % 256 && (!w) & 0xFF == 255
        - w % 256 && !(w & 0xFF) == 0xFFFF - w % 256 && (!w) & 1 == 1 - w % 2 && w & 0xFFF == w
        % 0x1000 && !w == 0xFFFF - w) by (bit_vector);
}

/// Two bits side by side: the high one shifted over the low one.
pub proof fn lemma_pair_bits(high: u8, low: u8)
    requires
        high <= 1,
        low <= 1,
    ensures
        (high << 1u8) | low == high * 2 + low,
{
    assert((high << 1u8) | low == high * 2 + low) by (bit_vector)
        requires
            high <= 1,
            low <= 1,
    ;
}

/// Shifting right by one and putting a bit back on top.
pub proof fn lemma_shift_or(v: u8, top: u8)
    requires
        top <= 1,
    ensures
        (v >> 1u8) | (top << 7u8) == v / 2 + top * 128,
{
    assert((v >> 1u8) | (top << 7u8) == v / 2 + top * 128) by (bit_vector)
        requires
            top <= 1,
    ;
}

/// Swapping the nibbles of a byte.
pub proof fn lemma_swap_nibbles(v: u8)
    ensures
        ((v & 0b1111) << 4u8) | ((v & 0b1111_0000) >> 4u8) == (v % 16) * 16 + v / 16,
{
    assert(((v & 0b1111) << 4u8) | ((v & 0b1111_0000) >> 4u8) == (v % 16) * 16 + v / 16)
        by (bit_vector);
}

/// Truncating a 64-bit value to a word or a byte keeps its low bits.
pub proof fn lemma_truncate(x: u64)
    ensures
        x as u16 == x % 0x10000,
        x as u8 == x % 0x100,
{
    assert(x as u16 == x % 0x10000 && x as u8 == x % 0x100) by (bit_vector);
}

/// Joining a high and a low byte, and replacing one byte of a word, as arithmetic.
pub proof fn lemma_join_bytes(high: u8, low: u8, w: u16)
    ensures
        ((high as u16) << 8u16) | (low as u16) == high * 256 + low,
        (w & 0xFF00) | (low as u16) == (w / 256) * 256 + low,
        (w & 0x00FF) | ((high as u16) << 8u16) == high * 256 + w % 256,
{
    assert(((high as u16) << 8u16) | (low as u16) == high * 256 + low && (w & 0xFF00) | (
    low as u16) == (w / 256) * 256 + low && (w & 0x00FF) | ((high as u16) << 8u16) == high * 256
        + w % 256) by (bit_vector);
}

proof fn lemma_fill_step(i: u16)
    ensures
        filled_after(0) == 0,
        (((filled_after(i) | 1) << 1u8) as u8) == filled_after((i + 1) as u16) || i == 0xFFFF,
{
    let k: u8 = if i < 7 { i as u8 } else { 7 };
    assert(((1u8 << 1u8) - 2) as u8 == 0u8 && (k < 7 ==> (((((1u8 << ((k + 1) as u8)) - 2) as u8
        | 1) << 1u8) as u8) == (if k >= 6 {
        0xFEu8
    } else {
        ((1u8 << ((k + 2) as u8)) - 2) as u8
    })) && (((0xFEu8 | 1) << 1u8) as u8) == 0xFEu8) by (bit_vector);
}

proof fn lemma_fill_step_word(i: u32)
    ensures
        filled_after_word(0) == 0,
        (((filled_after_word(i) | 1) << 1u16) as u16) == filled_after_word((i + 1) as u32) || i
            == 0xFFFF_FFFF,
{
    let k: u16 = if i < 15 { i as u16 } else { 15 };
    assert(((1u16 << 1u16) - 2) as u16 == 0u16 && (k < 15 ==> (((((1u16 << ((k + 1) as u16))
        - 2) as u16 | 1) << 1u16) as u16) == (if k >= 14 {
        0xFFFEu16
    } else {
        ((1u16 << ((k + 2) as u16)) - 2) as u16
    })) && (((0xFFFEu16 | 1) << 1u16) as u16) == 0xFFFEu16) by (bit_vector);
}

/// A byte with bits 1 through `n + 1` set (bit 0 clear), built by shifting ones in.
pub fn fill_to(n: u8) -> (r: u8)
    ensures
        r == fill_mask(n),
{
    let mut byte: u8 = 0;
    let mut i: u16 = 0;
    proof {
        lemma_fill_step(0);
    }
    while i <= n as u16
        invariant
            i <= n as u16 + 1,
            byte == filled_after(i),
        decreases n as u16 + 1 - i,
    {
        proof {
            lemma_fill_step(i);
        }
        byte = byte | 0b1;
        byte = byte << 1;
        i = i + 1;
    }
    assert(filled_after((n as u16 + 1) as u16) == fill_mask(n));
    byte
}

/// A word with bits 1 through `n + 1` set (bit 0 clear), built by shifting ones in.
pub fn fill_to_word(n: u16) -> (r: u16)
    ensures
        r == fill_mask_word(n),
{
    let mut word: u16 = 0;
    let mut i: u32 = 0;
    proof {
        lemma_fill_step_word(0);
    }
    while i <= n as u32
        invariant
            i <= n as u32 + 1,
            word == filled_after_word(i),
        decreases n as u32 + 1 - i,
    {
        proof {
            lemma_fill_step_word(i);
        }
        word = word | 0b1;
        word = word << 1;
        i = i + 1;
    }
    assert(filled_after_word((n as u32 + 1) as u32) == fill_mask_word(n));
    word
}


pub fn check_borrow(a: u8, b: u8, n: u8) -> (r: bool)
    requires
        n <= 8,
        n == 8 || a & fill_mask(n) >= b & fill_mask(n),
    ensures
        r == if n == 8 {
            b > a
        } else {
            bit_of(a & fill_mask(n), n) == 1 && bit_of(
                ((a & fill_mask(n)) - (b & fill_mask(n))) as u8,
                n,
            ) != 1
        },
{
    if n == 8 {
        return b > a;
    }
    let fill = fill_to(n);
    let am = a & fill;
    let bm = b & fill;
    let diff = am - bm;
    is_set(am, n) && !is_set(diff, n)
}

pub fn check_borrow_word(a: u16, b: u16, n: u8) -> (r: bool)
    requires
        n <= 16,
        n == 16 || a & fill_mask_word(n as u16) >= b & fill_mask_word(n as u16),
    ensures
        r == if n == 16 {
            b > a
        } else {
            bit_of_u16(a & fill_mask_word(n as u16), n) == 1 && bit_of_u16(
                ((a & fill_mask_word(n as u16)) - (b & fill_mask_word(n as u16))) as u16,
                n,
            ) != 1
        },
{
    if n == 16 {
        return b > a;
    }
    let fill = fill_to_word(n as u16);
    let am = a & fill;
    let bm = b & fill;
    let diff = am - bm;
    is_set_u16(am, n) && !is_set_u16(diff, n)
}

proof fn lemma_overflow_bits(a: u8, b: u8, n: u8)
    by (bit_vector)
    requires
        n < 7,
    ensures
        (a & (1u8 << n)) + (b & (1u8 << n)) < 256,
        (((((a & (1u8 << n)) + (b & (1u8 << n))) as u8) >> ((n + 1) as u8)) & 1 == 1) == (((a
            >> n) & 1) == 1 && ((b >> n) & 1) == 1),
{
}

proof fn lemma_overflow_top_bit(a: u8, b: u8)
    by (bit_vector)
    ensures
        (((((a & (1u8 << 7u8)) as u16 + (b & (1u8 << 7u8)) as u16) as u16) >> 8u8) & 1 == 1) == (
        ((a >> 7u8) & 1) == 1 && ((b >> 7u8) & 1) == 1),
{
}

proof fn lemma_overflow_bits_word(a: u16, b: u16, n: u8)
    by (bit_vector)
    requires
        n < 15,
    ensures
        (a & (1u16 << n)) + (b & (1u16 << n)) < 0x10000,
        (((((a & (1u16 << n)) + (b & (1u16 << n))) as u16) >> ((n + 1) as u8)) & 1 == 1) == (((a
            >> n) & 1) == 1 && ((b >> n) & 1) == 1),
{
}

proof fn lemma_overflow_top_bit_word(a: u16, b: u16)
    by (bit_vector)
    ensures
        (((((a & (1u16 << 15u8)) as u32 + (b & (1u16 << 15u8)) as u32) as u32) >> 16u8) & 1 == 1)
            == (((a >> 15u8) & 1) == 1 && ((b >> 15u8) & 1) == 1),
{
}

/// True exactly when both `a` and `b` have bit `n` set: adding those two bits
/// carries out of position `n`.
pub fn check_overflow(a: u8, b: u8, n: u8) -> (r: bool)
    requires
        n < 8,
    ensures
        r == (bit_of(a, n) == 1 && bit_of(b, n) == 1),
{
    let bit: u8 = 1 << n;
    let am = a & bit;
    let bm = b & bit;
    if n == 7 {
        proof {
            lemma_overflow_top_bit(a, b);
        }
        get_u16((am as u16) + (bm as u16), n + 1) == 1
    } else {
        proof {
            lemma_overflow_bits(a, b, n);
        }
        get(am + bm, n + 1) == 1
    }
}

/// True exactly when both `a` and `b` have bit `n` set.
pub fn check_overflow_word(a: u16, b: u16, n: u8) -> (r: bool)
    requires
        n < 16,
    ensures
        r == (bit_of_u16(a, n) == 1 && bit_of_u16(b, n) == 1),
{
    let bit: u16 = 1 << n;
    let am = a & bit;
    let bm = b & bit;
    if n == 15 {
        proof {
            lemma_overflow_top_bit_word(a, b);
        }
        ((((am as u32) + (bm as u32)) >> (n + 1)) & 1) == 1
    } else {
        proof {
            lemma_overflow_bits_word(a, b, n);
        }
        get_u16(am + bm, n + 1) == 1
    }
}


/// Adding `a` and `b` carries out of the low nibble.
pub fn check_hc(a: u8, b: u8) -> (r: bool)
    ensures
        r == (a % 16 + b % 16 > 15),
{
    proof {
        lemma_byte_fields(a);
        lemma_byte_fields(b);
    }
    (a & 0xF) + (b & 0xF) > 0xF
}

/// Subtracting `b` from `a` borrows from the high nibble.
pub fn check_b(a: u8, b: u8) -> (r: bool)
    ensures
        r == (a % 16 < b % 16),
{
    proof {
        lemma_byte_fields(a);
        lemma_byte_fields(b);
    }
    (a & 0xF) < (b & 0xF)
}

/// Adding `a` and `b` carries out of the byte.
pub fn check_carry(a: u8, b: u8) -> (r: bool)
    ensures
        r == (a + b > 0xFF),
{
    (a as u16) + (b as u16) > 0xFF
}

/// Adding `a` and `b` carries out of the word.
pub fn check_carry_word(a: u16, b: u16) -> (r: bool)
    ensures
        r == (a + b > 0xFFFF),
{
    (a as u32) + (b as u32) > 0xFFFF
}

/// Adding `a` and `b` carries out of bit 11.
pub fn check_hc_word(a: u16, b: u16) -> (r: bool)
    ensures
        r == (a % 0x1000 + b % 0x1000 > 0xFFF),
{
    proof {
        lemma_word_fields(a);
        lemma_word_fields(b);
    }
    (a & 0xFFF) + (b & 0xFFF) > 0xFFF
}

} // verus!
