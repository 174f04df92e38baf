//! The binary digits of numbers.
use vstd::prelude::*;

verus! {

/// What the binary digit at a place counts: a power of two.
pub open spec fn place_value(n: int) -> int {
    if n == 0 {
        1
    } else if n == 1 {
        2
    } else if n == 2 {
        4
    } else if n == 3 {
        8
    } else if n == 4 {
        16
    } else if n == 5 {
        32
    } else if n == 6 {
        64
    } else if n == 7 {
        128
    } else if n == 8 {
        256
    } else if n == 9 {
        512
    } else if n == 10 {
        1024
    } else if n == 11 {
        2048
    } else if n == 12 {
        4096
    } else if n == 13 {
        8192
    } else if n == 14 {
        16384
    } else if n == 15 {
        32768
    } else {
        65536
    }
}

/// Whether the binary digit at a place is set. Places are counted from the lowest one, which is 0.
pub open spec fn digit(v: int, n: int) -> bool {
    v / place_value(n) % 2 == 1
}

/// What a binary digit contributes to a number.
pub open spec fn valued(set: bool, n: int) -> int {
    if set {
        place_value(n)
    } else {
        0
    }
}

/// The byte with the given binary digits.
pub open spec fn byte_of(digits: spec_fn(int) -> bool) -> int {
    valued(digits(0), 0) + valued(digits(1), 1) + valued(digits(2), 2) + valued(digits(3), 3)
        + valued(digits(4), 4) + valued(digits(5), 5) + valued(digits(6), 6)
        + valued(digits(7), 7)
}

/// The word with the given binary digits.
pub open spec fn word_of(digits: spec_fn(int) -> bool) -> int {
    byte_of(digits) + valued(digits(8), 8) + valued(digits(9), 9) + valued(digits(10), 10)
        + valued(digits(11), 11) + valued(digits(12), 12) + valued(digits(13), 13)
        + valued(digits(14), 14) + valued(digits(15), 15)
}

proof fn lemma_byte_sum(v: u8)
    by (bit_vector)
    ensures
        v == (v / 1 % 2) * 1 + (v / 2 % 2) * 2 + (v / 4 % 2) * 4 + (v / 8 % 2) * 8
            + (v / 16 % 2) * 16 + (v / 32 % 2) * 32 + (v / 64 % 2) * 64 + (v / 128 % 2) * 128,
{
}

proof fn lemma_word_sum(v: u16)
    by (bit_vector)
    ensures
        v == (v / 1 % 2) * 1 + (v / 2 % 2) * 2 + (v / 4 % 2) * 4 + (v / 8 % 2) * 8
            + (v / 16 % 2) * 16 + (v / 32 % 2) * 32 + (v / 64 % 2) * 64 + (v / 128 % 2) * 128
            + (v / 256 % 2) * 256 + (v / 512 % 2) * 512 + (v / 1024 % 2) * 1024
            + (v / 2048 % 2) * 2048 + (v / 4096 % 2) * 4096 + (v / 8192 % 2) * 8192
            + (v / 16384 % 2) * 16384 + (v / 32768 % 2) * 32768,
{
}

proof fn lemma_valued(v: int, n: int)
    requires
        v >= 0,
        0 <= n < 16,
    ensures
        valued(digit(v, n), n) == (v / place_value(n) % 2) * place_value(n),
{
    let d = v / place_value(n) % 2;
    if d == 0 {
        assert(d * place_value(n) == 0);
    } else {
        assert(d == 1);
        assert(d * place_value(n) == place_value(n));
    }
}

/// A byte is determined by its digits.
pub proof fn lemma_byte_of(v: u8, digits: spec_fn(int) -> bool)
    requires
        forall|i: int| 0 <= i < 8 ==> #[trigger] digits(i) == digit(v as int, i),
    ensures
        v == byte_of(digits),
{
    lemma_byte_sum(v);
    lemma_valued(v as int, 0);
    lemma_valued(v as int, 1);
    lemma_valued(v as int, 2);
    lemma_valued(v as int, 3);
    lemma_valued(v as int, 4);
    lemma_valued(v as int, 5);
    lemma_valued(v as int, 6);
    lemma_valued(v as int, 7);
}

/// A word is determined by its digits.
pub proof fn lemma_word_of(v: u16, digits: spec_fn(int) -> bool)
    requires
        forall|i: int| 0 <= i < 16 ==> #[trigger] digits(i) == digit(v as int, i),
    ensures
        v == word_of(digits),
{
    lemma_word_sum(v);
    lemma_valued(v as int, 0);
    lemma_valued(v as int, 1);
    lemma_valued(v as int, 2);
    lemma_valued(v as int, 3);
    lemma_valued(v as int, 4);
    lemma_valued(v as int, 5);
    lemma_valued(v as int, 6);
    lemma_valued(v as int, 7);
    lemma_valued(v as int, 8);
    lemma_valued(v as int, 9);
    lemma_valued(v as int, 10);
    lemma_valued(v as int, 11);
    lemma_valued(v as int, 12);
    lemma_valued(v as int, 13);
    lemma_valued(v as int, 14);
    lemma_valued(v as int, 15);
}

proof fn lemma_word_masks(v: u16)
    by (bit_vector)
    ensures
        (v & (1u16 << 0u16) != 0) == (v / 1 % 2 == 1),
        (v & (1u16 << 1u16) != 0) == (v / 2 % 2 == 1),
        (v & (1u16 << 2u16) != 0) == (v / 4 % 2 == 1),
        (v & (1u16 << 3u16) != 0) == (v / 8 % 2 == 1),
        (v & (1u16 << 4u16) != 0) == (v / 16 % 2 == 1),
        (v & (1u16 << 5u16) != 0) == (v / 32 % 2 == 1),
        (v & (1u16 << 6u16) != 0) == (v / 64 % 2 == 1),
        (v & (1u16 << 7u16) != 0) == (v / 128 % 2 == 1),
        (v & (1u16 << 8u16) != 0) == (v / 256 % 2 == 1),
        (v & (1u16 << 9u16) != 0) == (v / 512 % 2 == 1),
        (v & (1u16 << 10u16) != 0) == (v / 1024 % 2 == 1),
        (v & (1u16 << 11u16) != 0) == (v / 2048 % 2 == 1),
        (v & (1u16 << 12u16) != 0) == (v / 4096 % 2 == 1),
        (v & (1u16 << 13u16) != 0) == (v / 8192 % 2 == 1),
        (v & (1u16 << 14u16) != 0) == (v / 16384 % 2 == 1),
        (v & (1u16 << 15u16) != 0) == (v / 32768 % 2 == 1),
{
}

/// A mask with one digit tells whether that digit of a word is set.
pub proof fn lemma_word_mask(v: u16, n: u16)
    requires
        n < 16,
    ensures
        (v & (1u16 << n) != 0) == digit(v as int, n as int),
{
    lemma_word_masks(v);
}

/// Masks with one digit tell whether that digit of a byte is set.
pub proof fn lemma_byte_masks(v: u8)
    by (bit_vector)
    ensures
        (v & 0b0000_0001u8 != 0) == (v / 1 % 2 == 1),
        (v & 0b0000_0010u8 != 0) == (v / 2 % 2 == 1),
        (v & 0b0000_0100u8 != 0) == (v / 4 % 2 == 1),
        (v & 0b0000_1000u8 != 0) == (v / 8 % 2 == 1),
        (v & 0b0001_0000u8 != 0) == (v / 16 % 2 == 1),
        (v & 0b0010_0000u8 != 0) == (v / 32 % 2 == 1),
        (v & 0b0100_0000u8 != 0) == (v / 64 % 2 == 1),
        (v & 0b1000_0000u8 != 0) == (v / 128 % 2 == 1),
{
}

} // verus!
