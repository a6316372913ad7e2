//! Words, addresses and their little-endian byte images.

use vstd::prelude::*;

verus! {

/// The architectural word of the core: 32 bits for RV32.
pub type RiscWord = u32;

/// A bus address. Only the low 32 bits are used by an RV32 core.
pub type Address = u64;

/// Widths of a memory access.
#[derive(Debug, Clone, Copy, PartialEq, Eq, Structural)]
pub enum WordSize {
    BYTE,
    HALF,
    WORD,
    DOUBLE,
}

impl WordSize {
    /// Number of bytes of an access of this width.
    pub open spec fn spec_bytes(self) -> nat {
        match self {
            WordSize::BYTE => 1,
            WordSize::HALF => 2,
            WordSize::WORD => 4,
            WordSize::DOUBLE => 8,
        }
    }

    /// Number of bytes of an access of this width.
    pub fn bytes(self) -> (n: usize)
        ensures
            n == self.spec_bytes(),
    {
        match self {
            WordSize::BYTE => 1,
            WordSize::HALF => 2,
            WordSize::WORD => 4,
            WordSize::DOUBLE => 8,
        }
    }
}

/// The 16-bit value whose little-endian image starts at `at` in `s`.
pub open spec fn le_u16(s: Seq<u8>, at: int) -> u16 {
    (s[at] as int + 0x100 * (s[at + 1] as int)) as u16
}

/// The 32-bit value whose little-endian image starts at `at` in `s`.
pub open spec fn le_u32(s: Seq<u8>, at: int) -> u32 {
    (s[at] as int + 0x100 * (s[at + 1] as int) + 0x1_0000 * (s[at + 2] as int) + 0x100_0000 * (s[at
        + 3] as int)) as u32
}

/// The 64-bit value whose little-endian image starts at `at` in `s`.
pub open spec fn le_u64(s: Seq<u8>, at: int) -> u64 {
    (le_u32(s, at) as int + 0x1_0000_0000 * (le_u32(s, at + 4) as int)) as u64
}

/// The little-endian image of a word: four bytes, least significant first.
pub open spec fn word_bytes(w: RiscWord) -> Seq<u8> {
    seq![
        (w % 0x100) as u8,
        ((w / 0x100) % 0x100) as u8,
        ((w / 0x1_0000) % 0x100) as u8,
        (w / 0x100_0000) as u8,
    ]
}

/// Reading back the image of a word gives the word.
pub proof fn lemma_word_bytes_round_trip(w: RiscWord)
    ensures
        word_bytes(w).len() == 4,
        le_u32(word_bytes(w), 0) == w,
{
}

/// Builds a 16-bit value from two bytes, least significant first.
pub fn u16_from_le(b0: u8, b1: u8) -> (r: u16)
    ensures
        r == le_u16(seq![b0, b1], 0),
{
    b0 as u16 + 0x100 * (b1 as u16)
}

/// Builds a word from four bytes, least significant first.
pub fn u32_from_le(b0: u8, b1: u8, b2: u8, b3: u8) -> (r: u32)
    ensures
        r == le_u32(seq![b0, b1, b2, b3], 0),
{
    b0 as u32 + 0x100 * (b1 as u32) + 0x1_0000 * (b2 as u32) + 0x100_0000 * (b3 as u32)
}

/// The four bytes of a word, least significant first.
pub fn word_to_le(w: RiscWord) -> (r: Vec<u8>)
    ensures
        r@ == word_bytes(w),
{
    let mut r: Vec<u8> = Vec::with_capacity(4);
    r.push((w % 0x100) as u8);
    r.push(((w / 0x100) % 0x100) as u8);
    r.push(((w / 0x1_0000) % 0x100) as u8);
    r.push((w / 0x100_0000) as u8);
    assert(r@ =~= word_bytes(w));
    r
}

/// Appends the four bytes of a word, least significant first.
pub fn push_word(out: &mut Vec<u8>, w: RiscWord)
    ensures
        final(out)@ == old(out)@ + word_bytes(w),
{
    out.push((w % 0x100) as u8);
    out.push(((w / 0x100) % 0x100) as u8);
    out.push(((w / 0x1_0000) % 0x100) as u8);
    out.push((w / 0x100_0000) as u8);
    assert(out@ =~= old(out)@ + word_bytes(w));
}

/// A sequence of `n` zero bytes.
pub open spec fn zero_bytes(n: nat) -> Seq<u8> {
    Seq::new(n, |i: int| 0u8)
}

/// A vector of `n` zero bytes.
pub fn zeros(n: usize) -> (r: Vec<u8>)
    ensures
        r@ == zero_bytes(n as nat),
{
    let mut r: Vec<u8> = Vec::new();
    let mut i: usize = 0;
    while i < n
        invariant
            i <= n,
            r@ == zero_bytes(i as nat),
        decreases n - i,
    {
        r.push(0u8);
        i += 1;
        assert(r@ =~= zero_bytes(i as nat));
    }
    r
}

} // verus!
