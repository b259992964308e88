//! Single bytes inside machine words: the trap opcode is written into the
//! target's memory one word at a time, keeping the word's other bytes.
use vstd::prelude::*;
use crate::address::align_addr_to_word;

verus! {

/// The x86 `int3` opcode, which raises a debug trap when executed.
pub const TRAP_OPCODE: u8 = 0xcc;

/// The byte at position `k` (0 = least significant) of a little-endian word.
pub open spec fn byte_of(word: u64, k: u64) -> u8 {
    ((word >> (8 * k)) & 0xff) as u8
}

/// `word` with its byte at position `k` replaced by `val`.
pub open spec fn with_byte(word: u64, k: u64, val: u8) -> u64 {
    (word & !(0xffu64 << (8 * k))) | ((val as u64) << (8 * k))
}

/// Position of the byte at `addr` inside its aligned word.
pub open spec fn offset_in_word(addr: usize) -> u64 {
    (addr % 8) as u64
}

/// Reading back a byte just written gives it.
pub proof fn lemma_byte_written(word: u64, k: u64, val: u8)
    requires
        k < 8,
    ensures
        byte_of(with_byte(word, k, val), k) == val,
{
    assert(((((word & !(0xffu64 << (8 * k))) | ((val as u64) << (8 * k))) >> (8 * k)) & 0xff)
        == val as u64) by (bit_vector)
        requires k < 8, val <= 0xff;
}

/// Writing a byte leaves every other byte of the word as it was.
pub proof fn lemma_other_bytes_kept(word: u64, k: u64, j: u64, val: u8)
    requires
        k < 8,
        j < 8,
        j != k,
    ensures
        byte_of(with_byte(word, k, val), j) == byte_of(word, j),
{
    assert(((((word & !(0xffu64 << (8 * k))) | ((val as u64) << (8 * k))) >> (8 * j)) & 0xff)
        == ((word >> (8 * j)) & 0xff)) by (bit_vector)
        requires k < 8, j < 8, j != k, val <= 0xff;
}

/// Writing back the byte that a word already holds leaves the word unchanged.
pub proof fn lemma_rewrite_same_byte(word: u64, k: u64)
    requires
        k < 8,
    ensures
        with_byte(word, k, byte_of(word, k)) == word,
{
    assert(((word & !(0xffu64 << (8 * k))) | ((((word >> (8 * k)) & 0xff) as u8 as u64) << (8
        * k))) == word) by (bit_vector)
        requires k < 8;
}

/// Of two writes to one byte, only the second counts.
pub proof fn lemma_last_write_wins(word: u64, k: u64, v: u8, u: u8)
    requires
        k < 8,
    ensures
        with_byte(with_byte(word, k, v), k, u) == with_byte(word, k, u),
{
    assert(((((word & !(0xffu64 << (8 * k))) | ((v as u64) << (8 * k))) & !(0xffu64 << (8 * k)))
        | ((u as u64) << (8 * k))) == ((word & !(0xffu64 << (8 * k))) | ((u as u64) << (8 * k))))
        by (bit_vector)
        requires k < 8, v <= 0xff, u <= 0xff;
}

/// Installing the trap at a byte and then writing back the byte it replaced
/// gives the word as it was before the install.
pub proof fn lemma_install_restore_round_trip(word: u64, addr: usize)
    ensures
        with_byte(
            with_byte(word, offset_in_word(addr), TRAP_OPCODE),
            offset_in_word(addr),
            byte_of(word, offset_in_word(addr)),
        ) == word,
{
    let k = offset_in_word(addr);
    lemma_last_write_wins(word, k, TRAP_OPCODE, byte_of(word, k));
    lemma_rewrite_same_byte(word, k);
}

/// Writes `val` at `addr` into `word`, the word that starts at the aligned
/// address below `addr`, and returns the new word with the byte it replaced.
pub fn write_byte(word: u64, addr: usize, val: u8) -> (r: (u64, u8))
    ensures
        r.0 == with_byte(word, offset_in_word(addr), val),
        r.1 == byte_of(word, offset_in_word(addr)),
{
    let aligned = align_addr_to_word(addr);
    let k: u64 = (addr - aligned) as u64;
    assert(k < 8);
    let shift: u64 = 8 * k;
    let orig_byte = ((word >> shift) & 0xff) as u8;
    let masked_word = word & !(0xffu64 << shift);
    let updated_word = masked_word | ((val as u64) << shift);
    (updated_word, orig_byte)
}

} // verus!
