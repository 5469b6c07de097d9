//! Little-endian field access and the block checksum.
//!
//! Every on-disk integer is little-endian.  Each metadata block carries a
//! 32-bit checksum over the rest of the block, offset by a salt constant
//! that distinguishes the block's role (superblock, tree node, bitmap).

use vstd::prelude::*;

verus! {

/// Size in bytes of every metadata block.
pub const BLOCK_SIZE: usize = 4096;

/// Little-endian 32-bit value stored at `off`.
pub open spec fn spec_le_u32(b: Seq<u8>, off: int) -> int {
    b[off] as int
        + 0x100 * (b[off + 1] as int)
        + 0x1_0000 * (b[off + 2] as int)
        + 0x100_0000 * (b[off + 3] as int)
}

/// Little-endian 64-bit value stored at `off`.
pub open spec fn spec_le_u64(b: Seq<u8>, off: int) -> int {
    spec_le_u32(b, off) + 0x1_0000_0000 * spec_le_u32(b, off + 4)
}

/// Reads the little-endian 32-bit field at `off`.
pub fn read_le_u32(b: &Vec<u8>, off: usize) -> (r: u32)
    requires
        off + 4 <= b@.len(),
    ensures
        r as int == spec_le_u32(b@, off as int),
{
    // Reading the length tells the verifier the offsets fit in usize.
    let _n = b.len();
    let b0 = b[off] as u32;
    let b1 = b[off + 1] as u32;
    let b2 = b[off + 2] as u32;
    let b3 = b[off + 3] as u32;
    b0 + 0x100 * b1 + 0x1_0000 * b2 + 0x100_0000 * b3
}

/// Reads the little-endian 64-bit field at `off`.
pub fn read_le_u64(b: &Vec<u8>, off: usize) -> (r: u64)
    requires
        off + 8 <= b@.len(),
    ensures
        r as int == spec_le_u64(b@, off as int),
{
    // Reading the length tells the verifier the offsets fit in usize.
    let _n = b.len();
    let lo = read_le_u32(b, off) as u64;
    let hi = read_le_u32(b, off + 4) as u64;
    lo + 0x1_0000_0000 * hi
}

/// Sum of the byte values of `b`.
pub open spec fn spec_byte_sum(b: Seq<u8>) -> int
    decreases b.len(),
{
    if b.len() == 0 {
        0
    } else {
        spec_byte_sum(b.drop_last()) + b.last()
    }
}

proof fn lemma_byte_sum_step(b: Seq<u8>, lo: int, i: int)
    requires
        0 <= lo <= i < b.len(),
    ensures
        spec_byte_sum(b.subrange(lo, i + 1)) == spec_byte_sum(b.subrange(lo, i)) + b[i],
{
    let s = b.subrange(lo, i + 1);
    assert(s.drop_last() =~= b.subrange(lo, i));
}

/// Checksum of a block: the byte sum of everything after the stored
/// checksum field, plus a salt identifying the block's role, reduced
/// to 32 bits.  A block is at most `BLOCK_SIZE` bytes, so the sum of
/// its bytes plus any salt used here stays below `u32::MAX`.
pub open spec fn spec_checksum(b: Seq<u8>, salt: u32) -> int {
    spec_byte_sum(b.subrange(4, b.len() as int)) + salt
}

/// Computes the checksum of the block `b` with the given salt: the sum
/// of bytes 4 onward plus the salt.
pub fn block_checksum(b: &Vec<u8>, salt: u32) -> (r: u32)
    requires
        4 <= b@.len() <= BLOCK_SIZE,
        salt <= 0xF000_0000,
    ensures
        r as int == spec_checksum(b@, salt),
{
    let n = b.len();
    let mut sum: u32 = 0;
    let mut i: usize = 4;
    proof {
        assert(b@.subrange(4, 4) =~= Seq::<u8>::empty());
    }
    while i < n
        invariant
            4 <= i <= n,
            n == b@.len() <= BLOCK_SIZE,
            sum as int == spec_byte_sum(b@.subrange(4, i as int)),
            sum <= 255 * (i - 4),
        decreases n - i,
    {
        proof {
            lemma_byte_sum_step(b@, 4, i as int);
        }
        sum = sum + b[i] as u32;
        i = i + 1;
    }
    proof {
        assert(b@.subrange(4, n as int) =~= b@.subrange(4, b@.len() as int));
    }
    sum + salt
}

} // verus!
