//! Mathematical model of MurmurHash3 x64-128.
//!
//! The digest of a byte sequence is defined here as a pure function of the
//! seed and the bytes: full 16-byte blocks are folded into a 128-bit
//! accumulator in order, the trailing 0 to 15 bytes are folded by a
//! length-indexed ladder, and a final avalanche mix produces the digest.
//! The executable code in `streaming` is verified against these definitions.

use vstd::prelude::*;

verus! {

/// First multiplicative constant of the block mixer.
pub const C1: u64 = 0x87c37b91114253d5;

/// Second multiplicative constant of the block mixer.
pub const C2: u64 = 0x4cf5ad432745937f;

/// The 64-bit word starting at byte offset `off` of `s`, read little-endian.
#[verifier::opaque]
pub open spec fn le_word(s: Seq<u8>, off: int) -> u64 {
    (s[off] as u64) | ((s[off + 1] as u64) << 8) | ((s[off + 2] as u64) << 16) | ((s[off + 3]
        as u64) << 24) | ((s[off + 4] as u64) << 32) | ((s[off + 5] as u64) << 40) | ((s[off + 6]
        as u64) << 48) | ((s[off + 7] as u64) << 56)
}

/// Left rotation of a 64-bit word by `n` bits, for `0 < n < 64`.
pub open spec fn rotl64(x: u64, n: u64) -> u64 {
    (x << n) | (x >> (64 - n) as u64)
}

/// The multiply/rotate/multiply step applied to the first word of a block.
pub open spec fn mix_k1(k1: u64) -> u64 {
    rotl64(k1.wrapping_mul(C1), 31).wrapping_mul(C2)
}

/// The multiply/rotate/multiply step applied to the second word of a block.
pub open spec fn mix_k2(k2: u64) -> u64 {
    rotl64(k2.wrapping_mul(C2), 33).wrapping_mul(C1)
}

/// One step of the block mixer: folds the two little-endian words `k1`, `k2`
/// of a 16-byte block into the accumulator `h`.
#[verifier::opaque]
pub open spec fn block_mix(h: (u64, u64), k1: u64, k2: u64) -> (u64, u64) {
    let h1 = h.0 ^ mix_k1(k1);
    let h1 = rotl64(h1, 27);
    let h1 = h1.wrapping_add(h.1);
    let h1 = h1.wrapping_mul(5).wrapping_add(0x52dce729);
    let h2 = h.1 ^ mix_k2(k2);
    let h2 = rotl64(h2, 31);
    let h2 = h2.wrapping_add(h1);
    let h2 = h2.wrapping_mul(5).wrapping_add(0x38495ab5);
    (h1, h2)
}

/// Folds every complete 16-byte block of `s` into `h`, in input order.
/// Trailing bytes that do not fill a block are ignored.
#[verifier::opaque]
pub open spec fn mix_blocks(h: (u64, u64), s: Seq<u8>) -> (u64, u64)
    decreases s.len(),
{
    if s.len() < 16 {
        h
    } else {
        mix_blocks(block_mix(h, le_word(s, 0), le_word(s, 8)), s.skip(16))
    }
}

/// The 64-bit avalanche mix applied to each accumulator half at the end.
pub open spec fn spec_fmix64(k: u64) -> u64 {
    let k = k ^ (k >> 33);
    let k = k.wrapping_mul(0xff51afd7ed558ccd);
    let k = k ^ (k >> 33);
    let k = k.wrapping_mul(0xc4ceb9fe1a85ec53);
    k ^ (k >> 33)
}

/// The first tail word: bytes 0 to 7 of the trailing partial block `t`,
/// each XOR-ed into position, gated on the tail length.
pub open spec fn tail_k1(t: Seq<u8>) -> u64 {
    let k1: u64 = 0;
    let k1 = if t.len() >= 8 { k1 ^ ((t[7] as u64) << 56) } else { k1 };
    let k1 = if t.len() >= 7 { k1 ^ ((t[6] as u64) << 48) } else { k1 };
    let k1 = if t.len() >= 6 { k1 ^ ((t[5] as u64) << 40) } else { k1 };
    let k1 = if t.len() >= 5 { k1 ^ ((t[4] as u64) << 32) } else { k1 };
    let k1 = if t.len() >= 4 { k1 ^ ((t[3] as u64) << 24) } else { k1 };
    let k1 = if t.len() >= 3 { k1 ^ ((t[2] as u64) << 16) } else { k1 };
    let k1 = if t.len() >= 2 { k1 ^ ((t[1] as u64) << 8) } else { k1 };
    if t.len() >= 1 { k1 ^ (t[0] as u64) } else { k1 }
}

/// The second tail word: bytes 8 to 14 of the trailing partial block `t`,
/// each XOR-ed into position, gated on the tail length.
pub open spec fn tail_k2(t: Seq<u8>) -> u64 {
    let k2: u64 = 0;
    let k2 = if t.len() >= 15 { k2 ^ ((t[14] as u64) << 48) } else { k2 };
    let k2 = if t.len() >= 14 { k2 ^ ((t[13] as u64) << 40) } else { k2 };
    let k2 = if t.len() >= 13 { k2 ^ ((t[12] as u64) << 32) } else { k2 };
    let k2 = if t.len() >= 12 { k2 ^ ((t[11] as u64) << 24) } else { k2 };
    let k2 = if t.len() >= 11 { k2 ^ ((t[10] as u64) << 16) } else { k2 };
    let k2 = if t.len() >= 10 { k2 ^ ((t[9] as u64) << 8) } else { k2 };
    if t.len() >= 9 { k2 ^ (t[8] as u64) } else { k2 }
}

/// Folds the trailing partial block `t` (0 to 15 bytes) into the
/// accumulator `h`: the second tail word is mixed into the second half when
/// the tail reaches past 8 bytes, and the first tail word into the first
/// half when the tail is non-empty.
pub open spec fn tail_mix(h: (u64, u64), t: Seq<u8>) -> (u64, u64) {
    let h2 = if t.len() >= 9 { h.1 ^ mix_k2(tail_k2(t)) } else { h.1 };
    let h1 = if t.len() >= 1 { h.0 ^ mix_k1(tail_k1(t)) } else { h.0 };
    (h1, h2)
}

/// The closing steps of the hash: folds the total input length `total` into
/// both halves, cross-adds them, avalanches each half, and cross-adds again.
pub open spec fn finish_mix(h: (u64, u64), total: u64) -> (u64, u64) {
    let h1 = h.0 ^ total;
    let h2 = h.1 ^ total;
    let h1 = h1.wrapping_add(h2);
    let h2 = h2.wrapping_add(h1);
    let h1 = spec_fmix64(h1);
    let h2 = spec_fmix64(h2);
    let h1 = h1.wrapping_add(h2);
    let h2 = h2.wrapping_add(h1);
    (h1, h2)
}

/// The MurmurHash3 x64-128 digest of `s` under `seed`: every complete
/// 16-byte block is folded into the accumulator `(seed, seed)` in order,
/// then the trailing partial block and the total length are folded in, and
/// the avalanche closes the hash.  Meaningful for `s.len() <= u64::MAX`.
pub open spec fn spec_digest(seed: u64, s: Seq<u8>) -> (u64, u64) {
    let blocks = (s.len() - (s.len() % 16)) as int;
    finish_mix(tail_mix(mix_blocks((seed, seed), s.take(blocks)), s.skip(blocks)), s.len() as u64)
}

/// A word read inside a window of `s` equals the word read at the shifted
/// offset of `s` itself.
pub proof fn lemma_le_word_offset(t: Seq<u8>, s: Seq<u8>, lo: int, off: int)
    requires
        0 <= lo,
        0 <= off,
        lo + off + 8 <= s.len(),
        off + 8 <= t.len(),
        forall|j: int| 0 <= j < t.len() ==> t[j] == s[lo + j],
    ensures
        le_word(t, off) == le_word(s, lo + off),
{
    reveal(le_word);
    assert(t[off] == s[lo + off]);
    assert(t[off + 1] == s[lo + off + 1]);
    assert(t[off + 2] == s[lo + off + 2]);
    assert(t[off + 3] == s[lo + off + 3]);
    assert(t[off + 4] == s[lo + off + 4]);
    assert(t[off + 5] == s[lo + off + 5]);
    assert(t[off + 6] == s[lo + off + 6]);
    assert(t[off + 7] == s[lo + off + 7]);
}

/// A sequence shorter than one block has no complete block to fold: the
/// accumulator is unchanged.
pub proof fn lemma_mix_blocks_small(h: (u64, u64), s: Seq<u8>)
    requires
        s.len() < 16,
    ensures
        mix_blocks(h, s) == h,
{
    reveal(mix_blocks);
}

/// Streaming law for block absorption: folding the blocks of a
/// block-aligned prefix `s1` and then the blocks of `s2` reaches the same
/// accumulator as folding the blocks of the concatenation at once.  This is
/// what lets the state absorb input chunk by chunk.
pub proof fn lemma_mix_blocks_append(h: (u64, u64), s1: Seq<u8>, s2: Seq<u8>)
    requires
        s1.len() % 16 == 0,
    ensures
        mix_blocks(h, s1 + s2) == mix_blocks(mix_blocks(h, s1), s2),
    decreases s1.len(),
{
    reveal(mix_blocks);
    if s1.len() == 0 {
        assert(s1 + s2 =~= s2);
    } else {
        assert(s1.len() >= 16) by {
            if s1.len() < 16 {
                vstd::arithmetic::div_mod::lemma_small_mod(s1.len(), 16);
            }
        }
        let rest = s1.skip(16);
        assert((s1 + s2).skip(16) =~= rest + s2);
        assert(forall|j: int| 0 <= j < s1.len() ==> (s1 + s2)[j] == s1[j]);
        lemma_le_word_offset(s1, s1 + s2, 0, 0);
        lemma_le_word_offset(s1, s1 + s2, 0, 8);
        assert(rest.len() % 16 == 0) by {
            vstd::arithmetic::div_mod::lemma_mod_sub_multiples_vanish(s1.len() as int, 16);
        }
        let h1 = block_mix(h, le_word(s1, 0), le_word(s1, 8));
        lemma_mix_blocks_append(h1, rest, s2);
    }
}

/// Absorbing one more 16-byte block: extending the folded prefix of `s`
/// from `c` to `c + 16` bytes applies one block-mix step with the two words
/// read at offsets `c` and `c + 8`.
pub proof fn lemma_mix_blocks_extend(h: (u64, u64), s: Seq<u8>, c: int)
    requires
        0 <= c,
        c % 16 == 0,
        c + 16 <= s.len(),
    ensures
        mix_blocks(h, s.take(c + 16)) == block_mix(
            mix_blocks(h, s.take(c)),
            le_word(s, c),
            le_word(s, c + 8),
        ),
{
    reveal(mix_blocks);
    let b = s.subrange(c, c + 16);
    assert(s.take(c + 16) =~= s.take(c) + b);
    lemma_mix_blocks_append(h, s.take(c), b);
    let hc = mix_blocks(h, s.take(c));
    let hb = block_mix(hc, le_word(b, 0), le_word(b, 8));
    assert(mix_blocks(hc, b) == mix_blocks(hb, b.skip(16)));
    assert(b.skip(16).len() == 0);
    assert(mix_blocks(hb, b.skip(16)) == hb);
    lemma_le_word_offset(b, s, c, 0);
    lemma_le_word_offset(b, s, c, 8);
}

} // verus!
