//! The incremental MurmurHash3 x64-128 hashing state.
//!
//! `Murmur3State` buffers input bytes until a full 16-byte block is
//! available, folds complete blocks into the running accumulator as they
//! arrive, and finalizes the digest from whatever trailing bytes remain.
//! Its abstract value (the view) is the sequence of all bytes written since
//! construction or the last reset; `murmurhash3_x64_128_finalize` is proved
//! to return exactly `spec_digest` of the seed and that sequence, so any way
//! of chunking the input yields the digest of the concatenation.

use vstd::prelude::*;

use crate::model::{
    block_mix, finish_mix, le_word, lemma_le_word_offset, lemma_mix_blocks_extend,
    lemma_mix_blocks_small, mix_blocks, rotl64, spec_digest, spec_fmix64, tail_k1, tail_k2,
    tail_mix, C1, C2,
};

verus! {

/// Block size of the algorithm in bytes: two 64-bit words.
const READ_SIZE: usize = 16;

/// Streaming hashing state: the running 128-bit accumulator, the count of
/// bytes already folded in as full blocks, the buffered partial block, and
/// the seed the session started from.
pub struct Murmur3State {
    words: (u64, u64),
    consumed: u64,
    xblock: Vec<u8>,
    seed: u64,
    written: Ghost<Seq<u8>>,
}

impl View for Murmur3State {
    type V = Seq<u8>;

    /// The abstract value of the state: every byte written since
    /// construction or the last reset, in order.
    closed spec fn view(&self) -> Seq<u8> {
        self.written@
    }
}

impl Murmur3State {
    /// The seed this session was constructed with.
    pub closed spec fn seed(&self) -> u64 {
        self.seed
    }

    /// Structural invariant: the buffered partial block holds the written
    /// bytes past the last full block, and the accumulator is the block mix
    /// of everything before them.
    pub closed spec fn wf(&self) -> bool {
        &&& self.xblock@.len() < 16
        &&& self.consumed % 16 == 0
        &&& self.consumed + self.xblock@.len() == self.written@.len()
        &&& self.written@.len() <= u64::MAX
        &&& self.xblock@ == self.written@.skip(self.consumed as int)
        &&& self.words == mix_blocks(
            (self.seed, self.seed),
            self.written@.take(self.consumed as int),
        )
    }

    /// Construct a fresh hashing session for `seed`.
    pub fn new(seed: u64) -> (r: Self)
        ensures
            r.wf(),
            r@ == Seq::<u8>::empty(),
            r.seed() == seed,
    {
        let r = Murmur3State {
            words: (seed, seed),
            consumed: 0,
            xblock: Vec::with_capacity(READ_SIZE),
            seed: seed,
            written: Ghost(Seq::empty()),
        };
        proof {
            assert(r.written@.take(0) =~= Seq::<u8>::empty());
            assert(r.written@.skip(0) =~= Seq::<u8>::empty());
            lemma_mix_blocks_small((seed, seed), Seq::<u8>::empty());
        }
        r
    }

    /// Reset the session to its freshly-constructed state for the stored
    /// seed, discarding all buffered and consumed progress.  A cleared state
    /// satisfies exactly the contract of `new` with that seed, and every
    /// later operation depends only on the seed and the written bytes, so
    /// reuse after `clear` behaves as a fresh state would.
    pub fn clear(&mut self)
        ensures
            final(self).wf(),
            final(self)@ == Seq::<u8>::empty(),
            final(self).seed() == old(self).seed(),
    {
        self.words = (self.seed, self.seed);
        self.consumed = 0;
        self.xblock.clear();
        self.written = Ghost(Seq::empty());
        proof {
            assert(self.written@.take(0) =~= Seq::<u8>::empty());
            assert(self.written@.skip(0) =~= Seq::<u8>::empty());
            lemma_mix_blocks_small((self.seed, self.seed), Seq::<u8>::empty());
        }
    }

    /// Feed `bytes` to this state; method form of
    /// `murmurhash3_x64_128_write`.
    pub fn write(&mut self, bytes: &[u8])
        requires
            old(self).wf(),
            old(self)@.len() + bytes@.len() <= u64::MAX,
        ensures
            final(self).wf(),
            final(self)@ == old(self)@ + bytes@,
            final(self).seed() == old(self).seed(),
    {
        murmurhash3_x64_128_write(self, bytes)
    }

    /// The digest truncated to its first 64-bit half, for integration with
    /// 64-bit-only hashing interfaces.
    pub fn finish(&self) -> (r: u64)
        requires
            self.wf(),
        ensures
            r == spec_digest(self.seed(), self@).0,
    {
        murmurhash3_x64_128_finalize(self).0
    }
}

/// Seed of a state obtained through `Default`.
pub const DEFAULT_SEED: u64 = 0x85ebca6bc2b2ae35;

impl Default for Murmur3State {
    /// A fresh session with the fixed default seed.
    fn default() -> (r: Self)
        ensures
            r.wf(),
            r@ == Seq::<u8>::empty(),
            r.seed() == DEFAULT_SEED,
    {
        Murmur3State::new(DEFAULT_SEED)
    }
}

/// Appends the bytes of `src` at indices `from..to` to `dst`.
fn push_range(dst: &mut Vec<u8>, src: &[u8], from: usize, to: usize)
    requires
        from <= to <= src@.len(),
    ensures
        final(dst)@ == old(dst)@ + src@.subrange(from as int, to as int),
{
    let mut i: usize = from;
    while i < to
        invariant
            from <= i <= to <= src@.len(),
            dst@ == old(dst)@ + src@.subrange(from as int, i as int),
        decreases to - i,
    {
        dst.push(src[i]);
        proof {
            assert(src@.subrange(from as int, i + 1) =~= src@.subrange(from as int, i as int)
                + seq![src@[i as int]]);
        }
        i = i + 1;
    }
    proof {
        assert(dst@ =~= old(dst)@ + src@.subrange(from as int, to as int));
    }
}

/// Feed `bytes` to the state.  Chunks of any size are accepted; the state
/// buffers whatever does not yet complete a 16-byte block, so writing the
/// chunks of any partition of an input leaves the state exactly as one
/// write of the whole input would.
#[verifier::rlimit(100)]
pub fn murmurhash3_x64_128_write(state: &mut Murmur3State, bytes: &[u8])
    requires
        old(state).wf(),
        old(state)@.len() + bytes@.len() <= u64::MAX,
    ensures
        final(state).wf(),
        final(state)@ == old(state)@ + bytes@,
        final(state).seed() == old(state).seed(),
{
    proof {
        vstd::slice::axiom_spec_len(bytes);
    }
    let ghost all: Seq<u8> = state.written@ + bytes@;
    state.written = Ghost(all);
    proof {
        assert(all.take(state.consumed as int) =~= old(state)@.take(state.consumed as int));
    }
    let mut start: usize = 0;

    // If an earlier write left a partial block behind, fill it first.
    if state.xblock.len() != 0 {
        let missing: usize = READ_SIZE - state.xblock.len();
        if bytes.len() < missing {
            // Still not a full block: buffer the whole chunk.
            push_range(&mut state.xblock, bytes, 0, bytes.len());
            proof {
                assert(state.xblock@ =~= all.skip(state.consumed as int));
            }
            return;
        }
        // Complete the buffered block, fold it in, and drop the buffer.
        push_range(&mut state.xblock, bytes, 0, missing);
        proof {
            assert(state.xblock@.len() == 16);
            assert forall|j: int| 0 <= j < 16 implies state.xblock@[j] == all[
                state.consumed + j
            ] by {
                if j < 16 - missing {
                    assert(state.xblock@[j] == old(state)@[state.consumed + j]);
                }
            }
            lemma_mix_blocks_extend((state.seed, state.seed), all, state.consumed as int);
            lemma_le_word_offset(state.xblock@, all, state.consumed as int, 0);
            lemma_le_word_offset(state.xblock@, all, state.consumed as int, 8);
        }
        let w: (u64, u64) = murmurhash3_x64_128_mix(state.words, state.xblock.as_slice(), 0);
        state.words = w;
        state.xblock.clear();
        state.consumed = state.consumed + 16;
        start = missing;
        proof {
            vstd::arithmetic::div_mod::lemma_mod_add_multiples_vanish(
                state.consumed - 16,
                16,
            );
        }
    }

    // The buffer is now empty: fold every complete block of the rest of the
    // chunk, in input order.
    let rest: &[u8] = vstd::slice::slice_subrange(bytes, start, bytes.len());
    let ghost base: int = state.consumed as int;
    proof {
        assert(rest@ =~= all.skip(base));
    }
    let block_count: usize = rest.len() / READ_SIZE;
    let mut i: usize = 0;
    while i < block_count
        invariant
            i <= block_count,
            block_count == rest@.len() as int / 16,
            state.written@ == all,
            state.seed == old(state).seed(),
            state.xblock@.len() == 0,
            0 <= base,
            base % 16 == 0,
            state.consumed == base + 16 * i,
            base + rest@.len() == all.len() <= u64::MAX,
            rest@ == all.skip(base),
            state.words == mix_blocks((state.seed, state.seed), all.take(state.consumed as int)),
        decreases block_count - i,
    {
        proof {
            vstd::slice::axiom_spec_len(rest);
            assert(16 * block_count <= rest@.len());
            lemma_mix_blocks_extend((state.seed, state.seed), all, state.consumed as int);
            assert forall|j: int| 0 <= j < rest@.len() implies rest@[j] == all[base + j] by {}
            lemma_le_word_offset(rest@, all, base, 16 * i);
            lemma_le_word_offset(rest@, all, base, 16 * i + 8);
        }
        let w: (u64, u64) = murmurhash3_x64_128_mix(state.words, rest, i);
        state.words = w;
        state.consumed = state.consumed + 16;
        proof {
            vstd::arithmetic::div_mod::lemma_mod_add_multiples_vanish(state.consumed - 16, 16);
            assert(state.consumed % 16 == 0);
        }
        i = i + 1;
    }

    // Whatever is left (0 to 15 bytes) becomes the new partial block.
    proof {
        vstd::slice::axiom_spec_len(rest);
        assert(16 * block_count <= rest@.len());
        assert(rest@.len() - 16 * block_count < 16);
    }
    push_range(&mut state.xblock, rest, block_count * READ_SIZE, rest.len());
    proof {
        assert(state.xblock@ =~= all.skip(state.consumed as int));
    }
}

/// Produce the 128-bit digest of everything written so far, as the pair
/// `(h1, h2)`: the trailing partial block and the total input length are
/// folded into the accumulator and the avalanche closes the hash.  The
/// result is pinned to `spec_digest` of the seed and the written bytes, a
/// pure function: equal seeds and equal inputs give equal digests, however
/// the input was chunked.  The state itself is not mutated; to reuse it for
/// a new, independent input, call `clear` first.
pub fn murmurhash3_x64_128_finalize(state: &Murmur3State) -> (r: (u64, u64))
    requires
        state.wf(),
    ensures
        r == spec_digest(state.seed(), state@),
{
    let len: usize = state.xblock.len();
    let ghost t: Seq<u8> = state.xblock@;
    let total: u64 = state.consumed + (len as u64);
    let mut h1: u64 = state.words.0;
    let mut h2: u64 = state.words.1;
    let mut k1: u64 = 0;
    let mut k2: u64 = 0;

    if len == 15 {
        k2 = k2 ^ ((state.xblock[14] as u64) << 48);
    }
    if len >= 14 {
        k2 = k2 ^ ((state.xblock[13] as u64) << 40);
    }
    if len >= 13 {
        k2 = k2 ^ ((state.xblock[12] as u64) << 32);
    }
    if len >= 12 {
        k2 = k2 ^ ((state.xblock[11] as u64) << 24);
    }
    if len >= 11 {
        k2 = k2 ^ ((state.xblock[10] as u64) << 16);
    }
    if len >= 10 {
        k2 = k2 ^ ((state.xblock[9] as u64) << 8);
    }
    if len >= 9 {
        k2 = k2 ^ (state.xblock[8] as u64);
    }
    proof {
        assert(k2 == tail_k2(t));
    }
    if len >= 9 {
        k2 = k2.wrapping_mul(C2);
        k2 = rotl(k2, 33);
        k2 = k2.wrapping_mul(C1);
        h2 = h2 ^ k2;
    }

    if len >= 8 {
        k1 = k1 ^ ((state.xblock[7] as u64) << 56);
    }
    if len >= 7 {
        k1 = k1 ^ ((state.xblock[6] as u64) << 48);
    }
    if len >= 6 {
        k1 = k1 ^ ((state.xblock[5] as u64) << 40);
    }
    if len >= 5 {
        k1 = k1 ^ ((state.xblock[4] as u64) << 32);
    }
    if len >= 4 {
        k1 = k1 ^ ((state.xblock[3] as u64) << 24);
    }
    if len >= 3 {
        k1 = k1 ^ ((state.xblock[2] as u64) << 16);
    }
    if len >= 2 {
        k1 = k1 ^ ((state.xblock[1] as u64) << 8);
    }
    if len >= 1 {
        k1 = k1 ^ (state.xblock[0] as u64);
    }
    proof {
        assert(k1 == tail_k1(t));
    }
    if len >= 1 {
        k1 = k1.wrapping_mul(C1);
        k1 = rotl(k1, 31);
        k1 = k1.wrapping_mul(C2);
        h1 = h1 ^ k1;
    }
    proof {
        assert((h1, h2) == tail_mix(state.words, t));
    }

    h1 = h1 ^ total;
    h2 = h2 ^ total;
    h1 = h1.wrapping_add(h2);
    h2 = h2.wrapping_add(h1);
    h1 = fmix64(h1);
    h2 = fmix64(h2);
    h1 = h1.wrapping_add(h2);
    h2 = h2.wrapping_add(h1);

    proof {
        assert((h1, h2) == finish_mix(tail_mix(state.words, t), total));
        let s = state@;
        vstd::arithmetic::div_mod::lemma_fundamental_div_mod(state.consumed as int, 16);
        vstd::arithmetic::div_mod::lemma_mod_multiples_vanish(
            state.consumed as int / 16,
            t.len() as int,
            16,
        );
        vstd::arithmetic::div_mod::lemma_small_mod(t.len(), 16);
        assert(s.len() % 16 == t.len());
        assert((s.len() - (s.len() % 16)) as int == state.consumed as int);
        assert(total == s.len() as u64);
        assert((h1, h2) == spec_digest(state.seed(), s));
    }
    (h1, h2)
}

/// Left rotation of a 64-bit word by `n` bits.
fn rotl(x: u64, n: u64) -> (r: u64)
    requires
        0 < n < 64,
    ensures
        r == rotl64(x, n),
{
    (x << n) | (x >> (64 - n))
}

/// The 64-bit avalanche mix applied to each accumulator half at the end of
/// hashing.
pub fn fmix64(k: u64) -> (r: u64)
    ensures
        r == spec_fmix64(k),
{
    let mut k: u64 = k;
    k = k ^ (k >> 33);
    k = k.wrapping_mul(0xff51afd7ed558ccd);
    k = k ^ (k >> 33);
    k = k.wrapping_mul(0xc4ceb9fe1a85ec53);
    k = k ^ (k >> 33);
    k
}

/// The 64-bit word starting at byte offset `off` of `bytes`, decoded
/// little-endian by shift-and-OR, independent of the host byte order.
fn load_le_u64(bytes: &[u8], off: usize) -> (r: u64)
    requires
        off + 8 <= bytes@.len(),
    ensures
        r == le_word(bytes@, off as int),
{
    proof {
        vstd::slice::axiom_spec_len(bytes);
        reveal(le_word);
    }
    (bytes[off] as u64) | ((bytes[off + 1] as u64) << 8) | ((bytes[off + 2] as u64) << 16) | ((
    bytes[off + 3] as u64) << 24) | ((bytes[off + 4] as u64) << 32) | ((bytes[off + 5] as u64)
        << 40) | ((bytes[off + 6] as u64) << 48) | ((bytes[off + 7] as u64) << 56)
}

/// The two little-endian 64-bit words of the 16-byte block starting at word
/// index `index` (byte offset `8 * index`) of `bytes`.
fn get_128_block(bytes: &[u8], index: usize) -> (r: (u64, u64))
    requires
        8 * index + 16 <= bytes@.len(),
    ensures
        r.0 == le_word(bytes@, 8 * index),
        r.1 == le_word(bytes@, 8 * index + 8),
{
    proof {
        vstd::slice::axiom_spec_len(bytes);
    }
    (load_le_u64(bytes, 8 * index), load_le_u64(bytes, 8 * index + 8))
}

/// Folds the 16-byte block starting at byte offset `16 * offset` of `bytes`
/// into the accumulator `words` and returns the updated accumulator.
pub fn murmurhash3_x64_128_mix(words: (u64, u64), bytes: &[u8], offset: usize) -> (r: (u64, u64))
    requires
        16 * offset + 16 <= bytes@.len(),
    ensures
        r == block_mix(words, le_word(bytes@, 16 * offset), le_word(bytes@, 16 * offset + 8)),
{
    proof {
        vstd::slice::axiom_spec_len(bytes);
        reveal(block_mix);
    }
    let mut h1: u64 = words.0;
    let mut h2: u64 = words.1;
    let block: (u64, u64) = get_128_block(bytes, offset * 2);
    let mut k1: u64 = block.0;
    let mut k2: u64 = block.1;

    k1 = k1.wrapping_mul(C1);
    k1 = rotl(k1, 31);
    k1 = k1.wrapping_mul(C2);
    h1 = h1 ^ k1;

    h1 = rotl(h1, 27);
    h1 = h1.wrapping_add(h2);
    h1 = h1.wrapping_mul(5);
    h1 = h1.wrapping_add(0x52dce729);

    k2 = k2.wrapping_mul(C2);
    k2 = rotl(k2, 33);
    k2 = k2.wrapping_mul(C1);
    h2 = h2 ^ k2;

    h2 = rotl(h2, 31);
    h2 = h2.wrapping_add(h1);
    h2 = h2.wrapping_mul(5);
    h2 = h2.wrapping_add(0x38495ab5);

    (h1, h2)
}

} // verus!
