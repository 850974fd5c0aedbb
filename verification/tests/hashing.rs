use murmur3::streaming::{
    murmurhash3_x64_128_finalize, murmurhash3_x64_128_write, Murmur3State, DEFAULT_SEED,
};

fn murmurhash3_x64_128(bytes: &[u8], seed: u64) -> (u64, u64) {
    let mut state = Murmur3State::new(seed);
    murmurhash3_x64_128_write(&mut state, bytes);
    murmurhash3_x64_128_finalize(&state)
}

fn hash_chunked(chunks: &[&[u8]], seed: u64) -> (u64, u64) {
    let mut state = Murmur3State::new(seed);
    for chunk in chunks {
        murmurhash3_x64_128_write(&mut state, chunk);
    }
    murmurhash3_x64_128_finalize(&state)
}

const LOREM: &str = "Lorem ipsum dolor sit amet, consectetur adipiscing elit. Etiam at \
                     consequat massa. Cras eleifend pellentesque ex, at dignissim libero \
                     maximus ut. Sed eget nulla felis";

#[test]
fn test_empty_string() {
    assert!(murmurhash3_x64_128("".as_bytes(), 0) == (0, 0));
}

#[test]
fn test_tail_lengths() {
    assert!(murmurhash3_x64_128("1".as_bytes(), 0) ==
            (8213365047359667313, 10676604921780958775));
    assert!(murmurhash3_x64_128("12".as_bytes(), 0) ==
            (5355690773644049813, 9855895140584599837));
    assert!(murmurhash3_x64_128("123".as_bytes(), 0) ==
            (10978418110857903978, 4791445053355511657));
    assert!(murmurhash3_x64_128("1234".as_bytes(), 0) ==
            (619023178690193332, 3755592904005385637));
    assert!(murmurhash3_x64_128("12345".as_bytes(), 0) ==
            (2375712675693977547, 17382870096830835188));
    assert!(murmurhash3_x64_128("123456".as_bytes(), 0) ==
            (16435832985690558678, 5882968373513761278));
    assert!(murmurhash3_x64_128("1234567".as_bytes(), 0) ==
            (3232113351312417698, 4025181827808483669));
    assert!(murmurhash3_x64_128("12345678".as_bytes(), 0) ==
            (4272337174398058908, 10464973996478965079));
    assert!(murmurhash3_x64_128("123456789".as_bytes(), 0) ==
            (4360720697772133540, 11094893415607738629));
    assert!(murmurhash3_x64_128("123456789a".as_bytes(), 0) ==
            (12594836289594257748, 2662019112679848245));
    assert!(murmurhash3_x64_128("123456789ab".as_bytes(), 0) ==
            (6978636991469537545, 12243090730442643750));
    assert!(murmurhash3_x64_128("123456789abc".as_bytes(), 0) ==
            (211890993682310078, 16480638721813329343));
    assert!(murmurhash3_x64_128("123456789abcd".as_bytes(), 0) ==
            (12459781455342427559, 3193214493011213179));
    assert!(murmurhash3_x64_128("123456789abcde".as_bytes(), 0) ==
            (12538342858731408721, 9820739847336455216));
    assert!(murmurhash3_x64_128("123456789abcdef".as_bytes(), 0) ==
            (9165946068217512774, 2451472574052603025));
    assert!(murmurhash3_x64_128("123456789abcdef1".as_bytes(), 0) ==
            (9259082041050667785, 12459473952842597282));
}

#[test]
fn test_large_data() {
    assert!(murmurhash3_x64_128(LOREM.as_bytes(), 0) ==
            (9455322759164802692, 17863277201603478371));
}

#[test]
fn test_streaming_matches_one_shot() {
    let bytes = LOREM.as_bytes();
    let whole = murmurhash3_x64_128(bytes, 0);
    for chunk_size in [1, 2, 3, 7, 15, 16, 17, 31, 32, 100] {
        let chunks: Vec<&[u8]> = bytes.chunks(chunk_size).collect();
        assert_eq!(hash_chunked(&chunks, 0), whole);
    }
}

#[test]
fn test_streaming_uneven_chunks() {
    let bytes = LOREM.as_bytes();
    let whole = murmurhash3_x64_128(bytes, 42);
    let (a, rest) = bytes.split_at(5);
    let (b, c) = rest.split_at(27);
    assert_eq!(hash_chunked(&[a, b, c], 42), whole);
    let (d, e) = bytes.split_at(16);
    assert_eq!(hash_chunked(&[d, e], 42), whole);
}

#[test]
fn test_empty_chunks_do_not_matter() {
    let bytes = "123456789abcdef1".as_bytes();
    let whole = murmurhash3_x64_128(bytes, 0);
    assert_eq!(hash_chunked(&[b"", bytes, b"", b""], 0), whole);
    assert_eq!(hash_chunked(&[], 0), murmurhash3_x64_128(b"", 0));
}

#[test]
fn test_chunk_exactly_fills_buffer() {
    // A second chunk that exactly completes the buffered block must be
    // folded in right away, so that an immediate finalize sees it.
    let whole = murmurhash3_x64_128("123456789abcdef1".as_bytes(), 0);
    assert_eq!(whole, (9259082041050667785, 12459473952842597282));
    assert_eq!(hash_chunked(&[b"12345678", b"9abcdef1"], 0), whole);
    assert_eq!(hash_chunked(&[b"123456789abcdef", b"1"], 0), whole);
    assert_eq!(hash_chunked(&[b"1", b"23456789abcdef1"], 0), whole);
}

#[test]
fn test_determinism() {
    let bytes = LOREM.as_bytes();
    for seed in [0u64, 1, 0xdeadbeef, u64::MAX] {
        assert_eq!(
            murmurhash3_x64_128(bytes, seed),
            murmurhash3_x64_128(bytes, seed)
        );
    }
}

#[test]
fn test_seed_sensitivity() {
    let bytes = "1".as_bytes();
    let seeds = [0u64, 1, 2, 3, 0xffff, u64::MAX];
    for (i, &a) in seeds.iter().enumerate() {
        for &b in seeds.iter().skip(i + 1) {
            assert_ne!(murmurhash3_x64_128(bytes, a), murmurhash3_x64_128(bytes, b));
        }
    }
}

#[test]
fn test_reset_reuse() {
    let mut state = Murmur3State::new(99);
    murmurhash3_x64_128_write(&mut state, LOREM.as_bytes());
    let _ = murmurhash3_x64_128_finalize(&state);
    state.clear();
    murmurhash3_x64_128_write(&mut state, "123456789".as_bytes());
    let reused = murmurhash3_x64_128_finalize(&state);
    assert_eq!(reused, murmurhash3_x64_128("123456789".as_bytes(), 99));
}

#[test]
fn test_boundary_block_sizes() {
    // Exactly one block, one block plus one tail byte, and one block plus a
    // 15-byte tail, both written at once and split at the block boundary.
    let bytes = "123456789abcdef1z_123456789abcd".as_bytes();
    for len in [16, 17, 31] {
        let input = &bytes[..len];
        let whole = murmurhash3_x64_128(input, 7);
        let (head, tail) = input.split_at(16);
        assert_eq!(hash_chunked(&[head, tail], 7), whole);
        let ones: Vec<&[u8]> = input.chunks(1).collect();
        assert_eq!(hash_chunked(&ones, 7), whole);
    }
    assert!(murmurhash3_x64_128(&bytes[..16], 0) ==
            (9259082041050667785, 12459473952842597282));
}

#[test]
fn test_nonzero_seed_empty_input() {
    // With a non-zero seed even the empty input gives a non-trivial digest.
    assert_ne!(murmurhash3_x64_128(b"", 1), (0, 0));
    assert_eq!(murmurhash3_x64_128(b"", 1), murmurhash3_x64_128(b"", 1));
}

#[test]
fn test_write_method_and_finish() {
    let mut state = Murmur3State::new(0);
    state.write("123456789".as_bytes());
    let digest = murmurhash3_x64_128_finalize(&state);
    assert_eq!(digest, (4360720697772133540, 11094893415607738629));
    assert_eq!(state.finish(), digest.0);
}

#[test]
fn test_default_seed() {
    let state = Murmur3State::default();
    let fresh = Murmur3State::new(DEFAULT_SEED);
    assert_eq!(
        murmurhash3_x64_128_finalize(&state),
        murmurhash3_x64_128_finalize(&fresh)
    );
}
