use redis_minhash::hash::murmur3_x64_128;

#[test]
fn test_hash() {
    let element = "Lorem ipsum dolor sit amet, consectetur adipisicing elit".as_bytes();
    let result = murmur3_x64_128(element, 104729);

    assert_eq!(result, 0x6769dae0_ba0f9ccf_7e4bd221_908cfc07);
}

#[test]
fn hash_is_deterministic() {
    let a = murmur3_x64_128(b"some element", 7);
    let b = murmur3_x64_128(b"some element", 7);
    assert_eq!(a, b);
    assert_ne!(a, murmur3_x64_128(b"some element", 8));
    assert_ne!(a, murmur3_x64_128(b"some elemenu", 7));
}

#[test]
fn hash_of_every_tail_length() {
    // every length from empty through two full blocks and a tail
    let data: Vec<u8> = (0u8..40).collect();
    let mut seen = Vec::new();
    for n in 0..=40 {
        let h = murmur3_x64_128(&data[..n], 0);
        assert!(!seen.contains(&h));
        seen.push(h);
    }
}

#[test]
fn hash_of_empty_input() {
    assert_eq!(murmur3_x64_128(b"", 0), 0);
    assert_ne!(murmur3_x64_128(b"", 1), 0);
}
