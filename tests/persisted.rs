use redis_minhash::dense::{DenseVector, DENSE_BYTES};
use redis_minhash::registers::{new_array_registers, RegisterVector};
use redis_minhash::repr::{HyperMinHashRepr, Registers};
use redis_minhash::sketch::HyperMinHash;

fn fresh_buffer() -> Vec<u8> {
    let mut bytes = vec![0u8; HyperMinHashRepr::dense_len()];
    HyperMinHashRepr::initialize(&mut bytes);
    bytes
}

#[test]
fn dense_length_and_magic() {
    assert_eq!(HyperMinHashRepr::dense_len(), 16 + 2 * 16384);
    let bytes = fresh_buffer();
    assert_eq!(&bytes[0..4], b"HYMH");
    assert!(bytes[4..].iter().all(|b| *b == 0));
}

#[test]
fn parse_accepts_initialized_buffer() {
    let repr = HyperMinHashRepr::parse(fresh_buffer()).expect("parses");
    assert!(repr.cache_valid());
    assert_eq!(repr.get_cache(), 0);
}

#[test]
fn parse_rejects_malformed_buffers() {
    let mut bad_magic = fresh_buffer();
    bad_magic[1] = b'X';
    assert!(HyperMinHashRepr::parse(bad_magic).is_none());

    let mut too_long = fresh_buffer();
    too_long.push(0);
    assert!(HyperMinHashRepr::parse(too_long).is_none());

    let mut too_short = fresh_buffer();
    too_short.pop();
    assert!(HyperMinHashRepr::parse(too_short).is_none());

    assert!(HyperMinHashRepr::parse(b"HYMH".to_vec()).is_none());
    assert!(HyperMinHashRepr::parse(Vec::new()).is_none());

    let mut unknown_encoding = fresh_buffer();
    unknown_encoding[4] = 1;
    assert!(HyperMinHashRepr::parse(unknown_encoding).is_none());
}

#[test]
fn dense_registers_are_little_endian() {
    let mut d = DenseVector::wrap(vec![0u8; DENSE_BYTES]);
    d.set_register(1, 0x1234);
    assert_eq!(d.register_at(1), 0x1234);
    d.set_register(2, 0x1_abcd);
    assert_eq!(d.register_at(2), 0xabcd);
    assert_eq!(d.num_registers(), 16384);
    let bytes = d.into_bytes();
    assert_eq!(&bytes[0..6], &[0, 0, 0x34, 0x12, 0xcd, 0xab]);
}

#[test]
fn round_trip_reproduces_bytes() {
    let mut bytes = fresh_buffer();
    bytes[5] = 7;
    bytes[40] = 0x21;
    bytes[41] = 0x04;
    let before = bytes.clone();
    let mut repr = HyperMinHashRepr::parse(bytes).unwrap();
    let regs = repr.registers();
    repr.set_registers(&regs);
    assert_eq!(repr.into_bytes(), before);
}

#[test]
fn add_through_buffer_and_read_back() {
    let mut repr = HyperMinHashRepr::parse(fresh_buffer()).unwrap();
    let Registers::Dense(dense) = repr.registers();
    let mut sketch = HyperMinHash::wrap(dense);
    assert!(sketch.add(b"persisted element"));
    assert!(!sketch.add(b"persisted element"));
    repr.set_registers(&Registers::Dense(sketch.registers));
    repr.invalidate_cache();
    assert!(!repr.cache_valid());
    let bytes = repr.into_bytes();

    let reparsed = HyperMinHashRepr::parse(bytes.clone()).unwrap();
    let Registers::Dense(dense) = reparsed.registers();
    let mut again = HyperMinHash::wrap(dense);
    assert!(!again.add(b"persisted element"));
    let mut repr = reparsed;
    let regs = repr.registers();
    repr.set_registers(&regs);
    assert_eq!(repr.into_bytes(), bytes);
}

#[test]
fn cache_round_trip() {
    let mut repr = HyperMinHashRepr::parse(fresh_buffer()).unwrap();
    repr.set_cache(0x0102_0304_0506_0708);
    assert_eq!(repr.get_cache(), 0x0102_0304_0506_0708);
    assert!(repr.cache_valid());
    repr.invalidate_cache();
    assert!(!repr.cache_valid());
    assert_eq!(repr.get_cache(), 0x8102_0304_0506_0708);
    repr.set_cache(997689);
    assert!(repr.cache_valid());
    let bytes = repr.into_bytes();
    assert_eq!(&bytes[8..16], &997689u64.to_le_bytes());
    assert_eq!(&bytes[0..8], &[b'H', b'Y', b'M', b'H', 0, 0, 0, 0]);
}

#[test]
fn dense_and_array_sketches_agree() {
    let mut dense = HyperMinHash::wrap(DenseVector::wrap(vec![0u8; DENSE_BYTES]));
    let mut array = HyperMinHash::wrap(new_array_registers());
    for i in 0..1000 {
        let e = format!("e{}", i);
        assert_eq!(dense.add(e.as_bytes()), array.add(e.as_bytes()));
    }
    let mut merged = HyperMinHash::wrap(new_array_registers());
    merged.merge(&dense);
    for i in 0..16384 {
        assert_eq!(merged.registers.register_at(i), array.registers.register_at(i));
        assert_eq!(dense.registers.register_at(i), array.registers.register_at(i));
    }
    assert_eq!(dense.histogram(), array.histogram());
}
