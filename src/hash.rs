//! 128-bit MurmurHash3 for x64, stated as spec functions and proved against them.

use vstd::prelude::*;
use vstd::wrapping::u64_specs::{wrapping_add, wrapping_mul};

verus! {

pub const C1: u64 = 0x87c37b91_114253d5u64;

pub const C2: u64 = 0x4cf5ad43_2745937fu64;

pub open spec fn rotl_spec(x: u64, r: u64) -> u64 {
    (x << r) | (x >> (64 - r) as u64)
}

/// Eight bytes of `s` from `off` on, read as a little-endian word.
pub open spec fn word_at(s: Seq<u8>, off: int) -> u64 {
    (s[off] as u64) | ((s[off + 1] as u64) << 8u64) | ((s[off + 2] as u64) << 16u64) | ((s[off
        + 3] as u64) << 24u64) | ((s[off + 4] as u64) << 32u64) | ((s[off + 5] as u64) << 40u64)
        | ((s[off + 6] as u64) << 48u64) | ((s[off + 7] as u64) << 56u64)
}

pub open spec fn mix_k1(k: u64) -> u64 {
    wrapping_mul(rotl_spec(wrapping_mul(k, C1), 31), C2)
}

pub open spec fn mix_k2(k: u64) -> u64 {
    wrapping_mul(rotl_spec(wrapping_mul(k, C2), 33), C1)
}

/// The two lanes after one 16-byte block with words `k1`, `k2`.
pub open spec fn block_step(h1: u64, h2: u64, k1: u64, k2: u64) -> (u64, u64) {
    let n1 = wrapping_add(wrapping_mul(wrapping_add(rotl_spec(h1 ^ mix_k1(k1), 27), h2), 5), 0x52dce729);
    let n2 = wrapping_add(wrapping_mul(wrapping_add(rotl_spec(h2 ^ mix_k2(k2), 31), n1), 5), 0x38495ab5);
    (n1, n2)
}

/// The two lanes after the first `n` full blocks of `s`.
pub open spec fn lanes_after_blocks(s: Seq<u8>, seed: u64, n: nat) -> (u64, u64)
    decreases n,
{
    if n == 0 {
        (seed, seed)
    } else {
        let (h1, h2) = lanes_after_blocks(s, seed, (n - 1) as nat);
        let off = 16 * (n - 1);
        block_step(h1, h2, word_at(s, off), word_at(s, off + 8))
    }
}

/// The `n` bytes of `s` from `start` on (n at most 8), little-endian.
pub open spec fn tail_word(s: Seq<u8>, start: int, n: nat) -> u64
    decreases n,
{
    if n == 0 {
        0
    } else {
        tail_word(s, start, (n - 1) as nat) ^ ((s[start + n - 1] as u64) << (8 * (n - 1)) as u64)
    }
}

pub open spec fn fmix_spec(k: u64) -> u64 {
    let a = k ^ (k >> 33u64);
    let b = wrapping_mul(a, 0xff51afd7ed558ccdu64);
    let c = b ^ (b >> 33u64);
    let d = wrapping_mul(c, 0xc4ceb9fe1a85ec53u64);
    d ^ (d >> 33u64)
}

/// MurmurHash3 x64 128 of `s` under `seed`, the first lane in the high 64 bits.
pub open spec fn murmur3_spec(s: Seq<u8>, seed: u64) -> u128 {
    let nb = s.len() / 16;
    let tail = 16 * nb as int;
    let rem = s.len() % 16;
    let (b1, b2) = lanes_after_blocks(s, seed, nb);
    let t1 = if rem > 0 {
        b1 ^ mix_k1(tail_word(s, tail, if rem > 8 { 8 } else { rem }))
    } else {
        b1
    };
    let t2 = if rem > 8 {
        b2 ^ mix_k2(tail_word(s, tail + 8, (rem - 8) as nat))
    } else {
        b2
    };
    let len = s.len() as u64;
    let l1 = t1 ^ len;
    let l2 = t2 ^ len;
    let a1 = wrapping_add(l1, l2);
    let a2 = wrapping_add(l2, a1);
    let f1 = fmix_spec(a1);
    let f2 = fmix_spec(a2);
    let r1 = wrapping_add(f1, f2);
    let r2 = wrapping_add(f2, r1);
    ((r1 as u128) << 64u128) | (r2 as u128)
}

fn rotl(x: u64, r: u64) -> (v: u64)
    requires
        0 < r < 64,
    ensures
        v == rotl_spec(x, r),
{
    (x << r) | (x >> (64 - r))
}

pub(crate) fn read_word(s: &[u8], off: usize) -> (w: u64)
    requires
        off + 8 <= s@.len(),
    ensures
        w == word_at(s@, off as int),
{
    (s[off] as u64) | ((s[off + 1] as u64) << 8u64) | ((s[off + 2] as u64) << 16u64) | ((s[off
        + 3] as u64) << 24u64) | ((s[off + 4] as u64) << 32u64) | ((s[off + 5] as u64) << 40u64)
        | ((s[off + 6] as u64) << 48u64) | ((s[off + 7] as u64) << 56u64)
}

fn read_tail(s: &[u8], start: usize, n: usize) -> (w: u64)
    requires
        n <= 8,
        start + n <= s@.len(),
    ensures
        w == tail_word(s@, start as int, n as nat),
{
    let len = s.len();
    let mut w: u64 = 0;
    let mut j: usize = 0;
    while j < n
        invariant
            len == s@.len(),
            j <= n <= 8,
            start + n <= s@.len(),
            w == tail_word(s@, start as int, j as nat),
        decreases n - j,
    {
        w = w ^ ((s[start + j] as u64) << (8 * j as u64));
        j = j + 1;
    }
    w
}

fn scramble_k1(k: u64) -> (v: u64)
    ensures
        v == mix_k1(k),
{
    rotl(k.wrapping_mul(C1), 31).wrapping_mul(C2)
}

fn scramble_k2(k: u64) -> (v: u64)
    ensures
        v == mix_k2(k),
{
    rotl(k.wrapping_mul(C2), 33).wrapping_mul(C1)
}

fn fmix64(k: u64) -> (v: u64)
    ensures
        v == fmix_spec(k),
{
    let mut r = k;
    r = r ^ (r >> 33);
    r = r.wrapping_mul(0xff51afd7ed558ccdu64);
    r = r ^ (r >> 33);
    r = r.wrapping_mul(0xc4ceb9fe1a85ec53u64);
    r = r ^ (r >> 33);
    r
}

/// 128-bit MurmurHash3 for x64: blocks of 16 bytes through two 64-bit lanes,
/// the 0 to 15 trailing bytes folded in, then a final avalanche on each lane.
pub fn murmur3_x64_128(element: &[u8], seed: u64) -> (r: u128)
    ensures
        r == murmur3_spec(element@, seed),
{
    let len = element.len();
    let nblocks = len / 16;
    let mut h1 = seed;
    let mut h2 = seed;
    let mut i: usize = 0;
    while i < nblocks
        invariant
            nblocks == len / 16,
            len == element@.len(),
            i <= nblocks,
            (h1, h2) == lanes_after_blocks(element@, seed, i as nat),
        decreases nblocks - i,
    {
        assert(16 * i + 16 <= len);
        let off = 16 * i;
        let k1 = read_word(element, off);
        let k2 = read_word(element, off + 8);
        h1 = rotl(h1 ^ scramble_k1(k1), 27).wrapping_add(h2).wrapping_mul(5).wrapping_add(
            0x52dce729,
        );
        h2 = rotl(h2 ^ scramble_k2(k2), 31).wrapping_add(h1).wrapping_mul(5).wrapping_add(
            0x38495ab5,
        );
        i = i + 1;
    }
    let tail = 16 * nblocks;
    let rem = len % 16;
    if rem > 0 {
        let n1: usize = if rem > 8 { 8 } else { rem };
        h1 = h1 ^ scramble_k1(read_tail(element, tail, n1));
    }
    if rem > 8 {
        h2 = h2 ^ scramble_k2(read_tail(element, tail + 8, rem - 8));
    }
    h1 = h1 ^ (len as u64);
    h2 = h2 ^ (len as u64);
    h1 = h1.wrapping_add(h2);
    h2 = h2.wrapping_add(h1);
    h1 = fmix64(h1);
    h2 = fmix64(h2);
    h1 = h1.wrapping_add(h2);
    h2 = h2.wrapping_add(h1);
    ((h1 as u128) << 64u128) | (h2 as u128)
}

} // verus!
