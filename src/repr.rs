//! The persisted layout of a sketch: a 16-byte header, then the registers.
//!
//! Header: four magic bytes `HYMH`, one encoding byte (0: dense), three
//! reserved bytes, and eight bytes of cached cardinality, little-endian,
//! whose top bit marks the cache invalid. Dense registers follow as 16-bit
//! little-endian integers.

use vstd::prelude::*;
use crate::dense::{decode_dense, encode_dense, DenseVector, DENSE_BYTES};
use crate::hash::{read_word, word_at};

verus! {

pub const HEADER_LEN: usize = 16;

/// HEADER_LEN + DENSE_BYTES.
pub const DENSE_LEN: usize = 32784;

pub open spec fn magic() -> Seq<u8> {
    seq![0x48u8, 0x59u8, 0x4du8, 0x48u8]
}

/// How the registers are encoded after the header.
#[derive(Debug, PartialEq, Eq, Structural)]
pub enum Encoding {
    Dense,
}

impl Encoding {
    pub const DENSE: u8 = 0;
}

pub enum Registers {
    Dense(DenseVector),
}

/// Whether `b` is a whole dense sketch buffer.
pub open spec fn is_dense_repr(b: Seq<u8>) -> bool {
    &&& b.len() == DENSE_LEN
    &&& b.subrange(0, 4) == magic()
    &&& b[4] == Encoding::DENSE
}

/// A byte buffer known to hold a sketch.
pub struct HyperMinHashRepr {
    encoding: Encoding,
    data: Vec<u8>,
}

impl HyperMinHashRepr {
    /// The whole buffer, header included.
    pub closed spec fn bytes(&self) -> Seq<u8> {
        self.data@
    }

    pub closed spec fn wf(&self) -> bool {
        is_dense_repr(self.data@) && self.encoding == Encoding::Dense
    }

    pub fn dense_len() -> (n: usize)
        ensures
            n == DENSE_LEN,
    {
        HEADER_LEN + DENSE_BYTES
    }

    /// Writes the magic tag; the rest of the buffer is the caller's to clear.
    pub fn initialize(bytes: &mut Vec<u8>)
        requires
            old(bytes)@.len() >= 4,
        ensures
            final(bytes)@ == magic() + old(bytes)@.subrange(4, old(bytes)@.len() as int),
    {
        bytes.set(0, 0x48u8);
        bytes.set(1, 0x59u8);
        bytes.set(2, 0x4du8);
        bytes.set(3, 0x48u8);
        assert(bytes@ =~= magic() + old(bytes)@.subrange(4, old(bytes)@.len() as int));
    }

    /// Takes the buffer if it is a sketch of a known encoding and of the
    /// length that encoding calls for.
    pub fn parse(bytes: Vec<u8>) -> (r: Option<HyperMinHashRepr>)
        ensures
            r.is_some() == is_dense_repr(bytes@),
            r.is_some() ==> r.unwrap().wf() && r.unwrap().bytes() == bytes@,
    {
        if bytes.len() < HEADER_LEN {
            return None;
        }
        if bytes[0] != 0x48u8 || bytes[1] != 0x59u8 || bytes[2] != 0x4du8 || bytes[3] != 0x48u8 {
            assert(bytes@.subrange(0, 4) != magic()) by {
                if bytes@.subrange(0, 4) == magic() {
                    assert(bytes@[0] == bytes@.subrange(0, 4)[0]);
                    assert(bytes@[1] == bytes@.subrange(0, 4)[1]);
                    assert(bytes@[2] == bytes@.subrange(0, 4)[2]);
                    assert(bytes@[3] == bytes@.subrange(0, 4)[3]);
                }
            }
            return None;
        }
        assert(bytes@.subrange(0, 4) =~= magic());
        if bytes[4] == Encoding::DENSE && bytes.len() == Self::dense_len() {
            Some(HyperMinHashRepr { encoding: Encoding::Dense, data: bytes })
        } else {
            None
        }
    }

    /// A copy of the register array that follows the header.
    pub fn registers(&self) -> (r: Registers)
        requires
            self.wf(),
        ensures
            match r {
                Registers::Dense(d) => d.bytes() == self.bytes().subrange(
                    HEADER_LEN as int,
                    DENSE_LEN as int,
                ),
            },
    {
        let mut out: Vec<u8> = Vec::with_capacity(DENSE_BYTES);
        let mut i: usize = HEADER_LEN;
        while i < DENSE_LEN
            invariant
                HEADER_LEN <= i <= DENSE_LEN,
                self.data@.len() == DENSE_LEN,
                out@ == self.data@.subrange(HEADER_LEN as int, i as int),
            decreases DENSE_LEN - i,
        {
            out.push(self.data[i]);
            i = i + 1;
            assert(out@ =~= self.data@.subrange(HEADER_LEN as int, i as int));
        }
        Registers::Dense(DenseVector::wrap(out))
    }

    /// Writes a register array back after the header.
    pub fn set_registers(&mut self, regs: &Registers)
        requires
            old(self).wf(),
            match regs {
                Registers::Dense(d) => d.bytes().len() == DENSE_BYTES,
            },
        ensures
            final(self).wf(),
            match regs {
                Registers::Dense(d) => final(self).bytes() == old(self).bytes().subrange(
                    0,
                    HEADER_LEN as int,
                ) + d.bytes(),
            },
    {
        match regs {
            Registers::Dense(d) => {
                let src = d.as_bytes();
                let mut i: usize = 0;
                while i < DENSE_BYTES
                    invariant
                        i <= DENSE_BYTES,
                        src@.len() == DENSE_BYTES,
                        self.encoding == Encoding::Dense,
                        self.data@.len() == DENSE_LEN,
                        forall|j: int| 0 <= j < HEADER_LEN ==> #[trigger] self.data@[j] == old(self).data@[j],
                        forall|j: int| 0 <= j < i ==> #[trigger] self.data@[HEADER_LEN + j] == src@[j],
                    decreases DENSE_BYTES - i,
                {
                    self.data.set(HEADER_LEN + i, src[i]);
                    i = i + 1;
                }
                assert forall|j: int| 0 <= j < DENSE_LEN implies #[trigger] self.data@[j] == (old(self).data@.subrange(0, HEADER_LEN as int) + src@)[j] by {
                    if j >= HEADER_LEN {
                        assert(self.data@[HEADER_LEN + (j - HEADER_LEN)] == src@[j - HEADER_LEN]);
                    }
                }
                assert(self.data@ =~= old(self).data@.subrange(0, HEADER_LEN as int) + src@);
                assert(self.data@.subrange(0, 4) =~= old(self).data@.subrange(0, 4));
            },
        }
    }

    /// The whole buffer, header included.
    pub fn into_bytes(self) -> (b: Vec<u8>)
        ensures
            b@ == self.bytes(),
    {
        self.data
    }

    /// Sets the top bit of the cached cardinality: the cache no longer holds.
    pub fn invalidate_cache(&mut self)
        requires
            old(self).wf(),
        ensures
            final(self).wf(),
            final(self).bytes() == old(self).bytes().update(15, old(self).bytes()[15] | 0x80u8),
    {
        let b = self.data[15] | 0x80u8;
        self.data.set(15, b);
        assert(self.data@.subrange(0, 4) =~= old(self).data@.subrange(0, 4));
    }

    pub fn cache_valid(&self) -> (v: bool)
        requires
            self.wf(),
        ensures
            v == (self.bytes()[15] & 0x80u8 == 0),
    {
        self.data[15] & 0x80u8 == 0
    }

    /// The cached cardinality field, invalid flag included.
    pub fn get_cache(&self) -> (c: u64)
        requires
            self.wf(),
        ensures
            c == word_at(self.bytes(), 8),
    {
        read_word(self.data.as_slice(), 8)
    }

    /// Stores a cardinality in the cache field, little-endian.
    pub fn set_cache(&mut self, cardinality: u64)
        requires
            old(self).wf(),
        ensures
            final(self).wf(),
            word_at(final(self).bytes(), 8) == cardinality,
            final(self).bytes().subrange(0, 8) == old(self).bytes().subrange(0, 8),
            final(self).bytes().subrange(16, DENSE_LEN as int) == old(self).bytes().subrange(
                16,
                DENSE_LEN as int,
            ),
    {
        let v = cardinality;
        self.data.set(8, (v & 0xff) as u8);
        self.data.set(9, ((v >> 8) & 0xff) as u8);
        self.data.set(10, ((v >> 16) & 0xff) as u8);
        self.data.set(11, ((v >> 24) & 0xff) as u8);
        self.data.set(12, ((v >> 32) & 0xff) as u8);
        self.data.set(13, ((v >> 40) & 0xff) as u8);
        self.data.set(14, ((v >> 48) & 0xff) as u8);
        self.data.set(15, ((v >> 56) & 0xff) as u8);
        proof {
            lemma_u64_bytes(v);
            assert(self.data@.subrange(0, 8) =~= old(self).data@.subrange(0, 8));
            assert(self.data@.subrange(0, 4) =~= old(self).data@.subrange(0, 4));
            assert(self.data@.subrange(16, DENSE_LEN as int) =~= old(self).data@.subrange(
                16,
                DENSE_LEN as int,
            ));
        }
    }
}

proof fn lemma_u64_bytes(v: u64)
    ensures
        (((v & 0xff) as u8) as u64) | ((((v >> 8u64) & 0xff) as u8 as u64) << 8u64) | ((((v
            >> 16u64) & 0xff) as u8 as u64) << 16u64) | ((((v >> 24u64) & 0xff) as u8 as u64)
            << 24u64) | ((((v >> 32u64) & 0xff) as u8 as u64) << 32u64) | ((((v >> 40u64) & 0xff)
            as u8 as u64) << 40u64) | ((((v >> 48u64) & 0xff) as u8 as u64) << 48u64) | ((((v
            >> 56u64) & 0xff) as u8 as u64) << 56u64) == v,
{
    assert((((v & 0xff) as u8) as u64) | ((((v >> 8u64) & 0xff) as u8 as u64) << 8u64) | ((((v
        >> 16u64) & 0xff) as u8 as u64) << 16u64) | ((((v >> 24u64) & 0xff) as u8 as u64)
        << 24u64) | ((((v >> 32u64) & 0xff) as u8 as u64) << 32u64) | ((((v >> 40u64) & 0xff)
        as u8 as u64) << 40u64) | ((((v >> 48u64) & 0xff) as u8 as u64) << 48u64) | ((((v
        >> 56u64) & 0xff) as u8 as u64) << 56u64) == v) by (bit_vector);
}

proof fn lemma_pair_bytes(x: u8, y: u8)
    ensures
        ((((x as u32) | ((y as u32) << 8u32)) & 0xffu32) as u8) == x,
        (((((x as u32) | ((y as u32) << 8u32)) >> 8u32) & 0xffu32) as u8) == y,
{
    assert(((((x as u32) | ((y as u32) << 8u32)) & 0xffu32) as u8) == x) by (bit_vector);
    assert((((((x as u32) | ((y as u32) << 8u32)) >> 8u32) & 0xffu32) as u8) == y) by (bit_vector);
}

/// Decoding a dense register array and encoding the registers again gives
/// back the very same bytes.
pub proof fn lemma_dense_round_trip(b: Seq<u8>)
    requires
        b.len() % 2 == 0,
    ensures
        encode_dense(decode_dense(b)) == b,
{
    let e = encode_dense(decode_dense(b));
    assert forall|j: int| 0 <= j < b.len() implies #[trigger] e[j] == b[j] by {
        let i = j / 2;
        lemma_pair_bytes(b[2 * i], b[2 * i + 1]);
        if j % 2 == 0 {
            assert(2 * i == j);
        } else {
            assert(2 * i + 1 == j);
        }
    }
    assert(e =~= b);
}

/// A buffer that parses is its header followed by the encoding of the
/// registers read from it: reading the registers and writing them back
/// reproduces the buffer byte for byte.
pub proof fn lemma_repr_round_trip(b: Seq<u8>)
    requires
        is_dense_repr(b),
    ensures
        b.subrange(0, HEADER_LEN as int) + encode_dense(
            decode_dense(b.subrange(HEADER_LEN as int, DENSE_LEN as int)),
        ) == b,
{
    lemma_dense_round_trip(b.subrange(HEADER_LEN as int, DENSE_LEN as int));
    assert(b.subrange(0, HEADER_LEN as int) + b.subrange(HEADER_LEN as int, DENSE_LEN as int) =~= b);
}

/// A buffer with a wrong magic tag, or of any length but the dense one, is
/// never taken for a sketch.
pub proof fn lemma_malformed_rejected(b: Seq<u8>)
    requires
        b.len() != DENSE_LEN || (b.len() >= 4 && b.subrange(0, 4) != magic()),
    ensures
        !is_dense_repr(b),
{
}

} // verus!
