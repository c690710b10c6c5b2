//! Registers stored as 16-bit little-endian integers in a byte buffer.

use vstd::prelude::*;
use crate::registers::{run_of, RegisterVector, NUM_REGISTERS};
use crate::sketch::valid_registers;

verus! {

pub const SINGLE_REGISTER_BYTES: usize = 2;

/// NUM_REGISTERS * SINGLE_REGISTER_BYTES.
pub const DENSE_BYTES: usize = 32768;

/// The register value that bytes `2 i` and `2 i + 1` of `b` encode.
pub open spec fn dense_value(b: Seq<u8>, i: int) -> u32 {
    (b[2 * i] as u32) | ((b[2 * i + 1] as u32) << 8u32)
}

/// The registers that a dense byte array encodes.
pub open spec fn decode_dense(b: Seq<u8>) -> Seq<u32> {
    Seq::new(b.len() / 2, |i: int| dense_value(b, i))
}

/// The byte array that encodes `regs`, each truncated to 16 bits, low byte first.
pub open spec fn encode_dense(regs: Seq<u32>) -> Seq<u8> {
    Seq::new(
        2 * regs.len(),
        |j: int|
            if j % 2 == 0 {
                (regs[j / 2] & 0xffu32) as u8
            } else {
                ((regs[j / 2] >> 8u32) & 0xffu32) as u8
            },
    )
}

/// A register store over a byte buffer, two bytes per register.
pub struct DenseVector {
    data: Vec<u8>,
}

impl DenseVector {
    /// The bytes that hold the registers.
    pub closed spec fn bytes(&self) -> Seq<u8> {
        self.data@
    }

    pub fn wrap(data: Vec<u8>) -> (d: Self)
        requires
            data@.len() == DENSE_BYTES,
        ensures
            d.bytes() == data@,
            d.regs().len() == NUM_REGISTERS,
            valid_registers(d.regs()),
    {
        let d = DenseVector { data };
        proof {
            assert forall|i: int| 0 <= i < NUM_REGISTERS implies run_of(#[trigger] d.regs()[i]) <= 65 by {
                lemma_dense_run(d.data@[2 * i], d.data@[2 * i + 1]);
            }
        }
        d
    }

    pub fn as_bytes(&self) -> (b: &Vec<u8>)
        ensures
            b@ == self.bytes(),
    {
        &self.data
    }

    pub fn into_bytes(self) -> (b: Vec<u8>)
        ensures
            b@ == self.bytes(),
    {
        self.data
    }
}

proof fn lemma_dense_run(x: u8, y: u8)
    ensures
        run_of((x as u32) | ((y as u32) << 8u32)) <= 63,
{
    assert(((x as u32) | ((y as u32) << 8u32)) >> 10u32 <= 63) by (bit_vector);
}

proof fn lemma_byte_pair(v: u32)
    ensures
        (((v & 0xffu32) as u8) as u32) | ((((v >> 8u32) & 0xffu32) as u8 as u32) << 8u32) == v
            & 0xffffu32,
{
    assert((((v & 0xffu32) as u8) as u32) | ((((v >> 8u32) & 0xffu32) as u8 as u32) << 8u32) == v
        & 0xffffu32) by (bit_vector);
}

impl RegisterVector for DenseVector {
    closed spec fn regs(&self) -> Seq<u32> {
        decode_dense(self.data@)
    }

    open spec fn stored(v: u32) -> u32 {
        v & 0xffffu32
    }

    proof fn lemma_stored_le(v: u32) {
        assert(v & 0xffffu32 <= v) by (bit_vector);
    }

    fn register_at(&self, idx: usize) -> (r: u32) {
        let len = self.data.len();
        let offset = idx * SINGLE_REGISTER_BYTES;
        assert(offset + 1 < len);
        (self.data[offset] as u32) | ((self.data[offset + 1] as u32) << 8u32)
    }

    fn set_register(&mut self, idx: usize, value: u32) {
        let len = self.data.len();
        let offset = idx * SINGLE_REGISTER_BYTES;
        assert(offset + 1 < len);
        self.data.set(offset, (value & 0xff) as u8);
        self.data.set(offset + 1, ((value >> 8) & 0xff) as u8);
        proof {
            lemma_byte_pair(value);
            assert(decode_dense(self.data@) =~= decode_dense(old(self).data@).update(
                idx as int,
                Self::stored(value),
            ));
        }
    }

    fn num_registers(&self) -> (r: usize) {
        self.data.len() / SINGLE_REGISTER_BYTES
    }
}

} // verus!
