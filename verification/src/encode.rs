//! The fixed byte layouts of the values that go into buffers: words in
//! little-endian order, vectors component after component, and matrices row
//! by row with each row padded to sixteen bytes.

use vstd::prelude::*;

verus! {

/// A 32-bit float, held as its IEEE 754 bit pattern.
#[derive(Clone, Copy, Debug, PartialEq, Eq, Structural)]
pub struct Float32 {
    pub bits: u32,
}

/// Three floats.
#[derive(Clone, Copy, Debug, PartialEq, Eq, Structural)]
pub struct Vector3 {
    pub x: Float32,
    pub y: Float32,
    pub z: Float32,
}

/// A 3 by 3 matrix of floats, held as its three columns.
#[derive(Clone, Copy, Debug, PartialEq, Eq, Structural)]
pub struct Matrix3 {
    pub x: Vector3,
    pub y: Vector3,
    pub z: Vector3,
}

/// The number of bytes of a word.
pub const WORD_BYTES: usize = 4;

/// The number of bytes of an encoded vector.
pub const VECTOR3_BYTES: usize = 12;

/// The number of bytes between the starts of two rows of an encoded matrix.
pub const MATRIX_ROW_STRIDE: usize = 16;

/// The number of bytes of an encoded matrix.
pub const MATRIX3_BYTES: usize = 48;

/// `bytes` with `val` in place of what stood from `offset` on.
pub open spec fn splice(bytes: Seq<u8>, offset: int, val: Seq<u8>) -> Seq<u8> {
    bytes.subrange(0, offset) + val + bytes.subrange(offset + val.len(), bytes.len() as int)
}

/// `count` zero bytes.
pub open spec fn zeros(count: nat) -> Seq<u8> {
    Seq::new(count, |i: int| 0u8)
}

/// The four bytes of a word, lowest first.
pub open spec fn spec_le_bytes(word: u32) -> Seq<u8> {
    seq![
        (word & 0xff) as u8,
        ((word >> 8) & 0xff) as u8,
        ((word >> 16) & 0xff) as u8,
        ((word >> 24) & 0xff) as u8,
    ]
}

/// The two's complement bit pattern of a signed word.
pub open spec fn spec_i32_bits(value: i32) -> u32 {
    if value >= 0 {
        value as u32
    } else {
        (value + 0x1_0000_0000) as u32
    }
}

/// Calls `encase::internal::BufferMut::write_slice` on a byte vector. That
/// method copies `val` over the bytes of `buffer` from `offset` on and leaves
/// the rest alone; it panics where `val` does not fit, which `requires` rules
/// out.
#[verifier::external_body]
fn buffer_write_slice(buffer: &mut Vec<u8>, offset: usize, val: &[u8])
    requires
        offset + val@.len() <= old(buffer)@.len(),
    ensures
        final(buffer)@ == splice(old(buffer)@, offset as int, val@),
{
    encase::internal::BufferMut::write_slice(buffer, offset, val)
}

/// Copies `val` over the bytes of `buffer` from `offset` on. Nothing is
/// written where `val` does not fit.
pub fn write_bytes(buffer: &mut Vec<u8>, offset: usize, val: &Vec<u8>) -> (written: bool)
    ensures
        written <==> offset + val@.len() <= old(buffer)@.len(),
        written ==> final(buffer)@ == splice(old(buffer)@, offset as int, val@),
        !written ==> final(buffer)@ == old(buffer)@,
{
    if val.len() > buffer.len() || offset > buffer.len() - val.len() {
        return false;
    }
    buffer_write_slice(buffer, offset, val.as_slice());
    true
}

/// The four bytes of a word, lowest first.
pub fn le_bytes(word: u32) -> (bytes: Vec<u8>)
    ensures
        bytes@ == spec_le_bytes(word),
        bytes@.len() == WORD_BYTES,
{
    assert(word & 0xff < 256 && (word >> 8) & 0xff < 256 && (word >> 16) & 0xff < 256 && (word
        >> 24) & 0xff < 256) by (bit_vector);
    let mut bytes: Vec<u8> = Vec::new();
    bytes.push((word & 0xff) as u8);
    bytes.push(((word >> 8) & 0xff) as u8);
    bytes.push(((word >> 16) & 0xff) as u8);
    bytes.push(((word >> 24) & 0xff) as u8);
    assert(bytes@ =~= spec_le_bytes(word));
    bytes
}

/// A vector of `count` zero bytes.
pub fn zeroed(count: usize) -> (bytes: Vec<u8>)
    ensures
        bytes@ == zeros(count as nat),
{
    let mut bytes: Vec<u8> = Vec::new();
    let mut i: usize = 0;
    while i < count
        invariant
            i <= count,
            bytes@ == zeros(i as nat),
        decreases count - i,
    {
        bytes.push(0u8);
        i += 1;
        assert(bytes@ =~= zeros(i as nat));
    }
    bytes
}

/// The bit pattern of a signed word.
pub fn i32_bits(value: i32) -> (bits: u32)
    ensures
        bits == spec_i32_bits(value),
{
    if value >= 0 {
        value as u32
    } else {
        (value as i64 + 0x1_0000_0000i64) as u32
    }
}

impl Float32 {
    pub fn from_bits(bits: u32) -> (f: Float32)
        ensures
            f.bits == bits,
    {
        Float32 { bits }
    }

    pub fn to_bits(&self) -> (bits: u32)
        ensures
            bits == self.bits,
    {
        self.bits
    }

    /// The four bytes of the bit pattern, lowest first.
    pub open spec fn spec_to_bytes(self) -> Seq<u8> {
        spec_le_bytes(self.bits)
    }

    pub fn to_bytes(&self) -> (bytes: Vec<u8>)
        ensures
            bytes@ == self.spec_to_bytes(),
            bytes@.len() == WORD_BYTES,
    {
        le_bytes(self.bits)
    }
}

impl Vector3 {
    /// The component at `row`: `x`, `y`, then `z`.
    pub open spec fn spec_component(self, row: int) -> Float32 {
        if row == 0 {
            self.x
        } else if row == 1 {
            self.y
        } else {
            self.z
        }
    }

    /// The three components one after the other.
    pub open spec fn spec_to_bytes(self) -> Seq<u8> {
        self.x.spec_to_bytes() + self.y.spec_to_bytes() + self.z.spec_to_bytes()
    }

    pub fn to_bytes(&self) -> (bytes: Vec<u8>)
        ensures
            bytes@ == self.spec_to_bytes(),
            bytes@.len() == VECTOR3_BYTES,
    {
        let mut data = zeroed(VECTOR3_BYTES);
        let x = self.x.to_bytes();
        let y = self.y.to_bytes();
        let z = self.z.to_bytes();
        buffer_write_slice(&mut data, 0 * WORD_BYTES, x.as_slice());
        buffer_write_slice(&mut data, 1 * WORD_BYTES, y.as_slice());
        buffer_write_slice(&mut data, 2 * WORD_BYTES, z.as_slice());
        assert(data@ =~= self.spec_to_bytes());
        data
    }
}

impl Matrix3 {
    /// The row at `row`: that component of each of the three columns, then
    /// four bytes of padding.
    pub open spec fn spec_row(self, row: int) -> Seq<u8> {
        self.x.spec_component(row).spec_to_bytes() + self.y.spec_component(row).spec_to_bytes()
            + self.z.spec_component(row).spec_to_bytes() + zeros(4)
    }

    /// The three rows one after the other.
    pub open spec fn spec_to_bytes(self) -> Seq<u8> {
        self.spec_row(0) + self.spec_row(1) + self.spec_row(2)
    }

    pub fn to_bytes(&self) -> (bytes: Vec<u8>)
        ensures
            bytes@ == self.spec_to_bytes(),
            bytes@.len() == MATRIX3_BYTES,
    {
        let mut data = zeroed(MATRIX3_BYTES);
        let c1 = self.x;
        let c2 = self.y;
        let c3 = self.z;
        buffer_write_slice(&mut data, 0, c1.x.to_bytes().as_slice());
        buffer_write_slice(&mut data, 4, c2.x.to_bytes().as_slice());
        buffer_write_slice(&mut data, 8, c3.x.to_bytes().as_slice());
        buffer_write_slice(&mut data, 16, c1.y.to_bytes().as_slice());
        buffer_write_slice(&mut data, 20, c2.y.to_bytes().as_slice());
        buffer_write_slice(&mut data, 24, c3.y.to_bytes().as_slice());
        buffer_write_slice(&mut data, 32, c1.z.to_bytes().as_slice());
        buffer_write_slice(&mut data, 36, c2.z.to_bytes().as_slice());
        buffer_write_slice(&mut data, 40, c3.z.to_bytes().as_slice());
        assert(data@ =~= self.spec_to_bytes());
        data
    }
}

/// The float one, whose bit pattern is 3F80 0000, is the bytes 00 00 80 3F.
pub proof fn lemma_one_in_bytes()
    ensures
        (Float32 { bits: 0x3f80_0000 }).spec_to_bytes() == seq![0x00u8, 0x00u8, 0x80u8, 0x3fu8],
{
    let word: u32 = 0x3f80_0000;
    assert(word & 0xff == 0 && (word >> 8) & 0xff == 0 && (word >> 16) & 0xff == 0x80 && (word
        >> 24) & 0xff == 0x3f) by (bit_vector)
        requires
            word == 0x3f80_0000u32,
    ;
    assert(spec_le_bytes(word) =~= seq![0x00u8, 0x00u8, 0x80u8, 0x3fu8]);
}

/// The float zero, whose bit pattern is all zero, is four zero bytes.
pub proof fn lemma_zero_in_bytes()
    ensures
        (Float32 { bits: 0 }).spec_to_bytes() == seq![0x00u8, 0x00u8, 0x00u8, 0x00u8],
{
    let word: u32 = 0;
    assert(word & 0xff == 0 && (word >> 8) & 0xff == 0 && (word >> 16) & 0xff == 0 && (word >> 24)
        & 0xff == 0) by (bit_vector)
        requires
            word == 0u32,
    ;
    assert(spec_le_bytes(word) =~= seq![0x00u8, 0x00u8, 0x00u8, 0x00u8]);
}

/// The identity matrix in bytes: three rows of sixteen bytes, the one of
/// each row at the row's own column, and four bytes of padding after each
/// row.
pub proof fn lemma_identity_in_bytes()
    ensures
        ({
            let one = Float32 { bits: 0x3f80_0000 };
            let zero = Float32 { bits: 0 };
            let identity = Matrix3 {
                x: Vector3 { x: one, y: zero, z: zero },
                y: Vector3 { x: zero, y: one, z: zero },
                z: Vector3 { x: zero, y: zero, z: one },
            };
            identity.spec_to_bytes() == seq![
                0x00u8, 0x00u8, 0x80u8, 0x3fu8, 0u8, 0u8, 0u8, 0u8, 0u8, 0u8, 0u8, 0u8, 0u8, 0u8, 0u8, 0u8,
                0u8, 0u8, 0u8, 0u8, 0x00u8, 0x00u8, 0x80u8, 0x3fu8, 0u8, 0u8, 0u8, 0u8, 0u8, 0u8, 0u8, 0u8,
                0u8, 0u8, 0u8, 0u8, 0u8, 0u8, 0u8, 0u8, 0x00u8, 0x00u8, 0x80u8, 0x3fu8, 0u8, 0u8, 0u8, 0u8,
            ]
        }),
{
    lemma_one_in_bytes();
    lemma_zero_in_bytes();
    let one = Float32 { bits: 0x3f80_0000 };
    let zero = Float32 { bits: 0 };
    let identity = Matrix3 {
        x: Vector3 { x: one, y: zero, z: zero },
        y: Vector3 { x: zero, y: one, z: zero },
        z: Vector3 { x: zero, y: zero, z: one },
    };
    assert(identity.spec_to_bytes() =~= seq![
        0x00u8, 0x00u8, 0x80u8, 0x3fu8, 0u8, 0u8, 0u8, 0u8, 0u8, 0u8, 0u8, 0u8, 0u8, 0u8, 0u8, 0u8,
        0u8, 0u8, 0u8, 0u8, 0x00u8, 0x00u8, 0x80u8, 0x3fu8, 0u8, 0u8, 0u8, 0u8, 0u8, 0u8, 0u8, 0u8,
        0u8, 0u8, 0u8, 0u8, 0u8, 0u8, 0u8, 0u8, 0x00u8, 0x00u8, 0x80u8, 0x3fu8, 0u8, 0u8, 0u8, 0u8,
    ]);
}

/// Reading back where a value was spliced in gives that value.
pub proof fn lemma_splice_reads_back(bytes: Seq<u8>, offset: int, val: Seq<u8>)
    requires
        0 <= offset,
        offset + val.len() <= bytes.len(),
    ensures
        splice(bytes, offset, val).len() == bytes.len(),
        splice(bytes, offset, val).subrange(offset, offset + val.len()) == val,
        forall|i: int|
            0 <= i < bytes.len() && !(offset <= i < offset + val.len()) ==> #[trigger] splice(
                bytes,
                offset,
                val,
            )[i] == bytes[i],
{
    assert(splice(bytes, offset, val).subrange(offset, offset + val.len()) =~= val);
}

} // verus!
