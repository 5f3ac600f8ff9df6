//! The integer side of dequantization: checking that a tensor's bytes and an
//! output buffer fit together, and decoding quantized blocks into their
//! scale bits and integer quants. Scaling the quants to `f32` is left to the
//! caller.
use super::error::Error;
use super::reader::{read_u16, spec_le_u16};
use super::tensor::{spec_byte_size, spec_product, tensor_sizes_fit, TensorInfo, TensorInfoModel};
use super::types::{lemma_tensor_type_storage, tensor_type_id, TensorType};
use vstd::prelude::*;
use vstd::slice::slice_subrange;

verus! {

/// Tensor types that can be dequantized: F32, F16, Q4_0, Q8_0 and Q4_K.
pub open spec fn dequant_supported(ty: TensorType) -> bool {
    ty == TensorType::F32 || ty == TensorType::F16 || ty == TensorType::Q4_0 || ty
        == TensorType::Q8_0 || ty == TensorType::Q4K
}

/// Whether the raw bytes and the output buffer of a dequantization fit the
/// tensor: the bytes must be exactly the tensor's byte size, the output must
/// have one slot per element, and the type must be supported.
pub open spec fn spec_check_dequantize(t: TensorInfoModel, bytes_len: int, out_len: int) -> Result<(), Error> {
    match spec_byte_size(t.ty, spec_product(t.shape) as u64) {
        None => Err(Error::UnknownTensorType(tensor_type_id(t.ty))),
        Some(expected) => if bytes_len != expected {
            Err(Error::UnexpectedEof)
        } else if out_len != (spec_product(t.shape) as u64) as usize {
            Err(Error::InvalidTensorIndex(out_len as usize))
        } else if !dequant_supported(t.ty) {
            Err(Error::UnknownTensorType(tensor_type_id(t.ty)))
        } else {
            Ok(())
        },
    }
}

/// Check that `bytes_len` raw bytes can be dequantized into `out_len` values
/// for the tensor `info`.
pub fn check_dequantize(info: &TensorInfo, bytes_len: usize, out_len: usize) -> (res: Result<(), Error>)
    requires
        tensor_sizes_fit(info@),
    ensures
        res == spec_check_dequantize(info@, bytes_len as int, out_len as int),
{
    proof {
        lemma_tensor_type_storage(info.ty);
    }
    let expected = match info.byte_size() {
        Some(s) => s,
        None => {
            return Err(Error::UnknownTensorType(info.ty.id()));
        },
    };
    if bytes_len != expected {
        return Err(Error::UnexpectedEof);
    }
    if out_len != info.n_elements() as usize {
        return Err(Error::InvalidTensorIndex(out_len));
    }
    match info.ty {
        TensorType::F32 | TensorType::F16 | TensorType::Q4_0 | TensorType::Q8_0 | TensorType::Q4K => {
            Ok(())
        },
        _ => Err(Error::UnknownTensorType(info.ty.id())),
    }
}

/// Low nibble of a byte.
pub open spec fn low_nibble(b: u8) -> int {
    b as int % 16
}

/// High nibble of a byte.
pub open spec fn high_nibble(b: u8) -> int {
    b as int / 16
}

/// A decoded block: the bits of its `f16` scale (and, for Q4_K, of its `f16`
/// minimum), the per-group scales and minimums (Q4_K only), and one integer
/// quant per element. Element `e` of the block dequantizes to
/// `d * quants[e]` for Q4_0 and Q8_0 and to
/// `d * scales[e / 32] * quants[e] - dmin * mins[e / 32]` for Q4_K.
pub struct QuantBlock {
    pub d: u16,
    pub dmin: u16,
    pub scales: Vec<u8>,
    pub mins: Vec<u8>,
    pub quants: Vec<i32>,
}

/// Q4_0 quant of element `e` of an 18-byte block: the 16 bytes after the
/// scale hold element `j` in the low nibble and element `j + 16` in the high
/// nibble of byte `j`; a nibble `q` stands for `q - 8`.
pub open spec fn spec_q4_0_quant(block: Seq<u8>, e: int) -> int {
    if e < 16 {
        low_nibble(block[2 + e]) - 8
    } else {
        high_nibble(block[2 + e - 16]) - 8
    }
}

/// Decode a Q4_0 block (32 elements, 18 bytes: an `f16` scale then 16 bytes of nibbles).
pub fn decode_q4_0_block(block: &[u8]) -> (res: QuantBlock)
    requires
        block@.len() == 18,
    ensures
        res.d == spec_le_u16(block@),
        res.dmin == 0,
        res.scales@.len() == 0,
        res.mins@.len() == 0,
        res.quants@.len() == 32,
        forall|e: int| 0 <= e < 32 ==> res.quants@[e] == spec_q4_0_quant(block@, e),
        res.d as int == block@[0] as int + 256 * block@[1] as int,
        forall|j: int|
            0 <= j < 16 ==> #[trigger] res.quants@[j] == block@[2 + j] as int % 16 - 8 && res.quants@[j + 16]
                == block@[2 + j] as int / 16 - 8,
{
    let (d, _) = match read_u16(block, 0) {
        Ok(r) => r,
        Err(_) => (0, 0),
    };
    assert(block@.subrange(0, 2) =~= block@.take(2));
    let mut quants: Vec<i32> = Vec::new();
    let mut j: usize = 0;
    while j < 16
        invariant
            block@.len() == 18,
            j <= 16,
            quants@.len() == j,
            forall|e: int| 0 <= e < j ==> quants@[e] == spec_q4_0_quant(block@, e),
        decreases 16 - j,
    {
        let b = block[2 + j];
        assert((b & 0x0F) as int == b as int % 16) by (bit_vector);
        quants.push((b & 0x0F) as i32 - 8);
        j = j + 1;
    }
    while j < 32
        invariant
            block@.len() == 18,
            16 <= j <= 32,
            quants@.len() == j,
            forall|e: int| 0 <= e < j ==> quants@[e] == spec_q4_0_quant(block@, e),
        decreases 32 - j,
    {
        let b = block[2 + j - 16];
        assert((b >> 4) as int == b as int / 16) by (bit_vector);
        quants.push((b >> 4) as i32 - 8);
        j = j + 1;
    }
    QuantBlock { d, dmin: 0, scales: Vec::new(), mins: Vec::new(), quants }
}

/// Decode a Q8_0 block (32 elements, 34 bytes: an `f16` scale then 32 signed bytes).
pub fn decode_q8_0_block(block: &[u8]) -> (res: QuantBlock)
    requires
        block@.len() == 34,
    ensures
        res.d == spec_le_u16(block@),
        res.dmin == 0,
        res.scales@.len() == 0,
        res.mins@.len() == 0,
        res.quants@.len() == 32,
        forall|e: int| 0 <= e < 32 ==> res.quants@[e] == (block@[2 + e] as i8) as int,
        res.d as int == block@[0] as int + 256 * block@[1] as int,
        forall|e: int|
            0 <= e < 32 ==> #[trigger] res.quants@[e] == if block@[2 + e] < 128 {
                block@[2 + e] as int
            } else {
                block@[2 + e] as int - 256
            },
{
    let (d, _) = match read_u16(block, 0) {
        Ok(r) => r,
        Err(_) => (0, 0),
    };
    assert(block@.subrange(0, 2) =~= block@.take(2));
    let mut quants: Vec<i32> = Vec::new();
    let mut j: usize = 0;
    while j < 32
        invariant
            block@.len() == 34,
            j <= 32,
            quants@.len() == j,
            forall|e: int| 0 <= e < j ==> quants@[e] == (block@[2 + e] as i8) as int,
        decreases 32 - j,
    {
        quants.push(block[2 + j] as i8 as i32);
        j = j + 1;
    }
    assert forall|e: int| 0 <= e < 32 implies #[trigger] quants@[e] == if block@[2 + e] < 128 {
        block@[2 + e] as int
    } else {
        block@[2 + e] as int - 256
    } by {
        let b = block@[2 + e];
        assert(quants@[e] == (b as i8) as int);
        assert(b < 128 ==> (b as i8) as i16 == b as i16) by (bit_vector);
        assert(b >= 128 ==> (b as i8) as i16 == (b as i16) - 256) by (bit_vector);
    }
    QuantBlock { d, dmin: 0, scales: Vec::new(), mins: Vec::new(), quants }
}

/// The 6-bit scale of group `g` of a Q4_K block, packed in the 12 bytes `s`:
/// groups 0 to 3 keep it in the low six bits of `s[g]`; groups 4 to 7 take
/// four low bits from the low nibble of `s[g + 4]` and two high bits from the
/// top two bits of `s[g - 4]`.
pub open spec fn spec_q4_k_scale(s: Seq<u8>, g: int) -> int {
    if g < 4 {
        s[g] as int % 64
    } else {
        s[g + 4] as int % 16 + 16 * (s[g - 4] as int / 64)
    }
}

/// The 6-bit minimum of group `g` of a Q4_K block: groups 0 to 3 keep it in
/// the low six bits of `s[g + 4]`; groups 4 to 7 take four low bits from the
/// high nibble of `s[g + 4]` and two high bits from the top two bits of `s[g]`.
pub open spec fn spec_q4_k_min(s: Seq<u8>, g: int) -> int {
    if g < 4 {
        s[g + 4] as int % 64
    } else {
        s[g + 4] as int / 16 + 16 * (s[g] as int / 64)
    }
}

/// Q4_K quant of element `e` of a block: element `e` sits in byte `e / 2` of
/// the 128 quant bytes, in the low nibble when `e` is even and in the high
/// nibble when it is odd.
pub open spec fn spec_q4_k_quant(block: Seq<u8>, e: int) -> int {
    if e % 2 == 0 {
        low_nibble(block[16 + e / 2])
    } else {
        high_nibble(block[16 + e / 2])
    }
}

fn q4_k_scale_min(s: &[u8], g: usize) -> (res: (u8, u8))
    requires
        s@.len() == 12,
        g < 8,
    ensures
        res.0 as int == spec_q4_k_scale(s@, g as int),
        res.1 as int == spec_q4_k_min(s@, g as int),
        res.0 < 64,
        res.1 < 64,
{
    if g < 4 {
        let a = s[g];
        let b = s[g + 4];
        assert((a & 0x3F) as int == a as int % 64) by (bit_vector);
        assert((b & 0x3F) as int == b as int % 64) by (bit_vector);
        (a & 0x3F, b & 0x3F)
    } else {
        let a = s[g + 4];
        let lo = s[g - 4];
        let hi = s[g];
        assert(((a & 0x0F) | ((lo >> 6) << 4)) as int == a as int % 16 + 16 * (lo as int / 64))
            by (bit_vector);
        assert(((a >> 4) | ((hi >> 6) << 4)) as int == a as int / 16 + 16 * (hi as int / 64))
            by (bit_vector);
        assert(((a & 0x0F) | ((lo >> 6) << 4)) < 64) by (bit_vector);
        assert(((a >> 4) | ((hi >> 6) << 4)) < 64) by (bit_vector);
        ((a & 0x0F) | ((lo >> 6) << 4), (a >> 4) | ((hi >> 6) << 4))
    }
}

/// Decode a Q4_K block (256 elements, 144 bytes: an `f16` scale, an `f16`
/// minimum, 12 bytes of packed 6-bit scales and minimums for 8 groups of 32
/// elements, then 128 bytes of nibbles).
pub fn decode_q4_k_block(block: &[u8]) -> (res: QuantBlock)
    requires
        block@.len() == 144,
    ensures
        res.d == spec_le_u16(block@),
        res.dmin == spec_le_u16(block@.subrange(2, 4)),
        res.scales@.len() == 8,
        res.mins@.len() == 8,
        forall|g: int| 0 <= g < 8 ==> res.scales@[g] as int == spec_q4_k_scale(block@.subrange(4, 16), g),
        forall|g: int| 0 <= g < 8 ==> res.mins@[g] as int == spec_q4_k_min(block@.subrange(4, 16), g),
        res.quants@.len() == 256,
        forall|e: int| 0 <= e < 256 ==> res.quants@[e] == spec_q4_k_quant(block@, e),
        res.d as int == block@[0] as int + 256 * block@[1] as int,
        res.dmin as int == block@[2] as int + 256 * block@[3] as int,
        forall|g: int|
            0 <= g < 4 ==> #[trigger] res.scales@[g] as int == block@[4 + g] as int % 64 && res.mins@[g] as int
                == block@[8 + g] as int % 64,
        forall|g: int|
            4 <= g < 8 ==> #[trigger] res.scales@[g] as int == block@[8 + g] as int % 16 + 16 * (block@[g] as int
                / 64) && res.mins@[g] as int == block@[8 + g] as int / 16 + 16 * (block@[4 + g] as int
                / 64),
        forall|e: int|
            0 <= e < 256 ==> #[trigger] res.quants@[e] == if e % 2 == 0 {
                block@[16 + e / 2] as int % 16
            } else {
                block@[16 + e / 2] as int / 16
            },
{
    let (d, _) = match read_u16(block, 0) {
        Ok(r) => r,
        Err(_) => (0, 0),
    };
    let (dmin, _) = match read_u16(block, 2) {
        Ok(r) => r,
        Err(_) => (0, 0),
    };
    assert(block@.subrange(0, 2) =~= block@.take(2));
    let packed = slice_subrange(block, 4, 16);
    let mut scales: Vec<u8> = Vec::new();
    let mut mins: Vec<u8> = Vec::new();
    let mut g: usize = 0;
    while g < 8
        invariant
            packed@.len() == 12,
            packed@ == block@.subrange(4, 16),
            g <= 8,
            scales@.len() == g,
            mins@.len() == g,
            forall|k: int| 0 <= k < g ==> scales@[k] as int == spec_q4_k_scale(packed@, k),
            forall|k: int| 0 <= k < g ==> mins@[k] as int == spec_q4_k_min(packed@, k),
        decreases 8 - g,
    {
        let (sc, mn) = q4_k_scale_min(packed, g);
        scales.push(sc);
        mins.push(mn);
        g = g + 1;
    }
    let mut quants: Vec<i32> = Vec::new();
    let mut e: usize = 0;
    while e < 256
        invariant
            block@.len() == 144,
            e <= 256,
            quants@.len() == e,
            forall|k: int| 0 <= k < e ==> quants@[k] == spec_q4_k_quant(block@, k),
        decreases 256 - e,
    {
        let b = block[16 + e / 2];
        let q = if e % 2 == 0 {
            assert((b & 0x0F) as int == b as int % 16) by (bit_vector);
            b & 0x0F
        } else {
            assert((b >> 4) as int == b as int / 16) by (bit_vector);
            b >> 4
        };
        quants.push(q as i32);
        e = e + 1;
    }
    QuantBlock { d, dmin, scales, mins, quants }
}

/// In a Q4_0 block, element `j` of the first half takes the low nibble of
/// quant byte `j` and element `j + 16` its high nibble, both offset by -8.
pub proof fn lemma_q4_0_nibble_order(block: Seq<u8>, j: int)
    requires
        block.len() == 18,
        0 <= j < 16,
    ensures
        spec_q4_0_quant(block, j) == block[2 + j] as int % 16 - 8,
        spec_q4_0_quant(block, j + 16) == block[2 + j] as int / 16 - 8,
        -8 <= spec_q4_0_quant(block, j) < 8,
{
}

/// In a Q4_K block, the elements `2 j` and `2 j + 1` take the low and the
/// high nibble of quant byte `j`; scales and minimums are six-bit values.
pub proof fn lemma_q4_k_nibble_order(block: Seq<u8>, j: int)
    requires
        block.len() == 144,
        0 <= j < 128,
    ensures
        spec_q4_k_quant(block, 2 * j) == block[16 + j] as int % 16,
        spec_q4_k_quant(block, 2 * j + 1) == block[16 + j] as int / 16,
{
    assert((2 * j) % 2 == 0 && (2 * j) / 2 == j);
    assert((2 * j + 1) % 2 == 1 && (2 * j + 1) / 2 == j);
}

/// The scale of a Q4_K block is the little-endian `u16` of its first two
/// bytes, the minimum that of the next two.
pub proof fn lemma_block_scale_bytes(block: Seq<u8>)
    requires
        block.len() >= 4,
    ensures
        spec_le_u16(block) as int == block[0] as int + 256 * block[1] as int,
        spec_le_u16(block.subrange(2, 4)) as int == block[2] as int + 256 * block[3] as int,
{
}

/// The six-bit scales and minimums of a Q4_K block: groups 0 to 3 keep them
/// whole in the low six bits of bytes 4 to 11; groups 4 to 7 join a nibble of
/// bytes 12 to 15 with the top two bits of bytes 4 to 11.
pub proof fn lemma_q4_k_scale_bits(block: Seq<u8>, g: int)
    requires
        block.len() == 144,
        0 <= g < 8,
    ensures
        0 <= spec_q4_k_scale(block.subrange(4, 16), g) < 64,
        0 <= spec_q4_k_min(block.subrange(4, 16), g) < 64,
        g < 4 ==> spec_q4_k_scale(block.subrange(4, 16), g) == block[4 + g] as int % 64,
        g < 4 ==> spec_q4_k_min(block.subrange(4, 16), g) == block[8 + g] as int % 64,
        g >= 4 ==> spec_q4_k_scale(block.subrange(4, 16), g) == block[8 + g] as int % 16 + 16 * (
        block[g] as int / 64),
        g >= 4 ==> spec_q4_k_min(block.subrange(4, 16), g) == block[8 + g] as int / 16 + 16 * (
        block[4 + g] as int / 64),
{
}

} // verus!
