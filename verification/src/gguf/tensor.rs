//! Tensor-info records of a GGUF file.
use super::error::Error;
use super::reader::{
    read_string, read_u32, read_u64, spec_le_u64, spec_read_string, spec_read_u32, spec_read_u64,
};
use super::types::{
    spec_block_layout, spec_element_size, spec_tensor_type_from_u32, TensorType,
};
use vstd::prelude::*;

verus! {

/// Description of a single tensor stored in a GGUF file.
#[derive(Clone, Debug, PartialEq)]
pub struct TensorInfo {
    pub name: String,
    pub shape: Vec<u64>,
    pub ty: TensorType,
    /// Offset in bytes from the start of the tensor data region.
    pub offset: u64,
}

/// The mathematical content of a [`TensorInfo`].
pub struct TensorInfoModel {
    pub name: Seq<char>,
    pub shape: Seq<u64>,
    pub ty: TensorType,
    pub offset: u64,
}

impl View for TensorInfo {
    type V = TensorInfoModel;

    open spec fn view(&self) -> TensorInfoModel {
        TensorInfoModel { name: self.name@, shape: self.shape@, ty: self.ty, offset: self.offset }
    }
}

/// Product of the dimensions, multiplied from the first to the last.
pub open spec fn spec_product(s: Seq<u64>) -> int
    decreases s.len(),
{
    if s.len() == 0 {
        1
    } else {
        spec_product(s.drop_last()) * s.last()
    }
}

/// Every running product of the dimensions fits in a `u64`, so that
/// multiplying them out in order never overflows.
pub open spec fn prefix_products_fit(s: Seq<u64>) -> bool {
    forall|i: int| 0 <= i <= s.len() ==> #[trigger] spec_product(s.take(i)) <= u64::MAX
}

/// Ceiling division.
pub open spec fn spec_div_ceil(n: int, d: int) -> int {
    n / d + if n % d == 0 {
        0int
    } else {
        1int
    }
}

/// Whether the byte size of a tensor of type `ty` with `n` elements can be
/// computed without overflowing a `usize`.
pub open spec fn byte_size_fits(ty: TensorType, n: u64) -> bool {
    match spec_element_size(ty) {
        Some(es) => (n as usize) as int * es <= usize::MAX,
        None => match spec_block_layout(ty) {
            Some(l) => (spec_div_ceil(n as int, l.elements as int) as u64 as usize) as int * l.bytes
                <= usize::MAX,
            None => true,
        },
    }
}

/// Byte size of the raw data of a tensor of type `ty` with `n` elements:
/// `n` times the element size, or the number of blocks (rounded up) times
/// the block size.
pub open spec fn spec_byte_size(ty: TensorType, n: u64) -> Option<usize> {
    match spec_element_size(ty) {
        Some(es) => Some(((n as usize) as int * es) as usize),
        None => match spec_block_layout(ty) {
            Some(l) => Some(
                ((spec_div_ceil(n as int, l.elements as int) as u64 as usize) as int
                    * l.bytes) as usize,
            ),
            None => None,
        },
    }
}

/// Whether every size computation of a tensor stays within machine integers.
pub open spec fn tensor_sizes_fit(t: TensorInfoModel) -> bool {
    prefix_products_fit(t.shape) && byte_size_fits(t.ty, spec_product(t.shape) as u64)
}

/// Reading `k` little-endian `u64` dimensions at `pos`.
pub open spec fn spec_read_shape(b: Seq<u8>, pos: int, k: nat) -> Result<(Seq<u64>, int), Error> {
    if 0 <= pos && pos + 8 * k <= b.len() {
        Ok(
            (
                Seq::new(k, |i: int| spec_le_u64(b.subrange(pos + 8 * i, pos + 8 * i + 8))),
                pos + 8 * k,
            ),
        )
    } else {
        Err(Error::UnexpectedEof)
    }
}

/// Decoding of one tensor-info record at `pos`: the name, the number of
/// dimensions (at most 4), the dimensions, the type id and the data offset.
pub open spec fn spec_read_tensor_info(b: Seq<u8>, pos: int) -> Result<(TensorInfoModel, int), Error> {
    match spec_read_string(b, pos) {
        Err(e) => Err(e),
        Ok((name, p1)) => match spec_read_u32(b, p1) {
            Err(e) => Err(e),
            Ok((n_dims, p2)) => if n_dims > 4 {
                Err(Error::InvalidShape { n_dims })
            } else {
                match spec_read_shape(b, p2, n_dims as nat) {
                    Err(e) => Err(e),
                    Ok((shape, p3)) => match spec_read_u32(b, p3) {
                        Err(e) => Err(e),
                        Ok((t, p4)) => match spec_tensor_type_from_u32(t) {
                            Err(e) => Err(e),
                            Ok(ty) => match spec_read_u64(b, p4) {
                                Err(e) => Err(e),
                                Ok((offset, p5)) => Ok(
                                    (TensorInfoModel { name, shape, ty, offset }, p5),
                                ),
                            },
                        },
                    },
                }
            },
        },
    }
}

proof fn lemma_product_take_full(s: Seq<u64>)
    ensures
        s.take(s.len() as int) == s,
{
    assert(s.take(s.len() as int) =~= s);
}

impl TensorInfo {
    /// Number of elements in the tensor.
    pub fn n_elements(&self) -> (res: u64)
        requires
            prefix_products_fit(self.shape@),
        ensures
            res == spec_product(self.shape@),
    {
        let n = self.shape.len();
        let mut p: u64 = 1;
        let mut i: usize = 0;
        assert(self.shape@.take(0) =~= Seq::<u64>::empty());
        while i < n
            invariant
                n == self.shape@.len(),
                i <= n,
                prefix_products_fit(self.shape@),
                p == spec_product(self.shape@.take(i as int)),
            decreases n - i,
        {
            assert(self.shape@.take(i + 1).drop_last() =~= self.shape@.take(i as int));
            assert(spec_product(self.shape@.take(i + 1)) <= u64::MAX);
            p = p * self.shape[i];
            i = i + 1;
        }
        proof {
            lemma_product_take_full(self.shape@);
        }
        p
    }

    /// Number of dimensions.
    pub fn n_dims(&self) -> (res: usize)
        ensures
            res == self.shape@.len(),
    {
        self.shape.len()
    }

    /// Whether [`TensorInfo::byte_size`] can be computed for this tensor:
    /// no running product of the dimensions and no size product overflows.
    pub fn byte_size_is_defined(&self) -> (res: bool)
        ensures
            res == tensor_sizes_fit(self@),
    {
        let n = self.shape.len();
        let mut p: u64 = 1;
        let mut i: usize = 0;
        assert(self.shape@.take(0) =~= Seq::<u64>::empty());
        while i < n
            invariant
                n == self.shape@.len(),
                i <= n,
                p == spec_product(self.shape@.take(i as int)),
                forall|j: int| 0 <= j <= i ==> #[trigger] spec_product(self.shape@.take(j)) <= u64::MAX,
            decreases n - i,
        {
            assert(self.shape@.take(i + 1).drop_last() =~= self.shape@.take(i as int));
            match p.checked_mul(self.shape[i]) {
                Some(q) => {
                    p = q;
                },
                None => {
                    assert(spec_product(self.shape@.take(i + 1)) > u64::MAX);
                    return false;
                },
            }
            i = i + 1;
        }
        proof {
            lemma_product_take_full(self.shape@);
        }
        match self.ty.element_size() {
            Some(es) => (p as usize).checked_mul(es).is_some(),
            None => match self.ty.block_layout() {
                Some(layout) => {
                    let e = layout.elements as u64;
                    let blocks = p / e + if p % e == 0 {
                        0
                    } else {
                        1
                    };
                    (blocks as usize).checked_mul(layout.bytes).is_some()
                },
                None => true,
            },
        }
    }

    /// Byte size of the tensor's raw weight data.
    ///
    /// Returns `None` if the type is unknown to this parser.
    pub fn byte_size(&self) -> (res: Option<usize>)
        requires
            tensor_sizes_fit(self@),
        ensures
            res == spec_byte_size(self.ty, spec_product(self.shape@) as u64),
    {
        let n = self.n_elements();
        if let Some(element_size) = self.ty.element_size() {
            Some(n as usize * element_size)
        } else if let Some(layout) = self.ty.block_layout() {
            let e = layout.elements as u64;
            let blocks = n / e + if n % e == 0 {
                0
            } else {
                1
            };
            Some(blocks as usize * layout.bytes)
        } else {
            None
        }
    }

    /// Absolute file offset where the tensor's data begins.
    ///
    /// `tensor_data_offset` is the offset of the tensor data region from the
    /// beginning of the file (after the header, metadata, tensor info, and
    /// alignment padding).
    pub fn data_offset(&self, tensor_data_offset: u64) -> (res: u64)
        requires
            tensor_data_offset + self.offset <= u64::MAX,
        ensures
            res == tensor_data_offset + self.offset,
    {
        tensor_data_offset + self.offset
    }

    /// Read a tensor-info record from the little-endian bytes at `pos`.
    ///
    /// Returns the record and the position just past it.
    pub fn read(bytes: &[u8], pos: usize) -> (res: Result<(TensorInfo, usize), Error>)
        ensures
            match res {
                Ok((t, p)) => spec_read_tensor_info(bytes@, pos as int) == Ok::<
                    (TensorInfoModel, int),
                    Error,
                >((t@, p as int)),
                Err(e) => spec_read_tensor_info(bytes@, pos as int) == Err::<
                    (TensorInfoModel, int),
                    Error,
                >(e),
            },
    {
        let (name, p1) = read_string(bytes, pos)?;
        let (n_dims, p2) = read_u32(bytes, p1)?;
        if n_dims > 4 {
            return Err(Error::InvalidShape { n_dims });
        }
        let mut shape: Vec<u64> = Vec::new();
        let mut cur = p2;
        let mut i: u32 = 0;
        while i < n_dims
            invariant
                n_dims <= 4,
                i <= n_dims,
                cur == p2 + 8 * i,
                p2 <= bytes@.len(),
                spec_read_string(bytes@, pos as int) == Ok::<(Seq<char>, int), Error>(
                    (name@, p1 as int),
                ),
                spec_read_u32(bytes@, p1 as int) == Ok::<(u32, int), Error>((n_dims, p2 as int)),
                shape@ =~= Seq::new(
                    i as nat,
                    |j: int| spec_le_u64(bytes@.subrange(p2 + 8 * j, p2 + 8 * j + 8)),
                ),
            decreases n_dims - i,
        {
            let (d, next) = match read_u64(bytes, cur) {
                Ok(r) => r,
                Err(e) => {
                    assert(spec_read_shape(bytes@, p2 as int, n_dims as nat) == Err::<
                        (Seq<u64>, int),
                        Error,
                    >(e));
                    return Err(e);
                },
            };
            shape.push(d);
            cur = next;
            i = i + 1;
        }
        let (t, p4) = read_u32(bytes, cur)?;
        let ty = TensorType::from_u32(t)?;
        let (offset, p5) = read_u64(bytes, p4)?;
        Ok((TensorInfo { name, shape, ty, offset }, p5))
    }
}

} // verus!
