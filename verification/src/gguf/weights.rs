//! The bytes of a GGUF file together with its parsed tables.
use super::error::Error;
use super::file::{spec_find_tensor, spec_read_file, GgufFile, GgufModel, lemma_find_tensor_in_range};
use super::tensor::{spec_byte_size, spec_product, tensor_sizes_fit, TensorInfo, TensorInfoModel};
use super::types::{lemma_tensor_type_storage, tensor_type_id};
use vstd::prelude::*;
use vstd::slice::slice_subrange;
use vstd::string::StringExecFns;

verus! {

/// Whether the byte range of a tensor can be computed without overflowing:
/// its size computations fit, and its offset added to the start of the data
/// region fits in a `u64`.
pub open spec fn tensor_range_defined(t: TensorInfoModel, tensor_data_offset: u64) -> bool {
    tensor_sizes_fit(t) && tensor_data_offset + t.offset <= u64::MAX
}

/// Where the raw bytes of a tensor lie in a file of `len` bytes: from the
/// start of the data region plus the tensor's offset, for its byte size.
pub open spec fn spec_tensor_range(t: TensorInfoModel, tensor_data_offset: u64, len: int) -> Result<(int, int), Error> {
    match spec_byte_size(t.ty, spec_product(t.shape) as u64) {
        None => Err(Error::UnknownTensorType(tensor_type_id(t.ty))),
        Some(size) => {
            let start = tensor_data_offset + t.offset;
            if start > usize::MAX {
                Err(Error::TensorOffsetOverflow)
            } else if start + size > usize::MAX {
                Err(Error::TensorOffsetOverflow)
            } else if start + size > len {
                Err(Error::UnexpectedEof)
            } else {
                Ok((start, start + size))
            }
        },
    }
}

/// The raw bytes of a tensor within the file `data`, or why they cannot be had.
pub open spec fn spec_tensor_bytes(t: TensorInfoModel, tensor_data_offset: u64, data: Seq<u8>) -> Result<Seq<u8>, Error> {
    match spec_tensor_range(t, tensor_data_offset, data.len() as int) {
        Ok((start, end)) => Ok(data.subrange(start, end)),
        Err(e) => Err(e),
    }
}

/// Relates a returned byte slice to the specification of those bytes.
pub open spec fn bytes_agree(res: Result<&[u8], Error>, spec: Result<Seq<u8>, Error>) -> bool {
    match res {
        Ok(b) => spec == Ok::<Seq<u8>, Error>(b@),
        Err(e) => spec == Err::<Seq<u8>, Error>(e),
    }
}

/// A GGUF file held in memory together with its parsed tables.
///
/// Tensor bytes are returned as sub-slices of the file's bytes, so no weight
/// data is copied during lookup.
#[derive(Debug)]
pub struct Weights {
    file: GgufFile,
    data: Vec<u8>,
}

impl View for Weights {
    type V = (GgufModel, Seq<u8>);

    /// The parsed tables and the bytes of the file.
    closed spec fn view(&self) -> (GgufModel, Seq<u8>) {
        (self.file@, self.data@)
    }
}

impl Weights {
    /// Parse the bytes of a GGUF file and keep them for tensor lookup.
    pub fn from_bytes(data: Vec<u8>) -> (res: Result<Self, Error>)
        requires
            data@.len() <= isize::MAX,
        ensures
            match res {
                Ok(w) => spec_read_file(data@) == Ok::<GgufModel, Error>(w@.0) && w@.1 == data@,
                Err(e) => spec_read_file(data@) == Err::<GgufModel, Error>(e),
            },
    {
        let file = GgufFile::read(data.as_slice())?;
        Ok(Weights { file, data })
    }

    /// Access the parsed GGUF metadata and tensor info table.
    pub fn file(&self) -> (res: &GgufFile)
        ensures
            res@ == self@.0,
    {
        &self.file
    }

    /// Return the raw bytes for the tensor with the given name.
    ///
    /// Returns `Err` if the tensor does not exist, its type size is unknown, or
    /// its byte range falls outside the file.
    pub fn tensor(&self, name: &str) -> (res: Result<&[u8], Error>)
        requires
            spec_find_tensor(self@.0.tensors, name@, 0) matches Some(i) ==> tensor_range_defined(
                self@.0.tensors[i],
                self@.0.tensor_data_offset,
            ),
        ensures
            match spec_find_tensor(self@.0.tensors, name@, 0) {
                Some(i) => bytes_agree(
                    res,
                    spec_tensor_bytes(self@.0.tensors[i], self@.0.tensor_data_offset, self@.1),
                ),
                None => res matches Err(Error::TensorNotFound(n)) && n@ == name@,
            },
    {
        proof {
            lemma_find_tensor_in_range(self@.0.tensors, name@, 0);
        }
        match self.file.tensor_index(name) {
            Some(i) => self.tensor_bytes(&self.file.tensors[i]),
            None => Err(Error::TensorNotFound(String::from_str(name))),
        }
    }

    /// Return the raw bytes for the tensor at the given index in the info table.
    pub fn tensor_by_index(&self, index: usize) -> (res: Result<&[u8], Error>)
        requires
            index < self@.0.tensors.len() ==> tensor_range_defined(
                self@.0.tensors[index as int],
                self@.0.tensor_data_offset,
            ),
        ensures
            if index < self@.0.tensors.len() {
                bytes_agree(
                    res,
                    spec_tensor_bytes(self@.0.tensors[index as int], self@.0.tensor_data_offset, self@.1),
                )
            } else {
                res matches Err(Error::InvalidTensorIndex(i)) && i == index
            },
    {
        if index < self.file.tensors.len() {
            self.tensor_bytes(&self.file.tensors[index])
        } else {
            Err(Error::InvalidTensorIndex(index))
        }
    }

    /// `(name, raw_bytes)` for every tensor in the file, in table order.
    ///
    /// If a tensor cannot be sliced (unknown type or out-of-bounds), its entry
    /// holds the error.
    pub fn tensors(&self) -> (res: Vec<(&str, Result<&[u8], Error>)>)
        requires
            forall|i: int|
                0 <= i < self@.0.tensors.len() ==> tensor_range_defined(
                    #[trigger] self@.0.tensors[i],
                    self@.0.tensor_data_offset,
                ),
        ensures
            res@.len() == self@.0.tensors.len(),
            forall|i: int|
                0 <= i < res@.len() ==> (#[trigger] res@[i]).0@ == self@.0.tensors[i].name
                    && bytes_agree(
                    res@[i].1,
                    spec_tensor_bytes(self@.0.tensors[i], self@.0.tensor_data_offset, self@.1),
                ),
    {
        let n = self.file.tensors.len();
        let mut out: Vec<(&str, Result<&[u8], Error>)> = Vec::new();
        let mut i: usize = 0;
        while i < n
            invariant
                n == self@.0.tensors.len(),
                i <= n,
                out@.len() == i,
                forall|i: int|
                    0 <= i < self@.0.tensors.len() ==> tensor_range_defined(
                        #[trigger] self@.0.tensors[i],
                        self@.0.tensor_data_offset,
                    ),
                forall|j: int|
                    0 <= j < i ==> (#[trigger] out@[j]).0@ == self@.0.tensors[j].name && bytes_agree(
                        out@[j].1,
                        spec_tensor_bytes(self@.0.tensors[j], self@.0.tensor_data_offset, self@.1),
                    ),
            decreases n - i,
        {
            let info = &self.file.tensors[i];
            assert(self@.0.tensors[i as int] == info@);
            let bytes = self.tensor_bytes(info);
            out.push((info.name.as_str(), bytes));
            i = i + 1;
        }
        out
    }

    fn tensor_bytes(&self, info: &TensorInfo) -> (res: Result<&[u8], Error>)
        requires
            tensor_range_defined(info@, self@.0.tensor_data_offset),
        ensures
            bytes_agree(res, spec_tensor_bytes(info@, self@.0.tensor_data_offset, self@.1)),
    {
        proof {
            lemma_tensor_type_storage(info.ty);
        }
        let size = match info.byte_size() {
            Some(s) => s,
            None => {
                return Err(Error::UnknownTensorType(info.ty.id()));
            },
        };
        let start64 = info.data_offset(self.file.tensor_data_offset);
        if start64 > usize::MAX as u64 {
            return Err(Error::TensorOffsetOverflow);
        }
        let start = start64 as usize;
        let end = match start.checked_add(size) {
            Some(e) => e,
            None => {
                return Err(Error::TensorOffsetOverflow);
            },
        };
        if end > self.data.len() {
            return Err(Error::UnexpectedEof);
        }
        Ok(slice_subrange(self.data.as_slice(), start, end))
    }
}

/// The bytes handed out for a tensor are exactly its byte size, taken from
/// the file at the start of the data region plus the tensor's offset.
pub proof fn lemma_tensor_bytes_extent(t: TensorInfoModel, tensor_data_offset: u64, data: Seq<u8>)
    requires
        spec_tensor_bytes(t, tensor_data_offset, data) is Ok,
    ensures
        spec_byte_size(t.ty, spec_product(t.shape) as u64) matches Some(size) && {
            let start = tensor_data_offset + t.offset;
            &&& start + size <= data.len()
            &&& spec_tensor_bytes(t, tensor_data_offset, data) == Ok::<Seq<u8>, Error>(
                data.subrange(start, start + size),
            )
            &&& data.subrange(start, start + size).len() == size
        },
{
}

} // verus!
