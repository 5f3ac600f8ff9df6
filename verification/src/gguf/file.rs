//! The GGUF file: header, metadata table and tensor-info table.
use super::error::Error;
use super::reader::{
    prepend_all, read_string, read_u32, read_u64, spec_read_string, spec_read_u32,
    spec_read_u64,
};
use super::tensor::{
    spec_byte_size, spec_div_ceil, spec_product, spec_read_tensor_info, tensor_sizes_fit, TensorInfo,
    TensorInfoModel,
};
use super::types::lemma_tensor_type_storage;
use crate::text::str_eq;
use super::types::{spec_value_type_from_u32, ValueType};
use super::value::{model_value_type, spec_read_value, Value, ValueModel};
use vstd::prelude::*;

verus! {

/// Parsed header of a GGUF file.
#[derive(Clone, Copy, Debug, PartialEq, Eq, Structural)]
pub struct Header {
    pub version: u32,
    pub n_tensors: u64,
    pub n_kv: u64,
}

/// A metadata key-value pair.
#[derive(Debug, PartialEq)]
pub struct Metadata {
    pub key: String,
    pub value: Value,
}

/// The mathematical content of a [`Metadata`] pair.
pub struct MetadataModel {
    pub key: Seq<char>,
    pub value: ValueModel,
}

impl View for Metadata {
    type V = MetadataModel;

    open spec fn view(&self) -> MetadataModel {
        MetadataModel { key: self.key@, value: self.value@ }
    }
}

/// A fully parsed GGUF file descriptor.
///
/// This structure does **not** own the tensor weight data; it only holds the
/// metadata and tensor info tables. Use [`TensorInfo::data_offset`] with
/// `tensor_data_offset` to locate raw tensor bytes in the file.
#[derive(Debug, PartialEq)]
pub struct GgufFile {
    pub header: Header,
    pub metadata: Vec<Metadata>,
    pub tensors: Vec<TensorInfo>,
    /// Absolute file offset where the tensor data region begins.
    pub tensor_data_offset: u64,
}

/// The mathematical content of a [`GgufFile`].
pub struct GgufModel {
    pub header: Header,
    pub metadata: Seq<MetadataModel>,
    pub tensors: Seq<TensorInfoModel>,
    pub tensor_data_offset: u64,
}

impl View for GgufFile {
    type V = GgufModel;

    open spec fn view(&self) -> GgufModel {
        GgufModel {
            header: self.header,
            metadata: self.metadata@.map_values(|m: Metadata| m@),
            tensors: self.tensors@.map_values(|t: TensorInfo| t@),
            tensor_data_offset: self.tensor_data_offset,
        }
    }
}

/// The four magic bytes a GGUF file starts with: `"GGUF"`.
pub open spec fn gguf_magic() -> Seq<u8> {
    seq![0x47u8, 0x47u8, 0x55u8, 0x46u8]
}

/// GGUF versions this parser supports.
pub open spec fn supported_version(v: u32) -> bool {
    v == 2 || v == 3
}

/// Decoding of the header: the magic, the version, the number of tensors and
/// the number of metadata pairs.
pub open spec fn spec_read_header(b: Seq<u8>) -> Result<(Header, int), Error> {
    if b.len() < 4 {
        Err(Error::UnexpectedEof)
    } else if b.take(4) != gguf_magic() {
        Err(Error::InvalidMagic([b[0], b[1], b[2], b[3]]))
    } else {
        match spec_read_u32(b, 4) {
            Err(e) => Err(e),
            Ok((version, p1)) => if !supported_version(version) {
                Err(Error::UnsupportedVersion(version))
            } else {
                match spec_read_u64(b, p1) {
                    Err(e) => Err(e),
                    Ok((n_tensors, p2)) => match spec_read_u64(b, p2) {
                        Err(e) => Err(e),
                        Ok((n_kv, p3)) => Ok((Header { version, n_tensors, n_kv }, p3)),
                    },
                }
            },
        }
    }
}

/// Decoding of one metadata pair: the key, the value type id and the value.
pub open spec fn spec_read_metadata_entry(b: Seq<u8>, pos: int) -> Result<(MetadataModel, int), Error> {
    match spec_read_string(b, pos) {
        Err(e) => Err(e),
        Ok((key, p1)) => match spec_read_u32(b, p1) {
            Err(e) => Err(e),
            Ok((t, p2)) => match spec_value_type_from_u32(t) {
                Err(e) => Err(e),
                Ok(ty) => match spec_read_value(b, p2, ty) {
                    Err(e) => Err(e),
                    Ok((value, p3)) => Ok((MetadataModel { key, value }, p3)),
                },
            },
        },
    }
}

/// Decoding of `n` consecutive metadata pairs.
pub open spec fn spec_read_metadata(b: Seq<u8>, pos: int, n: nat) -> Result<(Seq<MetadataModel>, int), Error>
    decreases n,
{
    if n == 0 {
        Ok((Seq::empty(), pos))
    } else {
        match spec_read_metadata_entry(b, pos) {
            Err(e) => Err(e),
            Ok((m, p)) => prepend_all(seq![m], spec_read_metadata(b, p, (n - 1) as nat)),
        }
    }
}

/// Decoding of `n` consecutive tensor-info records.
pub open spec fn spec_read_tensors(b: Seq<u8>, pos: int, n: nat) -> Result<(Seq<TensorInfoModel>, int), Error>
    decreases n,
{
    if n == 0 {
        Ok((Seq::empty(), pos))
    } else {
        match spec_read_tensor_info(b, pos) {
            Err(e) => Err(e),
            Ok((t, p)) => prepend_all(seq![t], spec_read_tensors(b, p, (n - 1) as nat)),
        }
    }
}

/// The tensor data region starts at the next multiple of 32 bytes.
pub open spec fn spec_align(offset: int) -> int {
    spec_div_ceil(offset, 32) * 32
}

/// Decoding of a whole GGUF file: header, metadata table, tensor-info table,
/// and the aligned start of the tensor data region.
pub open spec fn spec_read_file(b: Seq<u8>) -> Result<GgufModel, Error> {
    match spec_read_header(b) {
        Err(e) => Err(e),
        Ok((header, p1)) => match spec_read_metadata(b, p1, header.n_kv as nat) {
            Err(e) => Err(e),
            Ok((metadata, p2)) => match spec_read_tensors(b, p2, header.n_tensors as nat) {
                Err(e) => Err(e),
                Ok((tensors, p3)) => Ok(
                    GgufModel {
                        header,
                        metadata,
                        tensors,
                        tensor_data_offset: spec_align(p3) as u64,
                    },
                ),
            },
        },
    }
}

/// Index of the first metadata pair with the given key, searching from `i` on.
pub open spec fn spec_find_key(ms: Seq<MetadataModel>, key: Seq<char>, i: int) -> Option<int>
    decreases ms.len() - i,
{
    if i < 0 || i >= ms.len() {
        None
    } else if ms[i].key == key {
        Some(i)
    } else {
        spec_find_key(ms, key, i + 1)
    }
}

/// Index of the first tensor with the given name, searching from `i` on.
pub open spec fn spec_find_tensor(ts: Seq<TensorInfoModel>, name: Seq<char>, i: int) -> Option<int>
    decreases ts.len() - i,
{
    if i < 0 || i >= ts.len() {
        None
    } else if ts[i].name == name {
        Some(i)
    } else {
        spec_find_tensor(ts, name, i + 1)
    }
}

/// A found tensor index lies within the table.
pub proof fn lemma_find_tensor_in_range(ts: Seq<TensorInfoModel>, name: Seq<char>, i: int)
    ensures
        spec_find_tensor(ts, name, i) matches Some(j) ==> i <= j < ts.len() && ts[j].name == name,
    decreases ts.len() - i,
{
    if 0 <= i < ts.len() && ts[i].name != name {
        lemma_find_tensor_in_range(ts, name, i + 1);
    }
}

/// A found metadata index lies within the table.
pub proof fn lemma_find_key_in_range(ms: Seq<MetadataModel>, key: Seq<char>, i: int)
    ensures
        spec_find_key(ms, key, i) matches Some(j) ==> i <= j < ms.len() && ms[j].key == key,
    decreases ms.len() - i,
{
    if 0 <= i < ms.len() && ms[i].key != key {
        lemma_find_key_in_range(ms, key, i + 1);
    }
}

/// The value stored under `key` (the first pair with that key), if any.
pub open spec fn spec_get(f: GgufModel, key: Seq<char>) -> Option<ValueModel> {
    match spec_find_key(f.metadata, key, 0) {
        Some(i) => Some(f.metadata[i].value),
        None => None,
    }
}

/// A metadata value read as a `u32`: integers are converted with `as`,
/// everything else has no `u32` reading.
pub open spec fn spec_value_as_u32(v: ValueModel) -> Option<u32> {
    match v {
        ValueModel::Uint8(x) => Some(x as u32),
        ValueModel::Int8(x) => Some(x as u32),
        ValueModel::Uint16(x) => Some(x as u32),
        ValueModel::Int16(x) => Some(x as u32),
        ValueModel::Uint32(x) => Some(x),
        ValueModel::Int32(x) => Some(x as u32),
        ValueModel::Uint64(x) => Some(x as u32),
        ValueModel::Int64(x) => Some(x as u32),
        _ => None,
    }
}

/// A metadata value read as a `u64`: integers are converted with `as`,
/// everything else has no `u64` reading.
pub open spec fn spec_value_as_u64(v: ValueModel) -> Option<u64> {
    match v {
        ValueModel::Uint8(x) => Some(x as u64),
        ValueModel::Int8(x) => Some(x as u64),
        ValueModel::Uint16(x) => Some(x as u64),
        ValueModel::Int16(x) => Some(x as u64),
        ValueModel::Uint32(x) => Some(x as u64),
        ValueModel::Int32(x) => Some(x as u64),
        ValueModel::Uint64(x) => Some(x),
        ValueModel::Int64(x) => Some(x as u64),
        _ => None,
    }
}

/// The `u32` reading of the value under `key`, if any.
pub open spec fn spec_get_u32(f: GgufModel, key: Seq<char>) -> Option<u32> {
    match spec_get(f, key) {
        Some(v) => spec_value_as_u32(v),
        None => None,
    }
}

/// The `u64` reading of the value under `key`, if any.
pub open spec fn spec_get_u64(f: GgufModel, key: Seq<char>) -> Option<u64> {
    match spec_get(f, key) {
        Some(v) => spec_value_as_u64(v),
        None => None,
    }
}

/// The string under `key`, if the value there is a string.
pub open spec fn spec_get_string(f: GgufModel, key: Seq<char>) -> Option<Seq<char>> {
    match spec_get(f, key) {
        Some(ValueModel::String(s)) => Some(s),
        _ => None,
    }
}

impl Metadata {
    /// The type of the stored value.
    pub fn value_type(&self) -> (res: ValueType)
        ensures
            res == model_value_type(self@.value),
    {
        self.value.value_type()
    }
}

} // verus!

verus! {

/// Round `offset` up to the 32-byte alignment of the tensor data region.
fn align_offset(offset: u64) -> (res: u64)
    requires
        offset <= u64::MAX - 31,
    ensures
        res == spec_align(offset as int),
        res % 32 == 0,
        offset <= res < offset + 32,
{
    let q = offset / 32 + if offset % 32 == 0 {
        0
    } else {
        1
    };
    q * 32
}

fn read_header(bytes: &[u8]) -> (res: Result<(Header, usize), Error>)
    ensures
        match res {
            Ok((h, p)) => spec_read_header(bytes@) == Ok::<(Header, int), Error>((h, p as int)),
            Err(e) => spec_read_header(bytes@) == Err::<(Header, int), Error>(e),
        },
{
    if bytes.len() < 4 {
        return Err(Error::UnexpectedEof);
    }
    let magic = [bytes[0], bytes[1], bytes[2], bytes[3]];
    if !(magic[0] == 0x47 && magic[1] == 0x47 && magic[2] == 0x55 && magic[3] == 0x46) {
        assert(bytes@.take(4) != gguf_magic()) by {
            if bytes@.take(4) == gguf_magic() {
                assert(bytes@.take(4)[0] == gguf_magic()[0]);
                assert(bytes@.take(4)[1] == gguf_magic()[1]);
                assert(bytes@.take(4)[2] == gguf_magic()[2]);
                assert(bytes@.take(4)[3] == gguf_magic()[3]);
            }
        }
        return Err(Error::InvalidMagic(magic));
    }
    assert(bytes@.take(4) =~= gguf_magic());
    let (version, p1) = read_u32(bytes, 4)?;
    if !(version == 2 || version == 3) {
        return Err(Error::UnsupportedVersion(version));
    }
    let (n_tensors, p2) = read_u64(bytes, p1)?;
    let (n_kv, p3) = read_u64(bytes, p2)?;
    Ok((Header { version, n_tensors, n_kv }, p3))
}

fn read_metadata_entry(bytes: &[u8], pos: usize) -> (res: Result<(Metadata, usize), Error>)
    ensures
        match res {
            Ok((m, p)) => spec_read_metadata_entry(bytes@, pos as int) == Ok::<
                (MetadataModel, int),
                Error,
            >((m@, p as int)) && p <= bytes@.len(),
            Err(e) => spec_read_metadata_entry(bytes@, pos as int) == Err::<
                (MetadataModel, int),
                Error,
            >(e),
        },
{
    let (key, p1) = read_string(bytes, pos)?;
    let (t, p2) = read_u32(bytes, p1)?;
    let value_type = ValueType::from_u32(t)?;
    let (value, p3) = Value::read(bytes, p2, value_type)?;
    Ok((Metadata { key, value }, p3))
}

impl GgufFile {
    /// Parse a GGUF file held in memory.
    pub fn read(bytes: &[u8]) -> (res: Result<Self, Error>)
        requires
            bytes@.len() <= isize::MAX,
        ensures
            match res {
                Ok(f) => spec_read_file(bytes@) == Ok::<GgufModel, Error>(f@),
                Err(e) => spec_read_file(bytes@) == Err::<GgufModel, Error>(e),
            },
    {
        let (header, p1) = read_header(bytes)?;
        let (metadata, p2) = Self::read_metadata(bytes, p1, header.n_kv)?;
        let (tensors, p3) = Self::read_tensors(bytes, p2, header.n_tensors)?;
        let tensor_data_offset = align_offset(p3 as u64);
        let f = GgufFile { header, metadata, tensors, tensor_data_offset };
        assert(f@.metadata =~= metadata@.map_values(|m: Metadata| m@));
        Ok(f)
    }

    fn read_metadata(bytes: &[u8], pos: usize, n_kv: u64) -> (res: Result<(Vec<Metadata>, usize), Error>)
        requires
            pos <= bytes@.len(),
        ensures
            match res {
                Ok((ms, p)) => spec_read_metadata(bytes@, pos as int, n_kv as nat) == Ok::<
                    (Seq<MetadataModel>, int),
                    Error,
                >((ms@.map_values(|m: Metadata| m@), p as int)) && p <= bytes@.len(),
                Err(e) => spec_read_metadata(bytes@, pos as int, n_kv as nat) == Err::<
                    (Seq<MetadataModel>, int),
                    Error,
                >(e),
            },
    {
        let mut metadata: Vec<Metadata> = Vec::new();
        let mut cur = pos;
        let mut i: u64 = 0;
        assert(metadata@.map_values(|m: Metadata| m@) + Seq::<MetadataModel>::empty()
            =~= Seq::<MetadataModel>::empty());
        while i < n_kv
            invariant
                i <= n_kv,
                cur <= bytes@.len(),
                spec_read_metadata(bytes@, pos as int, n_kv as nat) == prepend_all(
                    metadata@.map_values(|m: Metadata| m@),
                    spec_read_metadata(bytes@, cur as int, (n_kv - i) as nat),
                ),
            decreases n_kv - i,
        {
            let ghost before = metadata@.map_values(|m: Metadata| m@);
            let (m, next) = match read_metadata_entry(bytes, cur) {
                Ok(r) => r,
                Err(e) => {
                    assert(spec_read_metadata(bytes@, cur as int, (n_kv - i) as nat) == Err::<
                        (Seq<MetadataModel>, int),
                        Error,
                    >(e));
                    return Err(e);
                },
            };
            metadata.push(m);
            assert(metadata@.map_values(|m: Metadata| m@) =~= before + seq![m@]);
            proof {
                let rest = spec_read_metadata(bytes@, next as int, (n_kv - i - 1) as nat);
                match rest {
                    Ok((vs, pe)) => {
                        assert(before + (seq![m@] + vs) =~= before + seq![m@] + vs);
                    },
                    Err(_) => {},
                }
            }
            cur = next;
            i = i + 1;
        }
        assert(metadata@.map_values(|m: Metadata| m@) + Seq::<MetadataModel>::empty()
            =~= metadata@.map_values(|m: Metadata| m@));
        Ok((metadata, cur))
    }

    fn read_tensors(bytes: &[u8], pos: usize, n_tensors: u64) -> (res: Result<(Vec<TensorInfo>, usize), Error>)
        requires
            pos <= bytes@.len(),
        ensures
            match res {
                Ok((ts, p)) => spec_read_tensors(bytes@, pos as int, n_tensors as nat) == Ok::<
                    (Seq<TensorInfoModel>, int),
                    Error,
                >((ts@.map_values(|t: TensorInfo| t@), p as int)) && p <= bytes@.len(),
                Err(e) => spec_read_tensors(bytes@, pos as int, n_tensors as nat) == Err::<
                    (Seq<TensorInfoModel>, int),
                    Error,
                >(e),
            },
    {
        let mut tensors: Vec<TensorInfo> = Vec::new();
        let mut cur = pos;
        let mut i: u64 = 0;
        assert(tensors@.map_values(|t: TensorInfo| t@) + Seq::<TensorInfoModel>::empty()
            =~= Seq::<TensorInfoModel>::empty());
        while i < n_tensors
            invariant
                i <= n_tensors,
                cur <= bytes@.len(),
                spec_read_tensors(bytes@, pos as int, n_tensors as nat) == prepend_all(
                    tensors@.map_values(|t: TensorInfo| t@),
                    spec_read_tensors(bytes@, cur as int, (n_tensors - i) as nat),
                ),
            decreases n_tensors - i,
        {
            let ghost before = tensors@.map_values(|t: TensorInfo| t@);
            let (t, next) = match TensorInfo::read(bytes, cur) {
                Ok(r) => r,
                Err(e) => {
                    assert(spec_read_tensors(bytes@, cur as int, (n_tensors - i) as nat) == Err::<
                        (Seq<TensorInfoModel>, int),
                        Error,
                    >(e));
                    return Err(e);
                },
            };
            tensors.push(t);
            assert(tensors@.map_values(|t: TensorInfo| t@) =~= before + seq![t@]);
            proof {
                let rest = spec_read_tensors(bytes@, next as int, (n_tensors - i - 1) as nat);
                match rest {
                    Ok((vs, pe)) => {
                        assert(before + (seq![t@] + vs) =~= before + seq![t@] + vs);
                    },
                    Err(_) => {},
                }
            }
            cur = next;
            i = i + 1;
        }
        assert(tensors@.map_values(|t: TensorInfo| t@) + Seq::<TensorInfoModel>::empty()
            =~= tensors@.map_values(|t: TensorInfo| t@));
        Ok((tensors, cur))
    }
}

} // verus!

verus! {

/// Byte size of one tensor's data.
pub open spec fn spec_tensor_size(t: TensorInfoModel) -> int {
    match spec_byte_size(t.ty, spec_product(t.shape) as u64) {
        Some(s) => s as int,
        None => 0,
    }
}

/// Total byte size of the data of all the given tensors.
pub open spec fn spec_total_size(ts: Seq<TensorInfoModel>) -> int
    decreases ts.len(),
{
    if ts.len() == 0 {
        0
    } else {
        spec_total_size(ts.drop_last()) + spec_tensor_size(ts.last())
    }
}

/// Every tensor's size computations stay within machine integers, and the
/// sizes add up to at most `u64::MAX`.
pub open spec fn total_size_fits(ts: Seq<TensorInfoModel>) -> bool {
    &&& forall|i: int| 0 <= i < ts.len() ==> tensor_sizes_fit(#[trigger] ts[i])
    &&& spec_total_size(ts) <= u64::MAX
}

proof fn lemma_total_size_monotone(ts: Seq<TensorInfoModel>, i: int)
    requires
        0 <= i <= ts.len(),
    ensures
        0 <= spec_total_size(ts.take(i)) <= spec_total_size(ts),
    decreases ts.len() - i,
{
    if i < ts.len() {
        lemma_total_size_monotone(ts, i + 1);
        assert(ts.take(i + 1).drop_last() =~= ts.take(i));
        assert(ts.take(i + 1).last() == ts[i]);
        lemma_total_size_nonneg(ts.take(i));
    } else {
        assert(ts.take(i) =~= ts);
        lemma_total_size_nonneg(ts);
    }
}

proof fn lemma_total_size_nonneg(ts: Seq<TensorInfoModel>)
    ensures
        spec_total_size(ts) >= 0,
    decreases ts.len(),
{
    if ts.len() > 0 {
        lemma_total_size_nonneg(ts.drop_last());
    }
}

impl GgufFile {
    /// Look up a metadata value by key.
    pub fn get(&self, key: &str) -> (res: Option<&Value>)
        ensures
            res == match spec_find_key(self@.metadata, key@, 0) {
                Some(i) => Some(&self.metadata@[i].value),
                None => None::<&Value>,
            },
            res matches Some(v) ==> spec_get(self@, key@) == Some(v@),
            res is None ==> spec_get(self@, key@) is None,
    {
        let n = self.metadata.len();
        let mut i: usize = 0;
        while i < n
            invariant
                n == self.metadata@.len(),
                i <= n,
                spec_find_key(self@.metadata, key@, 0) == spec_find_key(self@.metadata, key@, i as int),
            decreases n - i,
        {
            if str_eq(self.metadata[i].key.as_str(), key) {
                return Some(&self.metadata[i].value);
            }
            i = i + 1;
        }
        None
    }

    /// Find a tensor by name.
    pub fn tensor(&self, name: &str) -> (res: Option<&TensorInfo>)
        ensures
            res == match spec_find_tensor(self@.tensors, name@, 0) {
                Some(i) => Some(&self.tensors@[i]),
                None => None::<&TensorInfo>,
            },
    {
        proof {
            lemma_find_tensor_in_range(self@.tensors, name@, 0);
        }
        match self.tensor_index(name) {
            Some(i) => {
                assert(spec_find_tensor(self@.tensors, name@, 0) == Some(i as int));
                Some(&self.tensors[i])
            },
            None => None,
        }
    }

    /// Find the index of a tensor by name.
    pub fn tensor_index(&self, name: &str) -> (res: Option<usize>)
        ensures
            match spec_find_tensor(self@.tensors, name@, 0) {
                Some(i) => res matches Some(r) && r as int == i,
                None => res is None,
            },
            res matches Some(i) ==> i < self.tensors@.len() && self.tensors@[i as int].name@ == name@,
    {
        let n = self.tensors.len();
        let mut i: usize = 0;
        while i < n
            invariant
                n == self.tensors@.len(),
                i <= n,
                spec_find_tensor(self@.tensors, name@, 0) == spec_find_tensor(self@.tensors, name@, i as int),
            decreases n - i,
        {
            if str_eq(self.tensors[i].name.as_str(), name) {
                return Some(i);
            }
            i = i + 1;
        }
        None
    }

    /// Total byte size of all tensor weight data, if every type is known.
    pub fn total_tensor_data_size(&self) -> (res: Option<u64>)
        requires
            total_size_fits(self@.tensors),
        ensures
            res == Some(spec_total_size(self@.tensors) as u64),
    {
        let ghost ts = self@.tensors;
        let n = self.tensors.len();
        let mut total: u64 = 0;
        let mut i: usize = 0;
        assert(ts.take(0) =~= Seq::<TensorInfoModel>::empty());
        while i < n
            invariant
                n == self.tensors@.len() == ts.len(),
                ts == self@.tensors,
                i <= n,
                total_size_fits(ts),
                total == spec_total_size(ts.take(i as int)),
            decreases n - i,
        {
            proof {
                lemma_total_size_monotone(ts, i + 1);
                assert(ts.take(i + 1).drop_last() =~= ts.take(i as int));
                assert(tensor_sizes_fit(ts[i as int]));
                lemma_tensor_type_storage(ts[i as int].ty);
            }
            let size = match self.tensors[i].byte_size() {
                Some(s) => s as u64,
                None => {
                    return None;
                },
            };
            total = total + size;
            i = i + 1;
        }
        assert(ts.take(n as int) =~= ts);
        Some(total)
    }

    /// Whether [`GgufFile::total_tensor_data_size`] can be computed: every
    /// tensor's size computations fit, and so does their sum.
    pub fn total_size_is_defined(&self) -> (res: bool)
        ensures
            res == total_size_fits(self@.tensors),
    {
        let ghost ts = self@.tensors;
        let n = self.tensors.len();
        let mut total: u64 = 0;
        let mut i: usize = 0;
        assert(ts.take(0) =~= Seq::<TensorInfoModel>::empty());
        while i < n
            invariant
                n == self.tensors@.len() == ts.len(),
                ts == self@.tensors,
                i <= n,
                forall|j: int| 0 <= j < i ==> tensor_sizes_fit(#[trigger] ts[j]),
                total == spec_total_size(ts.take(i as int)),
            decreases n - i,
        {
            assert(ts[i as int] == self.tensors@[i as int]@);
            if !self.tensors[i].byte_size_is_defined() {
                return false;
            }
            proof {
                lemma_total_size_monotone(ts, i + 1);
                assert(ts.take(i + 1).drop_last() =~= ts.take(i as int));
                lemma_tensor_type_storage(ts[i as int].ty);
            }
            let size = match self.tensors[i].byte_size() {
                Some(s) => s as u64,
                None => 0,
            };
            match total.checked_add(size) {
                Some(t) => {
                    total = t;
                },
                None => {
                    return false;
                },
            }
            i = i + 1;
        }
        assert(ts.take(n as int) =~= ts);
        true
    }

    /// Get a metadata value as `u32`.
    pub fn get_u32(&self, key: &str) -> (res: Option<u32>)
        ensures
            res == spec_get_u32(self@, key@),
    {
        match self.get(key) {
            Some(Value::Uint8(v)) => Some(*v as u32),
            Some(Value::Int8(v)) => Some(*v as u32),
            Some(Value::Uint16(v)) => Some(*v as u32),
            Some(Value::Int16(v)) => Some(*v as u32),
            Some(Value::Uint32(v)) => Some(*v),
            Some(Value::Int32(v)) => Some(*v as u32),
            Some(Value::Uint64(v)) => Some(*v as u32),
            Some(Value::Int64(v)) => Some(*v as u32),
            _ => None,
        }
    }

    /// Get a metadata value as `u64`.
    pub fn get_u64(&self, key: &str) -> (res: Option<u64>)
        ensures
            res == spec_get_u64(self@, key@),
    {
        match self.get(key) {
            Some(Value::Uint8(v)) => Some(*v as u64),
            Some(Value::Int8(v)) => Some(*v as u64),
            Some(Value::Uint16(v)) => Some(*v as u64),
            Some(Value::Int16(v)) => Some(*v as u64),
            Some(Value::Uint32(v)) => Some(*v as u64),
            Some(Value::Int32(v)) => Some(*v as u64),
            Some(Value::Uint64(v)) => Some(*v),
            Some(Value::Int64(v)) => Some(*v as u64),
            _ => None,
        }
    }

    /// Get a metadata value as a string slice.
    pub fn get_string(&self, key: &str) -> (res: Option<&str>)
        ensures
            match spec_get_string(self@, key@) {
                Some(s) => res matches Some(r) && r@ == s,
                None => res is None,
            },
    {
        match self.get(key) {
            Some(Value::String(s)) => Some(s.as_str()),
            _ => None,
        }
    }
}

} // verus!
