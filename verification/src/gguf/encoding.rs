//! The GGUF encoding, written out as a specification, and the law that the
//! parser reads back what the encoding writes.
use super::error::Error;
use super::file::{
    gguf_magic, spec_align, spec_read_file, spec_read_header, spec_read_metadata,
    spec_read_metadata_entry, spec_read_tensors, supported_version, GgufModel, Header, MetadataModel,
};
use super::tensor::{spec_read_shape, spec_read_tensor_info, TensorInfoModel};
use super::types::{lemma_tensor_type_id_roundtrip, tensor_type_id};
use super::reader::{
    spec_le_u16, spec_le_u32, spec_le_u64, spec_read_string, spec_read_u16, spec_read_u32,
    spec_read_u64, spec_read_u8,
};
use super::types::{spec_value_type_from_u32, value_type_id, ValueType, lemma_value_type_id_roundtrip};
use super::value::{model_value_type, spec_read_items, spec_read_value, ValueModel};
use vstd::prelude::*;
use vstd::utf8::{encode_utf8, encode_utf8_decode_utf8, encode_utf8_valid_utf8};

verus! {

/// Little-endian bytes of a `u16`.
pub open spec fn le_u16_bytes(x: u16) -> Seq<u8> {
    seq![(x & 0xff) as u8, ((x >> 8) & 0xff) as u8]
}

/// Little-endian bytes of a `u32`.
pub open spec fn le_u32_bytes(x: u32) -> Seq<u8> {
    seq![(x & 0xff) as u8, ((x >> 8) & 0xff) as u8, ((x >> 16) & 0xff) as u8, ((x >> 24) & 0xff) as u8]
}

/// Little-endian bytes of a `u64`.
pub open spec fn le_u64_bytes(x: u64) -> Seq<u8> {
    le_u32_bytes((x & 0xffff_ffff) as u32) + le_u32_bytes((x >> 32) as u32)
}

/// A GGUF string: its UTF-8 byte length as a `u64`, then the bytes.
pub open spec fn write_string(s: Seq<char>) -> Seq<u8> {
    le_u64_bytes(encode_utf8(s).len() as u64) + encode_utf8(s)
}

/// The encoding of a metadata value (without its type id).
pub open spec fn write_value(v: ValueModel) -> Seq<u8>
    decreases v, 0int,
{
    match v {
        ValueModel::Uint8(x) => seq![x],
        ValueModel::Int8(x) => seq![x as u8],
        ValueModel::Uint16(x) => le_u16_bytes(x),
        ValueModel::Int16(x) => le_u16_bytes(x as u16),
        ValueModel::Uint32(x) => le_u32_bytes(x),
        ValueModel::Int32(x) => le_u32_bytes(x as u32),
        ValueModel::Float32(x) => le_u32_bytes(x),
        ValueModel::Bool(x) => seq![if x { 1u8 } else { 0u8 }],
        ValueModel::String(s) => write_string(s),
        ValueModel::Array(t, items) => le_u32_bytes(value_type_id(t)) + le_u64_bytes(
            items.len() as u64,
        ) + write_items(items),
        ValueModel::Uint64(x) => le_u64_bytes(x),
        ValueModel::Int64(x) => le_u64_bytes(x as u64),
        ValueModel::Float64(x) => le_u64_bytes(x),
    }
}

/// The encodings of array items, one after the other.
pub open spec fn write_items(items: Seq<ValueModel>) -> Seq<u8>
    decreases items, 1int,
{
    if items.len() == 0 {
        Seq::empty()
    } else {
        write_value(items[0]) + write_items(items.subrange(1, items.len() as int))
    }
}

/// A value can be encoded: string lengths and array lengths fit in a `u64`
/// and every array item has the array's item type.
pub open spec fn value_wf(v: ValueModel) -> bool
    decreases v, 0int,
{
    match v {
        ValueModel::String(s) => encode_utf8(s).len() <= u64::MAX,
        ValueModel::Array(t, items) => items.len() <= u64::MAX && items_wf(t, items),
        _ => true,
    }
}

/// Every item has type `t` and can be encoded.
pub open spec fn items_wf(t: ValueType, items: Seq<ValueModel>) -> bool
    decreases items, 1int,
{
    items.len() == 0 || (model_value_type(items[0]) == t && value_wf(items[0]) && items_wf(
        t,
        items.subrange(1, items.len() as int),
    ))
}

proof fn lemma_le_u16(x: u16)
    ensures
        spec_le_u16(le_u16_bytes(x)) == x,
{
    let b0 = (x & 0xff) as u8;
    let b1 = ((x >> 8) & 0xff) as u8;
    assert(b0 as int + 0x100 * b1 as int == x) by (bit_vector)
        requires
            b0 == (x & 0xff) as u8,
            b1 == ((x >> 8) & 0xff) as u8,
    ;
}

proof fn lemma_le_u32(x: u32)
    ensures
        spec_le_u32(le_u32_bytes(x)) == x,
{
    let b0 = (x & 0xff) as u8;
    let b1 = ((x >> 8) & 0xff) as u8;
    let b2 = ((x >> 16) & 0xff) as u8;
    let b3 = ((x >> 24) & 0xff) as u8;
    assert(b0 as int + 0x100 * b1 as int + 0x1_0000 * b2 as int + 0x100_0000 * b3 as int == x)
        by (bit_vector)
        requires
            b0 == (x & 0xff) as u8,
            b1 == ((x >> 8) & 0xff) as u8,
            b2 == ((x >> 16) & 0xff) as u8,
            b3 == ((x >> 24) & 0xff) as u8,
    ;
}

proof fn lemma_le_u64(x: u64)
    ensures
        spec_le_u64(le_u64_bytes(x)) == x,
{
    let lo = (x & 0xffff_ffff) as u32;
    let hi = (x >> 32) as u32;
    lemma_le_u32(lo);
    lemma_le_u32(hi);
    let b = le_u64_bytes(x);
    assert(b.subrange(4, 8) =~= le_u32_bytes(hi));
    assert(spec_le_u32(b) == spec_le_u32(le_u32_bytes(lo)));
    assert(lo as int + 0x1_0000_0000 * hi as int == x) by (bit_vector)
        requires
            lo == (x & 0xffff_ffff) as u32,
            hi == (x >> 32) as u32,
    ;
}

/// `w` stands in `b` from position `pos` on.
pub open spec fn written_at(b: Seq<u8>, pos: int, w: Seq<u8>) -> bool {
    0 <= pos && pos + w.len() <= b.len() && b.subrange(pos, pos + w.len()) == w
}

/// Two consecutive encodings stand one after the other.
proof fn lemma_split(b: Seq<u8>, pos: int, w1: Seq<u8>, w2: Seq<u8>)
    requires
        written_at(b, pos, w1 + w2),
    ensures
        written_at(b, pos, w1),
        written_at(b, pos + w1.len(), w2),
{
    assert(b.subrange(pos, pos + w1.len()) =~= (w1 + w2).subrange(0, w1.len() as int));
    assert((w1 + w2).subrange(0, w1.len() as int) =~= w1);
    assert(b.subrange(pos + w1.len(), pos + w1.len() + w2.len()) =~= (w1 + w2).subrange(
        w1.len() as int,
        (w1.len() + w2.len()) as int,
    ));
    assert((w1 + w2).subrange(w1.len() as int, (w1.len() + w2.len()) as int) =~= w2);
}

proof fn lemma_read_u8_at(b: Seq<u8>, pos: int, x: u8)
    requires
        written_at(b, pos, seq![x]),
    ensures
        spec_read_u8(b, pos) == Ok::<(u8, int), Error>((x, pos + 1)),
{
    assert(b.subrange(pos, pos + 1)[0] == b[pos]);
}

proof fn lemma_read_u16_at(b: Seq<u8>, pos: int, x: u16)
    requires
        written_at(b, pos, le_u16_bytes(x)),
    ensures
        spec_read_u16(b, pos) == Ok::<(u16, int), Error>((x, pos + 2)),
{
    lemma_le_u16(x);
}

/// Reading a `u32` written little-endian.
pub proof fn lemma_read_u32_at(b: Seq<u8>, pos: int, x: u32)
    requires
        written_at(b, pos, le_u32_bytes(x)),
    ensures
        spec_read_u32(b, pos) == Ok::<(u32, int), Error>((x, pos + 4)),
{
    lemma_le_u32(x);
}

/// Reading a `u64` written little-endian.
pub proof fn lemma_read_u64_at(b: Seq<u8>, pos: int, x: u64)
    requires
        written_at(b, pos, le_u64_bytes(x)),
    ensures
        spec_read_u64(b, pos) == Ok::<(u64, int), Error>((x, pos + 8)),
{
    lemma_le_u64(x);
}

/// Reading a string written as a GGUF string.
pub proof fn lemma_read_string_at(b: Seq<u8>, pos: int, s: Seq<char>)
    requires
        encode_utf8(s).len() <= u64::MAX,
        written_at(b, pos, write_string(s)),
    ensures
        spec_read_string(b, pos) == Ok::<(Seq<char>, int), Error>((s, pos + write_string(s).len())),
{
    let e = encode_utf8(s);
    lemma_split(b, pos, le_u64_bytes(e.len() as u64), e);
    lemma_read_u64_at(b, pos, e.len() as u64);
    encode_utf8_valid_utf8(s);
    encode_utf8_decode_utf8(s);
}

/// One scalar case of [`lemma_value_roundtrip`].
#[verifier::spinoff_prover]
#[verifier::rlimit(40)]
proof fn lemma_scalar_case(v: ValueModel, b: Seq<u8>, pos: int)
    requires
        !(v is String),
        !(v is Array),
        written_at(b, pos, write_value(v)),
    ensures
        spec_read_value(b, pos, model_value_type(v)) == Ok::<(ValueModel, int), Error>(
            (v, pos + write_value(v).len()),
        ),
        write_value(v).len() > 0,
{
    match v {
        ValueModel::Uint8(x) => {
            lemma_read_u8_at(b, pos, x);
        },
        ValueModel::Int8(x) => {
            lemma_read_u8_at(b, pos, x as u8);
            assert(((x as u8) as i8) == x) by (bit_vector);
        },
        ValueModel::Bool(x) => {
            lemma_read_u8_at(b, pos, if x { 1u8 } else { 0u8 });
        },
        ValueModel::Uint16(x) => {
            lemma_read_u16_at(b, pos, x);
        },
        ValueModel::Int16(x) => {
            lemma_read_u16_at(b, pos, x as u16);
            assert(((x as u16) as i16) == x) by (bit_vector);
        },
        ValueModel::Uint32(x) => {
            lemma_read_u32_at(b, pos, x);
        },
        ValueModel::Int32(x) => {
            lemma_read_u32_at(b, pos, x as u32);
            assert(((x as u32) as i32) == x) by (bit_vector);
        },
        ValueModel::Float32(x) => {
            lemma_read_u32_at(b, pos, x);
        },
        ValueModel::Uint64(x) => {
            lemma_read_u64_at(b, pos, x);
        },
        ValueModel::Int64(x) => {
            lemma_read_u64_at(b, pos, x as u64);
            assert(((x as u64) as i64) == x) by (bit_vector);
        },
        ValueModel::Float64(x) => {
            lemma_read_u64_at(b, pos, x);
        },
        _ => {},
    }
}

proof fn lemma_array_roundtrip(t: ValueType, items: Seq<ValueModel>, b: Seq<u8>, pos: int)
    requires
        items.len() <= u64::MAX,
        items_wf(t, items),
        written_at(
            b,
            pos,
            le_u32_bytes(value_type_id(t)) + le_u64_bytes(items.len() as u64) + write_items(items),
        ),
    ensures
        spec_read_value(b, pos, ValueType::Array) == Ok::<(ValueModel, int), Error>(
            (ValueModel::Array(t, items), pos + 12 + write_items(items).len()),
        ),
    decreases items, 1int,
{
    let h1 = le_u32_bytes(value_type_id(t));
    let h2 = le_u64_bytes(items.len() as u64);
    let body = write_items(items);
    lemma_split(b, pos, h1 + h2, body);
    lemma_split(b, pos, h1, h2);
    lemma_read_u32_at(b, pos, value_type_id(t));
    lemma_value_type_id_roundtrip(t);
    lemma_read_u64_at(b, pos + 4, items.len() as u64);
    lemma_items_roundtrip(t, items, b, pos + 12);
}

/// Reading a value written with [`write_value`] gives the value back and ends
/// just after it.
pub proof fn lemma_value_roundtrip(v: ValueModel, b: Seq<u8>, pos: int)
    requires
        value_wf(v),
        written_at(b, pos, write_value(v)),
    ensures
        spec_read_value(b, pos, model_value_type(v)) == Ok::<(ValueModel, int), Error>(
            (v, pos + write_value(v).len()),
        ),
        write_value(v).len() > 0,
    decreases v, 2int,
{
    match v {
        ValueModel::String(s) => {
            lemma_read_string_at(b, pos, s);
        },
        ValueModel::Array(t, items) => {
            lemma_array_roundtrip(t, items, b, pos);
        },
        _ => {
            lemma_scalar_case(v, b, pos);
        },
    }
}

/// Reading array items written with [`write_items`] gives them back.
pub proof fn lemma_items_roundtrip(t: ValueType, items: Seq<ValueModel>, b: Seq<u8>, pos: int)
    requires
        items_wf(t, items),
        written_at(b, pos, write_items(items)),
    ensures
        spec_read_items(b, pos, t, items.len()) == Ok::<(Seq<ValueModel>, int), Error>(
            (items, pos + write_items(items).len()),
        ),
    decreases items, 0int,
{
    if items.len() == 0 {
        assert(items =~= Seq::<ValueModel>::empty());
    } else {
        let first = items[0];
        let rest = items.subrange(1, items.len() as int);
        let wf = write_value(first);
        let wr = write_items(rest);
        lemma_split(b, pos, wf, wr);
        lemma_value_roundtrip(first, b, pos);
        lemma_items_roundtrip(t, rest, b, pos + wf.len());
        assert(seq![first] + rest =~= items);
        assert((items.len() - 1) as nat == rest.len());
    }
}

} // verus!

verus! {

/// The encoding of a metadata pair: key, value type id, value.
pub open spec fn write_entry(m: MetadataModel) -> Seq<u8> {
    write_string(m.key) + le_u32_bytes(value_type_id(model_value_type(m.value))) + write_value(m.value)
}

/// The encodings of metadata pairs, one after the other.
pub open spec fn write_metadata(ms: Seq<MetadataModel>) -> Seq<u8>
    decreases ms.len(),
{
    if ms.len() == 0 {
        Seq::empty()
    } else {
        write_entry(ms[0]) + write_metadata(ms.subrange(1, ms.len() as int))
    }
}

/// The dimensions of a tensor, each a little-endian `u64`.
pub open spec fn write_shape(shape: Seq<u64>) -> Seq<u8>
    decreases shape.len(),
{
    if shape.len() == 0 {
        Seq::empty()
    } else {
        le_u64_bytes(shape[0]) + write_shape(shape.subrange(1, shape.len() as int))
    }
}

/// The encoding of a tensor-info record: name, number of dimensions,
/// dimensions, type id, offset.
pub open spec fn write_tensor_info(t: TensorInfoModel) -> Seq<u8> {
    write_string(t.name) + le_u32_bytes(t.shape.len() as u32) + write_shape(t.shape) + le_u32_bytes(
        tensor_type_id(t.ty),
    ) + le_u64_bytes(t.offset)
}

/// The encodings of tensor-info records, one after the other.
pub open spec fn write_tensors(ts: Seq<TensorInfoModel>) -> Seq<u8>
    decreases ts.len(),
{
    if ts.len() == 0 {
        Seq::empty()
    } else {
        write_tensor_info(ts[0]) + write_tensors(ts.subrange(1, ts.len() as int))
    }
}

/// The encoding of a header: magic, version, tensor count, metadata count.
pub open spec fn write_header(h: Header) -> Seq<u8> {
    gguf_magic() + le_u32_bytes(h.version) + le_u64_bytes(h.n_tensors) + le_u64_bytes(h.n_kv)
}

/// The header, metadata table and tensor-info table of a file.
pub open spec fn write_tables(f: GgufModel) -> Seq<u8> {
    write_header(f.header) + write_metadata(f.metadata) + write_tensors(f.tensors)
}

/// A metadata pair can be encoded.
pub open spec fn entry_wf(m: MetadataModel) -> bool {
    encode_utf8(m.key).len() <= u64::MAX && value_wf(m.value)
}

/// A tensor-info record can be encoded and has at most four dimensions.
pub open spec fn tensor_wf(t: TensorInfoModel) -> bool {
    encode_utf8(t.name).len() <= u64::MAX && t.shape.len() <= 4
}

/// A file model that the parser can produce: a supported version, counts that
/// match the tables, encodable entries, and the tensor data region starting
/// at the first multiple of 32 after the tables.
pub open spec fn file_wf(f: GgufModel) -> bool {
    &&& supported_version(f.header.version)
    &&& f.header.n_kv == f.metadata.len()
    &&& f.header.n_tensors == f.tensors.len()
    &&& forall|i: int| 0 <= i < f.metadata.len() ==> entry_wf(#[trigger] f.metadata[i])
    &&& forall|i: int| 0 <= i < f.tensors.len() ==> tensor_wf(#[trigger] f.tensors[i])
    &&& f.tensor_data_offset == spec_align(write_tables(f).len() as int)
}

#[verifier::spinoff_prover]
proof fn lemma_entry_roundtrip(m: MetadataModel, b: Seq<u8>, pos: int)
    requires
        entry_wf(m),
        written_at(b, pos, write_entry(m)),
    ensures
        spec_read_metadata_entry(b, pos) == Ok::<(MetadataModel, int), Error>(
            (m, pos + write_entry(m).len()),
        ),
{
    let ws = write_string(m.key);
    let wt = le_u32_bytes(value_type_id(model_value_type(m.value)));
    let wv = write_value(m.value);
    lemma_split(b, pos, ws + wt, wv);
    lemma_split(b, pos, ws, wt);
    lemma_read_string_at(b, pos, m.key);
    lemma_read_u32_at(b, pos + ws.len(), value_type_id(model_value_type(m.value)));
    lemma_value_type_id_roundtrip(model_value_type(m.value));
    lemma_value_roundtrip(m.value, b, pos + ws.len() + 4);
}

#[verifier::spinoff_prover]
proof fn lemma_metadata_roundtrip(ms: Seq<MetadataModel>, b: Seq<u8>, pos: int)
    requires
        forall|i: int| 0 <= i < ms.len() ==> entry_wf(#[trigger] ms[i]),
        written_at(b, pos, write_metadata(ms)),
    ensures
        spec_read_metadata(b, pos, ms.len()) == Ok::<(Seq<MetadataModel>, int), Error>(
            (ms, pos + write_metadata(ms).len()),
        ),
    decreases ms.len(),
{
    if ms.len() == 0 {
        assert(ms =~= Seq::<MetadataModel>::empty());
    } else {
        let rest = ms.subrange(1, ms.len() as int);
        let we = write_entry(ms[0]);
        let wr = write_metadata(rest);
        assert(entry_wf(ms[0]));
        lemma_split(b, pos, we, wr);
        lemma_entry_roundtrip(ms[0], b, pos);
        assert forall|i: int| 0 <= i < rest.len() implies entry_wf(#[trigger] rest[i]) by {
            assert(rest[i] == ms[i + 1]);
        }
        lemma_metadata_roundtrip(rest, b, pos + we.len());
        assert(seq![ms[0]] + rest =~= ms);
        assert((ms.len() - 1) as nat == rest.len());
    }
}

proof fn lemma_write_shape(shape: Seq<u64>)
    ensures
        write_shape(shape).len() == 8 * shape.len(),
        forall|i: int|
            0 <= i < shape.len() ==> write_shape(shape).subrange(8 * i, 8 * i + 8) == le_u64_bytes(
                #[trigger] shape[i],
            ),
    decreases shape.len(),
{
    if shape.len() > 0 {
        let rest = shape.subrange(1, shape.len() as int);
        lemma_write_shape(rest);
        let w = write_shape(shape);
        assert forall|i: int| 0 <= i < shape.len() implies write_shape(shape).subrange(8 * i, 8 * i + 8)
            == le_u64_bytes(#[trigger] shape[i]) by {
            if i == 0 {
                assert(w.subrange(0, 8) =~= le_u64_bytes(shape[0]));
            } else {
                assert(rest[i - 1] == shape[i]);
                assert(w.subrange(8 * i, 8 * i + 8) =~= write_shape(rest).subrange(8 * (i - 1), 8 * (i - 1) + 8));
            }
        }
    }
}

proof fn lemma_shape_roundtrip(shape: Seq<u64>, b: Seq<u8>, pos: int)
    requires
        written_at(b, pos, write_shape(shape)),
    ensures
        spec_read_shape(b, pos, shape.len()) == Ok::<(Seq<u64>, int), Error>(
            (shape, pos + write_shape(shape).len()),
        ),
{
    lemma_write_shape(shape);
    let w = write_shape(shape);
    let got = Seq::new(shape.len(), |i: int| spec_le_u64(b.subrange(pos + 8 * i, pos + 8 * i + 8)));
    assert forall|i: int| 0 <= i < shape.len() implies got[i] == shape[i] by {
        assert(b.subrange(pos + 8 * i, pos + 8 * i + 8) =~= w.subrange(8 * i, 8 * i + 8));
        lemma_le_u64(shape[i]);
    }
    assert(got =~= shape);
}

#[verifier::spinoff_prover]
proof fn lemma_tensor_roundtrip(t: TensorInfoModel, b: Seq<u8>, pos: int)
    requires
        tensor_wf(t),
        written_at(b, pos, write_tensor_info(t)),
    ensures
        spec_read_tensor_info(b, pos) == Ok::<(TensorInfoModel, int), Error>(
            (t, pos + write_tensor_info(t).len()),
        ),
{
    let ws = write_string(t.name);
    let wn = le_u32_bytes(t.shape.len() as u32);
    let wd = write_shape(t.shape);
    let wt = le_u32_bytes(tensor_type_id(t.ty));
    let wo = le_u64_bytes(t.offset);
    lemma_split(b, pos, ws + wn + wd + wt, wo);
    lemma_split(b, pos, ws + wn + wd, wt);
    lemma_split(b, pos, ws + wn, wd);
    lemma_split(b, pos, ws, wn);
    lemma_read_string_at(b, pos, t.name);
    let p1 = pos + ws.len();
    lemma_read_u32_at(b, p1, t.shape.len() as u32);
    lemma_shape_roundtrip(t.shape, b, p1 + 4);
    let p3 = p1 + 4 + wd.len();
    lemma_read_u32_at(b, p3, tensor_type_id(t.ty));
    lemma_tensor_type_id_roundtrip(t.ty);
    lemma_read_u64_at(b, p3 + 4, t.offset);
}

#[verifier::spinoff_prover]
proof fn lemma_tensors_roundtrip(ts: Seq<TensorInfoModel>, b: Seq<u8>, pos: int)
    requires
        forall|i: int| 0 <= i < ts.len() ==> tensor_wf(#[trigger] ts[i]),
        written_at(b, pos, write_tensors(ts)),
    ensures
        spec_read_tensors(b, pos, ts.len()) == Ok::<(Seq<TensorInfoModel>, int), Error>(
            (ts, pos + write_tensors(ts).len()),
        ),
    decreases ts.len(),
{
    if ts.len() == 0 {
        assert(ts =~= Seq::<TensorInfoModel>::empty());
    } else {
        let rest = ts.subrange(1, ts.len() as int);
        let wt = write_tensor_info(ts[0]);
        let wr = write_tensors(rest);
        assert(tensor_wf(ts[0]));
        lemma_split(b, pos, wt, wr);
        lemma_tensor_roundtrip(ts[0], b, pos);
        assert forall|i: int| 0 <= i < rest.len() implies tensor_wf(#[trigger] rest[i]) by {
            assert(rest[i] == ts[i + 1]);
        }
        lemma_tensors_roundtrip(rest, b, pos + wt.len());
        assert(seq![ts[0]] + rest =~= ts);
        assert((ts.len() - 1) as nat == rest.len());
    }
}

proof fn lemma_header_roundtrip(h: Header, b: Seq<u8>)
    requires
        supported_version(h.version),
        written_at(b, 0, write_header(h)),
    ensures
        spec_read_header(b) == Ok::<(Header, int), Error>((h, write_header(h).len() as int)),
{
    let m = gguf_magic();
    let wv = le_u32_bytes(h.version);
    let wt = le_u64_bytes(h.n_tensors);
    let wk = le_u64_bytes(h.n_kv);
    lemma_split(b, 0, m + wv + wt, wk);
    lemma_split(b, 0, m + wv, wt);
    lemma_split(b, 0, m, wv);
    assert(b.take(4) =~= b.subrange(0, 4));
    lemma_read_u32_at(b, 4, h.version);
    lemma_read_u64_at(b, 8, h.n_tensors);
    lemma_read_u64_at(b, 16, h.n_kv);
}

/// Parsing gives back what was written: a file whose tables are the encoding
/// of a well-formed model, followed by any bytes (padding and tensor data),
/// parses to exactly that model.
#[verifier::spinoff_prover]
pub proof fn lemma_file_roundtrip(f: GgufModel, data: Seq<u8>)
    requires
        file_wf(f),
        write_tables(f).len() <= isize::MAX,
    ensures
        spec_read_file(write_tables(f) + data) == Ok::<GgufModel, Error>(f),
{
    let wh = write_header(f.header);
    let wm = write_metadata(f.metadata);
    let wt = write_tensors(f.tensors);
    let b = write_tables(f) + data;
    assert(b.subrange(0, (wh.len() + wm.len() + wt.len()) as int) =~= wh + wm + wt);
    lemma_split(b, 0, wh + wm, wt);
    lemma_split(b, 0, wh, wm);
    lemma_header_roundtrip(f.header, b);
    lemma_metadata_roundtrip(f.metadata, b, wh.len() as int);
    lemma_tensors_roundtrip(f.tensors, b, (wh.len() + wm.len()) as int);
}

} // verus!
