//! Properties that every successfully parsed GGUF file has.
use super::file::{
    spec_align, spec_read_file, spec_read_header, spec_read_metadata, spec_read_tensors, GgufModel,
};
use super::reader::prepend_all;
use super::tensor::{spec_read_tensor_info, TensorInfoModel};
use super::value::{spec_read_items, spec_read_value};
use vstd::prelude::*;

verus! {

/// Decoding `n` metadata pairs yields exactly `n` pairs.
pub proof fn lemma_metadata_count(b: Seq<u8>, pos: int, n: nat)
    ensures
        spec_read_metadata(b, pos, n) matches Ok((ms, _)) ==> ms.len() == n,
    decreases n,
{
    if n > 0 {
        match super::file::spec_read_metadata_entry(b, pos) {
            Ok((m, p)) => lemma_metadata_count(b, p, (n - 1) as nat),
            Err(_) => {},
        }
    }
}

/// Decoding `n` tensor-info records yields exactly `n` records, each with at
/// most four dimensions.
pub proof fn lemma_tensors_count(b: Seq<u8>, pos: int, n: nat)
    ensures
        spec_read_tensors(b, pos, n) matches Ok((ts, _)) ==> ts.len() == n && forall|i: int|
            0 <= i < ts.len() ==> (#[trigger] ts[i]).shape.len() <= 4,
    decreases n,
{
    if n > 0 {
        match spec_read_tensor_info(b, pos) {
            Ok((t, p)) => {
                lemma_tensors_count(b, p, (n - 1) as nat);
                match spec_read_tensors(b, p, (n - 1) as nat) {
                    Ok((rest, _)) => {
                        let ts = seq![t] + rest;
                        assert forall|i: int| 0 <= i < ts.len() implies (#[trigger] ts[i]).shape.len() <= 4 by {
                            if i > 0 {
                                assert(ts[i] == rest[i - 1]);
                            }
                        }
                    },
                    Err(_) => {},
                }
            },
            Err(_) => {},
        }
    }
}

/// Aligning rounds up to the next multiple of 32: the result is a multiple
/// of 32, not below the offset, and less than 32 past it.
pub proof fn lemma_align_rounds_up(p: int)
    requires
        p >= 0,
    ensures
        spec_align(p) % 32 == 0,
        p <= spec_align(p) < p + 32,
        p % 32 == 0 ==> spec_align(p) == p,
{
}

/// The tensor data region of a parsed file starts at the first multiple of 32
/// at or after the end of the tensor-info table.
pub proof fn lemma_data_offset_after_tables(b: Seq<u8>)
    requires
        b.len() <= isize::MAX,
    ensures
        spec_read_file(b) matches Ok(f) ==> spec_read_header(b) matches Ok((h, p1))
            && spec_read_metadata(b, p1, h.n_kv as nat) matches Ok((_, p2))
            && spec_read_tensors(b, p2, h.n_tensors as nat) matches Ok((_, p3)) && {
            &&& f.tensor_data_offset % 32 == 0
            &&& p3 <= f.tensor_data_offset < p3 + 32
        },
{
    match spec_read_header(b) {
        Ok((h, p1)) => {
            match spec_read_metadata(b, p1, h.n_kv as nat) {
                Ok((ms, p2)) => {
                    lemma_read_metadata_end(b, p1, h.n_kv as nat);
                    match spec_read_tensors(b, p2, h.n_tensors as nat) {
                        Ok((ts, p3)) => {
                            lemma_read_tensors_end(b, p2, h.n_tensors as nat);
                            lemma_align_rounds_up(p3);
                        },
                        Err(_) => {},
                    }
                },
                Err(_) => {},
            }
        },
        Err(_) => {},
    }
}

/// A parsed file has as many metadata pairs and tensors as its header
/// announces, every tensor has at most four dimensions, and the tensor data
/// region starts at a multiple of 32 bytes.
pub proof fn lemma_parsed_file_shape(b: Seq<u8>)
    requires
        b.len() <= isize::MAX,
    ensures
        spec_read_file(b) matches Ok(f) ==> {
            &&& f.metadata.len() == f.header.n_kv
            &&& f.tensors.len() == f.header.n_tensors
            &&& forall|i: int| 0 <= i < f.tensors.len() ==> (#[trigger] f.tensors[i]).shape.len() <= 4
            &&& f.tensor_data_offset % 32 == 0
        },
{
    match super::file::spec_read_header(b) {
        Ok((h, p1)) => {
            lemma_metadata_count(b, p1, h.n_kv as nat);
            match spec_read_metadata(b, p1, h.n_kv as nat) {
                Ok((ms, p2)) => {
                    lemma_read_metadata_end(b, p1, h.n_kv as nat);
                    lemma_tensors_count(b, p2, h.n_tensors as nat);
                    match spec_read_tensors(b, p2, h.n_tensors as nat) {
                        Ok((ts, p3)) => {
                            lemma_read_tensors_end(b, p2, h.n_tensors as nat);
                            lemma_read_metadata_end(b, p1, h.n_kv as nat);
                            assert(0 <= p3 <= b.len());
                            assert(spec_align(p3) % 32 == 0);
                            assert(spec_align(p3) <= p3 + 31);
                        },
                        Err(_) => {},
                    }
                },
                Err(_) => {},
            }
        },
        Err(_) => {},
    }
}

/// Decoding metadata ends within the buffer and not before it started.
pub proof fn lemma_read_metadata_end(b: Seq<u8>, pos: int, n: nat)
    requires
        0 <= pos <= b.len(),
    ensures
        spec_read_metadata(b, pos, n) matches Ok((_, p)) ==> pos <= p <= b.len(),
    decreases n,
{
    if n > 0 {
        match super::file::spec_read_metadata_entry(b, pos) {
            Ok((m, p)) => {
                lemma_entry_end(b, pos);
                lemma_read_metadata_end(b, p, (n - 1) as nat);
            },
            Err(_) => {},
        }
    }
}

/// Decoding tensor-info records ends within the buffer and not before it started.
pub proof fn lemma_read_tensors_end(b: Seq<u8>, pos: int, n: nat)
    requires
        0 <= pos <= b.len(),
    ensures
        spec_read_tensors(b, pos, n) matches Ok((_, p)) ==> pos <= p <= b.len(),
    decreases n,
{
    if n > 0 {
        match spec_read_tensor_info(b, pos) {
            Ok((t, p)) => {
                lemma_read_tensors_end(b, p, (n - 1) as nat);
            },
            Err(_) => {},
        }
    }
}

proof fn lemma_entry_end(b: Seq<u8>, pos: int)
    requires
        0 <= pos <= b.len(),
    ensures
        super::file::spec_read_metadata_entry(b, pos) matches Ok((_, p)) ==> pos <= p <= b.len(),
{
    match super::file::spec_read_metadata_entry(b, pos) {
        Ok((m, p)) => {
            match super::reader::spec_read_string(b, pos) {
                Ok((key, p1)) => match super::reader::spec_read_u32(b, p1) {
                    Ok((t, p2)) => match super::types::spec_value_type_from_u32(t) {
                        Ok(ty) => lemma_value_end(b, p2, ty),
                        Err(_) => {},
                    },
                    Err(_) => {},
                },
                Err(_) => {},
            }
        },
        Err(_) => {},
    }
}

/// A decoded value occupies at least one byte and ends within the buffer.
pub proof fn lemma_value_end(b: Seq<u8>, pos: int, ty: super::types::ValueType)
    ensures
        spec_read_value(b, pos, ty) matches Ok((_, p)) ==> pos < p <= b.len(),
    decreases b.len() - pos, 0int, 0int,
{
    if ty == super::types::ValueType::Array {
        match super::reader::spec_read_u32(b, pos) {
            Ok((t, p1)) => match super::types::spec_value_type_from_u32(t) {
                Ok(item_type) => match super::reader::spec_read_u64(b, p1) {
                    Ok((n, p2)) => {
                        lemma_items_end(b, p2, item_type, n as nat);
                    },
                    Err(_) => {},
                },
                Err(_) => {},
            },
            Err(_) => {},
        }
    }
}

/// Decoded array items end within the buffer and not before they started.
pub proof fn lemma_items_end(b: Seq<u8>, pos: int, ty: super::types::ValueType, n: nat)
    requires
        0 <= pos <= b.len(),
    ensures
        spec_read_items(b, pos, ty, n) matches Ok((_, p)) ==> pos <= p <= b.len(),
    decreases b.len() - pos, 1int, n,
{
    if n > 0 {
        match spec_read_value(b, pos, ty) {
            Ok((v, p)) => {
                if pos < p <= b.len() {
                    lemma_items_end(b, p, ty, (n - 1) as nat);
                }
            },
            Err(_) => {},
        }
    }
}

} // verus!
