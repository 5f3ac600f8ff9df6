use byteorder::{LittleEndian, WriteBytesExt};
use inferox::gguf::file::GgufFile;
use inferox::gguf::tensor::TensorInfo;
use inferox::gguf::value::Value;
use inferox::gguf::weights::Weights;
use inferox::gguf::{Error, TensorType, ValueType};
use std::io::Write;

fn write_string(buf: &mut Vec<u8>, s: &str) {
    buf.write_u64::<LittleEndian>(s.len() as u64).unwrap();
    buf.write_all(s.as_bytes()).unwrap();
}

fn write_test_gguf() -> Vec<u8> {
    let mut buf: Vec<u8> = Vec::new();

    // Header
    buf.write_all(b"GGUF").unwrap();
    buf.write_u32::<LittleEndian>(3).unwrap(); // version
    buf.write_u64::<LittleEndian>(1).unwrap(); // n_tensors
    buf.write_u64::<LittleEndian>(0).unwrap(); // n_kv

    // Tensor info table
    let name = b"token_embeddings";
    buf.write_u64::<LittleEndian>(name.len() as u64).unwrap();
    buf.write_all(name).unwrap();
    buf.write_u32::<LittleEndian>(1).unwrap(); // n_dims
    buf.write_u64::<LittleEndian>(2).unwrap(); // shape[0]
    buf.write_u32::<LittleEndian>(0).unwrap(); // type F32
    buf.write_u64::<LittleEndian>(0).unwrap(); // offset

    // Pad to 32-byte alignment
    while buf.len() % 32 != 0 {
        buf.write_u8(0).unwrap();
    }

    // Tensor data: two f32 values
    buf.write_f32::<LittleEndian>(1.5).unwrap();
    buf.write_f32::<LittleEndian>(2.5).unwrap();
    buf
}

#[test]
fn opens_and_reads_tensor_bytes() {
    let weights = Weights::from_bytes(write_test_gguf()).unwrap();
    assert_eq!(weights.file().tensors.len(), 1);

    let bytes = weights.tensor("token_embeddings").unwrap();
    assert_eq!(bytes.len(), 8);

    let floats: Vec<f32> = bytes
        .chunks_exact(4)
        .map(|c| f32::from_le_bytes(c.try_into().unwrap()))
        .collect();
    assert_eq!(floats, vec![1.5, 2.5]);
}

#[test]
fn tensor_not_found_returns_error() {
    let weights = Weights::from_bytes(write_test_gguf()).unwrap();
    assert!(matches!(weights.tensor("missing"), Err(Error::TensorNotFound(_))));
}

#[test]
fn header_and_data_offset_are_parsed() {
    let bytes = write_test_gguf();
    let file = GgufFile::read(&bytes).unwrap();
    assert_eq!(file.header.version, 3);
    assert_eq!(file.header.n_tensors, 1);
    assert_eq!(file.header.n_kv, 0);
    // 24 header bytes + 8 + 16 name bytes + 4 + 8 + 4 + 8 = 72, aligned to 96.
    assert_eq!(file.tensor_data_offset, 96);
    let t = &file.tensors[0];
    assert_eq!(t.name, "token_embeddings");
    assert_eq!(t.shape, vec![2]);
    assert_eq!(t.ty, TensorType::F32);
    assert_eq!(t.offset, 0);
}

#[test]
fn bad_magic_is_rejected() {
    let mut bytes = write_test_gguf();
    bytes[0] = b'X';
    assert!(matches!(
        GgufFile::read(&bytes),
        Err(Error::InvalidMagic([b'X', b'G', b'U', b'F']))
    ));
}

#[test]
fn unsupported_version_is_rejected() {
    let mut bytes = write_test_gguf();
    bytes[4] = 7;
    assert!(matches!(GgufFile::read(&bytes), Err(Error::UnsupportedVersion(7))));
}

#[test]
fn truncated_file_is_unexpected_eof() {
    let bytes = write_test_gguf();
    assert!(matches!(GgufFile::read(&bytes[..30]), Err(Error::UnexpectedEof)));
    assert!(matches!(GgufFile::read(&bytes[..3]), Err(Error::UnexpectedEof)));
}

#[test]
fn too_many_dimensions_is_invalid_shape() {
    let mut buf: Vec<u8> = Vec::new();
    buf.write_all(b"GGUF").unwrap();
    buf.write_u32::<LittleEndian>(2).unwrap();
    buf.write_u64::<LittleEndian>(1).unwrap();
    buf.write_u64::<LittleEndian>(0).unwrap();
    write_string(&mut buf, "t");
    buf.write_u32::<LittleEndian>(5).unwrap();
    assert!(matches!(GgufFile::read(&buf), Err(Error::InvalidShape { n_dims: 5 })));
}

#[test]
fn unknown_tensor_type_is_rejected() {
    let mut buf: Vec<u8> = Vec::new();
    buf.write_all(b"GGUF").unwrap();
    buf.write_u32::<LittleEndian>(3).unwrap();
    buf.write_u64::<LittleEndian>(1).unwrap();
    buf.write_u64::<LittleEndian>(0).unwrap();
    write_string(&mut buf, "t");
    buf.write_u32::<LittleEndian>(1).unwrap();
    buf.write_u64::<LittleEndian>(4).unwrap();
    buf.write_u32::<LittleEndian>(4).unwrap();
    buf.write_u64::<LittleEndian>(0).unwrap();
    assert!(matches!(GgufFile::read(&buf), Err(Error::UnknownTensorType(4))));
}

#[test]
fn invalid_utf8_key_is_rejected() {
    let mut buf: Vec<u8> = Vec::new();
    buf.write_all(b"GGUF").unwrap();
    buf.write_u32::<LittleEndian>(3).unwrap();
    buf.write_u64::<LittleEndian>(0).unwrap();
    buf.write_u64::<LittleEndian>(1).unwrap();
    buf.write_u64::<LittleEndian>(2).unwrap();
    buf.write_all(&[0xC3, 0x28]).unwrap();
    match GgufFile::read(&buf) {
        Err(Error::InvalidUtf8(e)) => {
            assert_eq!(e.as_bytes(), &[0xC3, 0x28]);
            assert_eq!(e.utf8_error().valid_up_to(), 0);
            assert_eq!(e.utf8_error().error_len(), Some(1));
        }
        other => panic!("unexpected {other:?}"),
    }
}

fn metadata_file() -> Vec<u8> {
    let mut buf: Vec<u8> = Vec::new();
    buf.write_all(b"GGUF").unwrap();
    buf.write_u32::<LittleEndian>(3).unwrap();
    buf.write_u64::<LittleEndian>(0).unwrap();
    buf.write_u64::<LittleEndian>(6).unwrap();
    write_string(&mut buf, "a.u8");
    buf.write_u32::<LittleEndian>(0).unwrap();
    buf.write_u8(200).unwrap();
    write_string(&mut buf, "a.i8");
    buf.write_u32::<LittleEndian>(1).unwrap();
    buf.write_i8(-1).unwrap();
    write_string(&mut buf, "a.str");
    buf.write_u32::<LittleEndian>(8).unwrap();
    write_string(&mut buf, "llama");
    write_string(&mut buf, "a.arr");
    buf.write_u32::<LittleEndian>(9).unwrap();
    buf.write_u32::<LittleEndian>(4).unwrap();
    buf.write_u64::<LittleEndian>(3).unwrap();
    buf.write_u32::<LittleEndian>(10).unwrap();
    buf.write_u32::<LittleEndian>(20).unwrap();
    buf.write_u32::<LittleEndian>(30).unwrap();
    write_string(&mut buf, "a.f32");
    buf.write_u32::<LittleEndian>(6).unwrap();
    buf.write_f32::<LittleEndian>(0.5).unwrap();
    write_string(&mut buf, "a.bool");
    buf.write_u32::<LittleEndian>(7).unwrap();
    buf.write_u8(2).unwrap();
    buf
}

#[test]
fn metadata_values_are_parsed() {
    let bytes = metadata_file();
    let file = GgufFile::read(&bytes).unwrap();
    assert_eq!(file.metadata.len(), 6);
    assert_eq!(file.get("a.u8"), Some(&Value::Uint8(200)));
    assert_eq!(file.get("a.i8"), Some(&Value::Int8(-1)));
    assert_eq!(file.get_string("a.str"), Some("llama"));
    assert_eq!(
        file.get("a.arr"),
        Some(&Value::Array(
            ValueType::Uint32,
            vec![Value::Uint32(10), Value::Uint32(20), Value::Uint32(30)]
        ))
    );
    assert_eq!(file.get("a.f32"), Some(&Value::Float32(0.5f32.to_bits())));
    assert_eq!(file.get("a.bool"), Some(&Value::Bool(true)));
    assert_eq!(file.metadata[3].value_type(), ValueType::Array);
    assert_eq!(file.get("missing"), None);
}

#[test]
fn integer_getters_convert_like_as() {
    let bytes = metadata_file();
    let file = GgufFile::read(&bytes).unwrap();
    assert_eq!(file.get_u32("a.u8"), Some(200));
    assert_eq!(file.get_u32("a.i8"), Some(u32::MAX));
    assert_eq!(file.get_u64("a.i8"), Some(u64::MAX));
    assert_eq!(file.get_u32("a.str"), None);
    assert_eq!(file.get_string("a.u8"), None);
    assert_eq!(file.get_u64("missing"), None);
}

#[test]
fn tensor_sizes_and_offsets() {
    let t = TensorInfo { name: "w".to_string(), shape: vec![64, 3], ty: TensorType::Q4_0, offset: 100 };
    assert_eq!(t.n_elements(), 192);
    assert_eq!(t.n_dims(), 2);
    assert!(t.byte_size_is_defined());
    assert_eq!(t.byte_size(), Some(6 * 18));
    assert_eq!(t.data_offset(32), 132);

    let odd = TensorInfo { name: "w".to_string(), shape: vec![33], ty: TensorType::Q4K, offset: 0 };
    assert_eq!(odd.byte_size(), Some(144));

    let f16 = TensorInfo { name: "w".to_string(), shape: vec![3, 5], ty: TensorType::F16, offset: 0 };
    assert_eq!(f16.byte_size(), Some(30));

    let scalar = TensorInfo { name: "w".to_string(), shape: vec![], ty: TensorType::I32, offset: 0 };
    assert_eq!(scalar.n_elements(), 1);
    assert_eq!(scalar.byte_size(), Some(4));

    let huge = TensorInfo { name: "w".to_string(), shape: vec![u64::MAX, 2], ty: TensorType::F32, offset: 0 };
    assert!(!huge.byte_size_is_defined());
}

#[test]
fn tensor_lookup_and_total_size() {
    let bytes = write_test_gguf();
    let file = GgufFile::read(&bytes).unwrap();
    assert_eq!(file.tensor_index("token_embeddings"), Some(0));
    assert_eq!(file.tensor_index("other"), None);
    assert_eq!(file.tensor("token_embeddings").unwrap().shape, vec![2]);
    assert!(file.tensor("other").is_none());
    assert_eq!(file.total_tensor_data_size(), Some(8));
}

#[test]
fn tensor_by_index_and_listing() {
    let weights = Weights::from_bytes(write_test_gguf()).unwrap();
    assert_eq!(weights.tensor_by_index(0).unwrap().len(), 8);
    assert!(matches!(weights.tensor_by_index(1), Err(Error::InvalidTensorIndex(1))));
    let all = weights.tensors();
    assert_eq!(all.len(), 1);
    assert_eq!(all[0].0, "token_embeddings");
    assert_eq!(all[0].1.as_ref().unwrap().len(), 8);
}

#[test]
fn tensor_past_end_of_file_is_unexpected_eof() {
    let mut bytes = write_test_gguf();
    bytes.truncate(bytes.len() - 1);
    let weights = Weights::from_bytes(bytes).unwrap();
    assert!(matches!(weights.tensor("token_embeddings"), Err(Error::UnexpectedEof)));
}

#[test]
fn type_tables() {
    assert_eq!(ValueType::from_u32(9).unwrap(), ValueType::Array);
    assert!(matches!(ValueType::from_u32(13), Err(Error::UnknownValueType(13))));
    assert_eq!(ValueType::Float64.id(), 12);
    assert_eq!(ValueType::Uint16.name(), "uint16");
    assert_eq!(TensorType::from_u32(12).unwrap(), TensorType::Q4K);
    assert!(matches!(TensorType::from_u32(4), Err(Error::UnknownTensorType(4))));
    assert!(matches!(TensorType::from_u32(31), Err(Error::UnknownTensorType(31))));
    assert_eq!(TensorType::Q5_1.id(), 6);
    assert_eq!(TensorType::Iq2Xxs.name(), "IQ2_XXS");
    assert_eq!(TensorType::Q6K.name(), "Q6_K");
    assert_eq!(TensorType::F64.element_size(), Some(8));
    assert_eq!(TensorType::Q8_0.element_size(), None);
    let l = TensorType::Q6K.block_layout().unwrap();
    assert_eq!((l.elements, l.bytes), (256, 210));
    assert_eq!(TensorType::F32.block_layout(), None);
    assert!(TensorType::Q4_0.is_quantized());
    assert!(!TensorType::I16.is_quantized());
}

#[test]
fn array_preview_layout() {
    let items = |n: usize| Value::Array(ValueType::Uint8, (0..n).map(|i| Value::Uint8(i as u8)).collect());
    assert_eq!(items(0).array_preview(), Some((0, false)));
    assert_eq!(items(9).array_preview(), Some((9, false)));
    assert_eq!(items(10).array_preview(), Some((8, true)));
    assert_eq!(Value::Bool(true).array_preview(), None);
}
