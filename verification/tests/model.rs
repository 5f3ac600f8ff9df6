use byteorder::{LittleEndian, WriteBytesExt};
use inferox::gguf::file::GgufFile;
use inferox::gguf::value::Value;
use inferox::gguf::weights::Weights;
use inferox::gguf::{Error, TensorType, ValueType};
use inferox::model::config::Config;
use inferox::model::{Layer, Model};
use std::io::Write;

fn write_string(buf: &mut Vec<u8>, s: &str) {
    buf.write_u64::<LittleEndian>(s.len() as u64).unwrap();
    buf.write_all(s.as_bytes()).unwrap();
}

fn write_metadata_string(buf: &mut Vec<u8>, key: &str, value: &str) {
    write_string(buf, key);
    buf.write_u32::<LittleEndian>(ValueType::String.id()).unwrap();
    write_string(buf, value);
}

fn write_metadata_u32(buf: &mut Vec<u8>, key: &str, value: u32) {
    write_string(buf, key);
    buf.write_u32::<LittleEndian>(ValueType::Uint32.id()).unwrap();
    buf.write_u32::<LittleEndian>(value).unwrap();
}

fn write_metadata_f32(buf: &mut Vec<u8>, key: &str, value: f32) {
    write_string(buf, key);
    buf.write_u32::<LittleEndian>(ValueType::Float32.id()).unwrap();
    buf.write_f32::<LittleEndian>(value).unwrap();
}

fn write_tensor_info(buf: &mut Vec<u8>, name: &str, shape: &[u64]) {
    write_string(buf, name);
    buf.write_u32::<LittleEndian>(shape.len() as u32).unwrap();
    for &dim in shape {
        buf.write_u64::<LittleEndian>(dim).unwrap();
    }
    buf.write_u32::<LittleEndian>(TensorType::F32.id()).unwrap();
    buf.write_u64::<LittleEndian>(0).unwrap(); // offset ignored by wiring
}

fn layer_tensor_names(i: usize) -> Vec<String> {
    vec![
        format!("blk.{i}.attn_norm.weight"),
        format!("blk.{i}.attn_q.weight"),
        format!("blk.{i}.attn_k.weight"),
        format!("blk.{i}.attn_v.weight"),
        format!("blk.{i}.attn_output.weight"),
        format!("blk.{i}.ffn_norm.weight"),
        format!("blk.{i}.ffn_gate.weight"),
        format!("blk.{i}.ffn_up.weight"),
        format!("blk.{i}.ffn_down.weight"),
    ]
}

/// A llama file with the given architecture string and tensor names.
fn llama_gguf(architecture: &str, tensor_names: &[String]) -> Vec<u8> {
    let mut buf: Vec<u8> = Vec::new();

    // Header
    buf.write_all(b"GGUF").unwrap();
    buf.write_u32::<LittleEndian>(3).unwrap();
    buf.write_u64::<LittleEndian>(tensor_names.len() as u64).unwrap(); // n_tensors
    buf.write_u64::<LittleEndian>(9).unwrap(); // n_kv

    // Metadata
    write_metadata_string(&mut buf, "general.architecture", architecture);
    write_metadata_u32(&mut buf, "llama.vocab_size", 100);
    write_metadata_u32(&mut buf, "llama.embedding_length", 64);
    write_metadata_u32(&mut buf, "llama.block_count", 2);
    write_metadata_u32(&mut buf, "llama.attention.head_count", 4);
    write_metadata_u32(&mut buf, "llama.attention.head_count_kv", 2);
    write_metadata_u32(&mut buf, "llama.feed_forward_length", 128);
    write_metadata_f32(&mut buf, "llama.attention.layer_norm_rms_epsilon", 1e-5);
    write_metadata_u32(&mut buf, "llama.context_length", 512);

    // Tensor info table
    for name in tensor_names {
        write_tensor_info(&mut buf, name, &[1, 1]);
    }

    // Padding to 32-byte alignment
    while buf.len() % 32 != 0 {
        buf.write_u8(0).unwrap();
    }

    // Minimal tensor data
    for _ in 0..tensor_names.len() * 4 {
        buf.write_f32::<LittleEndian>(0.0).unwrap();
    }
    buf
}

fn full_tensor_names() -> Vec<String> {
    let mut names = vec![
        "token_embd.weight".to_string(),
        "output_norm.weight".to_string(),
        "output.weight".to_string(),
    ];
    for i in 0..2 {
        names.extend(layer_tensor_names(i));
    }
    names
}

fn write_test_llama_gguf() -> Vec<u8> {
    llama_gguf("llama", &full_tensor_names())
}

#[test]
fn config_parsed_from_metadata() {
    let weights = Weights::from_bytes(write_test_llama_gguf()).unwrap();
    let config = Config::from_gguf(weights.file()).unwrap();

    assert_eq!(config.architecture, "llama");
    assert_eq!(config.vocab_size, 100);
    assert_eq!(config.hidden_size, 64);
    assert_eq!(config.n_layers, 2);
    assert_eq!(config.n_heads, 4);
    assert_eq!(config.n_kv_heads, 2);
    assert_eq!(config.head_dim, 16); // 64 / 4
    assert_eq!(config.intermediate_size, 128);
    let norm_eps = match weights.file().get("llama.attention.layer_norm_rms_epsilon") {
        Some(Value::Float32(bits)) => f32::from_bits(*bits),
        other => panic!("unexpected epsilon value {other:?}"),
    };
    assert!((norm_eps - 1e-5).abs() < 1e-10);
    assert_eq!(config.context_length, 512);
}

#[test]
fn model_wires_layers_and_embeddings() {
    let weights = Weights::from_bytes(write_test_llama_gguf()).unwrap();
    let model = Model::from_weights(weights).unwrap();

    assert_eq!(model.config.n_layers, 2);
    assert_eq!(model.layers.len(), 2);
    assert_eq!(model.weights.file().tensors[model.token_embeddings].name, "token_embd.weight");
    assert_eq!(model.weights.file().tensors[model.output_norm].name, "output_norm.weight");
    assert_eq!(model.output, Some(2)); // index of output.weight

    let layer0 = &model.layers[0];
    assert_eq!(layer0.index, 0);
    assert_eq!(model.weights.file().tensors[layer0.attn_q].name, "blk.0.attn_q.weight");
    assert_eq!(model.weights.file().tensors[layer0.ffn_down].name, "blk.0.ffn_down.weight");
}

#[test]
fn config_defaults_apply_to_absent_keys() {
    let weights = Weights::from_bytes(write_test_llama_gguf()).unwrap();
    let config = Config::from_gguf(weights.file()).unwrap();
    // No rope.dimension_count: the head dimension is used.
    assert_eq!(config.rope_dim, 16);
}

#[test]
fn other_architecture_is_unsupported() {
    let bytes = llama_gguf("gpt2", &full_tensor_names());
    let file = GgufFile::read(&bytes).unwrap();
    match Config::from_gguf(&file) {
        Err(Error::UnsupportedArchitecture(a)) => assert_eq!(a, "gpt2"),
        other => panic!("unexpected {other:?}"),
    }
}

#[test]
fn missing_architecture_is_reported() {
    let mut buf: Vec<u8> = Vec::new();
    buf.write_all(b"GGUF").unwrap();
    buf.write_u32::<LittleEndian>(3).unwrap();
    buf.write_u64::<LittleEndian>(0).unwrap();
    buf.write_u64::<LittleEndian>(1).unwrap();
    write_metadata_u32(&mut buf, "llama.block_count", 2);
    let file = GgufFile::read(&buf).unwrap();
    match Config::from_gguf(&file) {
        Err(Error::TensorNotFound(k)) => assert_eq!(k, "general.architecture"),
        other => panic!("unexpected {other:?}"),
    }
}

#[test]
fn layer_indices_follow_the_table() {
    let bytes = write_test_llama_gguf();
    let file = GgufFile::read(&bytes).unwrap();
    let layer1 = Layer::from_weights(&file, 1).unwrap();
    assert_eq!(layer1.index, 1);
    // Three global tensors, then nine per layer.
    assert_eq!(layer1.attn_norm, 12);
    assert_eq!(layer1.ffn_down, 20);
    assert!(Layer::from_weights(&file, 2).is_none());
}

#[test]
fn missing_layer_tensor_fails_wiring() {
    let mut names = full_tensor_names();
    names.retain(|n| n != "blk.1.ffn_up.weight");
    let weights = Weights::from_bytes(llama_gguf("llama", &names)).unwrap();
    match Model::from_weights(weights) {
        Err(Error::TensorNotFound(k)) => assert_eq!(k, "blk.1.*"),
        other => panic!("unexpected {:?}", other.map(|m| m.layers.len())),
    }
}

#[test]
fn output_projection_is_optional() {
    let mut names = full_tensor_names();
    names.retain(|n| n != "output.weight");
    let weights = Weights::from_bytes(llama_gguf("llama", &names)).unwrap();
    let model = Model::from_weights(weights).unwrap();
    assert_eq!(model.output, None);
    assert_eq!(model.token_embeddings, 0);
    assert_eq!(model.output_norm, 1);
}

#[test]
fn missing_output_norm_fails_wiring() {
    let mut names = full_tensor_names();
    names.retain(|n| n != "output_norm.weight");
    let weights = Weights::from_bytes(llama_gguf("llama", &names)).unwrap();
    match Model::from_weights(weights) {
        Err(Error::TensorNotFound(k)) => assert_eq!(k, "output_norm.weight"),
        other => panic!("unexpected {:?}", other.map(|m| m.layers.len())),
    }
}
