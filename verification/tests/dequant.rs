use half::f16;
use inferox::gguf::dequant::{check_dequantize, decode_q4_0_block, decode_q4_k_block, decode_q8_0_block};
use inferox::gguf::tensor::TensorInfo;
use inferox::gguf::{Error, TensorType};

fn tensor_info(ty: TensorType, shape: &[u64]) -> TensorInfo {
    TensorInfo {
        name: "test".to_string(),
        shape: shape.to_vec(),
        ty,
        offset: 0,
    }
}

#[test]
fn unsupported_type_fails() {
    let info = tensor_info(TensorType::Q5_0, &[32]);
    let bytes = vec![0u8; 22]; // Q5_0 block size
    assert!(matches!(
        check_dequantize(&info, bytes.len(), 32),
        Err(Error::UnknownTensorType(_))
    ));
}

#[test]
fn supported_types_pass_the_checks() {
    assert!(check_dequantize(&tensor_info(TensorType::F32, &[3]), 12, 3).is_ok());
    assert!(check_dequantize(&tensor_info(TensorType::F16, &[3]), 6, 3).is_ok());
    assert!(check_dequantize(&tensor_info(TensorType::Q4_0, &[64]), 36, 64).is_ok());
    assert!(check_dequantize(&tensor_info(TensorType::Q8_0, &[32]), 34, 32).is_ok());
    assert!(check_dequantize(&tensor_info(TensorType::Q4K, &[256]), 144, 256).is_ok());
}

#[test]
fn wrong_byte_count_is_unexpected_eof() {
    let info = tensor_info(TensorType::F32, &[3]);
    assert!(matches!(check_dequantize(&info, 11, 3), Err(Error::UnexpectedEof)));
    // A partial block still takes a whole block of bytes.
    let info = tensor_info(TensorType::Q8_0, &[33]);
    assert!(matches!(check_dequantize(&info, 34, 33), Err(Error::UnexpectedEof)));
    assert!(check_dequantize(&info, 68, 33).is_ok());
}

#[test]
fn wrong_output_length_is_reported() {
    let info = tensor_info(TensorType::F32, &[3]);
    assert!(matches!(check_dequantize(&info, 12, 4), Err(Error::InvalidTensorIndex(4))));
}

#[test]
fn dequantize_q4_0_single_block() {
    let mut block = Vec::with_capacity(18);
    // delta = 0.5
    block.extend_from_slice(&f16::from_f32(0.5).to_le_bytes());
    // 16 bytes of nibbles: low nibble = j, high nibble = j
    // => each q = j, value = (j - 8) * 0.5
    for j in 0..16_u8 {
        let byte = (j << 4) | j;
        block.push(byte);
    }

    let decoded = decode_q4_0_block(&block);
    let d = f16::from_bits(decoded.d).to_f32();
    let out: Vec<f32> = decoded.quants.iter().map(|&q| d * q as f32).collect();

    assert_eq!(out.len(), 32);
    for (j, v) in out.iter().enumerate() {
        let expected = (((j % 16) as i32) - 8) as f32 * 0.5;
        assert!((v - expected).abs() < 1e-6, "j={j}: got {v}, expected {expected}");
    }
}

#[test]
fn dequantize_q8_0_single_block() {
    let mut block = Vec::with_capacity(34);
    // delta = 0.25
    block.extend_from_slice(&f16::from_f32(0.25).to_le_bytes());
    // 32 signed int8 values: 0, 1, 2, ..., 31
    for j in 0..32_i8 {
        block.push(j as u8);
    }

    let decoded = decode_q8_0_block(&block);
    let d = f16::from_bits(decoded.d).to_f32();
    let out: Vec<f32> = decoded.quants.iter().map(|&q| d * q as f32).collect();

    assert_eq!(out.len(), 32);
    for (j, v) in out.iter().enumerate() {
        let expected = (j as f32) * 0.25;
        assert!((v - expected).abs() < 1e-6, "j={j}: got {v}, expected {expected}");
    }
}

#[test]
fn q8_0_quants_are_signed() {
    let mut block = vec![0u8, 0u8];
    block.extend([0xFFu8, 0x80, 0x7F]);
    block.extend(vec![0u8; 29]);
    let decoded = decode_q8_0_block(&block);
    assert_eq!(&decoded.quants[..4], &[-1, -128, 127, 0]);
}

#[test]
fn dequantize_q4_k_single_block() {
    let mut block = Vec::with_capacity(144);
    // d = 1.0, dmin = 0.0
    block.extend_from_slice(&f16::from_f32(1.0).to_le_bytes());
    block.extend_from_slice(&f16::from_f32(0.0).to_le_bytes());
    // scales: groups 0-3 sc=1/mn=0, groups 4-7 sc=1/mn=0
    block.extend_from_slice(&[1, 1, 1, 1, 0, 0, 0, 0, 1, 1, 1, 1]);
    // qs: 128 bytes of nibbles 0,1,2,...,31 mod 16 repeating per group
    for _ in 0..8 {
        for pair in 0..16_u8 {
            let low = 2 * pair;
            let high = (2 * pair + 1) % 32;
            let byte = (high << 4) | low;
            block.push(byte);
        }
    }

    let decoded = decode_q4_k_block(&block);
    let d = f16::from_bits(decoded.d).to_f32();
    let dmin = f16::from_bits(decoded.dmin).to_f32();
    let mut out = Vec::new();
    for (e, &q) in decoded.quants.iter().enumerate() {
        let g = e / 32;
        let sc = decoded.scales[g] as f32;
        let mn = decoded.mins[g] as f32;
        out.push(d * sc * q as f32 - dmin * mn);
    }

    assert_eq!(out.len(), 256);
    for (j, v) in out.iter().enumerate() {
        let expected = ((j % 32) % 16) as f32;
        assert!((v - expected).abs() < 1e-6, "j={j}: got {v}, expected {expected}");
    }
}

#[test]
fn q4_k_high_groups_take_two_bits_from_earlier_bytes() {
    let mut block = vec![0u8; 144];
    // Group 4: scale low nibble of byte 8, two high bits from byte 0;
    // minimum high nibble of byte 8, two high bits from byte 4.
    block[4] = 0b1100_0001; // group 0 scale 1, top bits 3
    block[8] = 0b1000_0010; // group 0 minimum 2, top bits 2
    block[12] = 0x5A; // low nibble 0xA, high nibble 0x5
    let decoded = decode_q4_k_block(&block);
    assert_eq!(decoded.scales[0], 1);
    assert_eq!(decoded.mins[0], 2);
    assert_eq!(decoded.scales[4], 0xA + 16 * 3);
    assert_eq!(decoded.mins[4], 0x5 + 16 * 2);
}
