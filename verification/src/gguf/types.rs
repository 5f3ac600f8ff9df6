use super::error::Error;
use vstd::prelude::*;

verus! {

/// GGUF metadata value types.
#[derive(Clone, Copy, Debug, PartialEq, Eq, Structural)]
pub enum ValueType {
    Uint8,
    Int8,
    Uint16,
    Int16,
    Uint32,
    Int32,
    Float32,
    Bool,
    String,
    Array,
    Uint64,
    Int64,
    Float64,
}

/// The numeric id that the GGUF format uses for a metadata value type.
pub open spec fn value_type_id(t: ValueType) -> u32 {
    match t {
        ValueType::Uint8 => 0,
        ValueType::Int8 => 1,
        ValueType::Uint16 => 2,
        ValueType::Int16 => 3,
        ValueType::Uint32 => 4,
        ValueType::Int32 => 5,
        ValueType::Float32 => 6,
        ValueType::Bool => 7,
        ValueType::String => 8,
        ValueType::Array => 9,
        ValueType::Uint64 => 10,
        ValueType::Int64 => 11,
        ValueType::Float64 => 12,
    }
}

/// The metadata value type with the given id, if there is one.
pub open spec fn spec_value_type_from_u32(value: u32) -> Result<ValueType, Error> {
    match value {
        0 => Ok(ValueType::Uint8),
        1 => Ok(ValueType::Int8),
        2 => Ok(ValueType::Uint16),
        3 => Ok(ValueType::Int16),
        4 => Ok(ValueType::Uint32),
        5 => Ok(ValueType::Int32),
        6 => Ok(ValueType::Float32),
        7 => Ok(ValueType::Bool),
        8 => Ok(ValueType::String),
        9 => Ok(ValueType::Array),
        10 => Ok(ValueType::Uint64),
        11 => Ok(ValueType::Int64),
        12 => Ok(ValueType::Float64),
        _ => Err(Error::UnknownValueType(value)),
    }
}

/// The lower-case name under which a metadata value type is printed.
pub open spec fn spec_value_type_name(t: ValueType) -> Seq<char> {
    match t {
        ValueType::Uint8 => "uint8"@,
        ValueType::Int8 => "int8"@,
        ValueType::Uint16 => "uint16"@,
        ValueType::Int16 => "int16"@,
        ValueType::Uint32 => "uint32"@,
        ValueType::Int32 => "int32"@,
        ValueType::Float32 => "float32"@,
        ValueType::Bool => "bool"@,
        ValueType::String => "string"@,
        ValueType::Array => "array"@,
        ValueType::Uint64 => "uint64"@,
        ValueType::Int64 => "int64"@,
        ValueType::Float64 => "float64"@,
    }
}

impl ValueType {
    /// Decode a metadata value type id.
    pub fn from_u32(value: u32) -> (res: Result<Self, Error>)
        ensures
            res matches Ok(t) ==> spec_value_type_from_u32(value) == Ok::<ValueType, Error>(t),
            res matches Err(e) ==> e matches Error::UnknownValueType(v) && v == value,
            res is Ok <==> value <= 12,
            res matches Ok(t) ==> value_type_id(t) == value,
    {
        match value {
            0 => Ok(ValueType::Uint8),
            1 => Ok(ValueType::Int8),
            2 => Ok(ValueType::Uint16),
            3 => Ok(ValueType::Int16),
            4 => Ok(ValueType::Uint32),
            5 => Ok(ValueType::Int32),
            6 => Ok(ValueType::Float32),
            7 => Ok(ValueType::Bool),
            8 => Ok(ValueType::String),
            9 => Ok(ValueType::Array),
            10 => Ok(ValueType::Uint64),
            11 => Ok(ValueType::Int64),
            12 => Ok(ValueType::Float64),
            _ => Err(Error::UnknownValueType(value)),
        }
    }

    /// The numeric id of this value type in the GGUF format.
    pub fn id(self) -> (res: u32)
        ensures
            res == value_type_id(self),
    {
        match self {
            ValueType::Uint8 => 0,
            ValueType::Int8 => 1,
            ValueType::Uint16 => 2,
            ValueType::Int16 => 3,
            ValueType::Uint32 => 4,
            ValueType::Int32 => 5,
            ValueType::Float32 => 6,
            ValueType::Bool => 7,
            ValueType::String => 8,
            ValueType::Array => 9,
            ValueType::Uint64 => 10,
            ValueType::Int64 => 11,
            ValueType::Float64 => 12,
        }
    }

    /// Lower-case name of this value type, as shown when printing metadata.
    pub fn name(self) -> (res: &'static str)
        ensures
            res@ == spec_value_type_name(self),
    {
        match self {
            ValueType::Uint8 => "uint8",
            ValueType::Int8 => "int8",
            ValueType::Uint16 => "uint16",
            ValueType::Int16 => "int16",
            ValueType::Uint32 => "uint32",
            ValueType::Int32 => "int32",
            ValueType::Float32 => "float32",
            ValueType::Bool => "bool",
            ValueType::String => "string",
            ValueType::Array => "array",
            ValueType::Uint64 => "uint64",
            ValueType::Int64 => "int64",
            ValueType::Float64 => "float64",
        }
    }
}

/// GGML tensor data types stored inside a GGUF file.
///
/// Quantized types are stored in fixed-size blocks; see [`TensorType::block_layout`].
#[allow(non_camel_case_types)]
#[derive(Clone, Copy, Debug, PartialEq, Eq, Structural)]
pub enum TensorType {
    F32,
    F16,
    Q4_0,
    Q4_1,
    Q5_0,
    Q5_1,
    Q8_0,
    Q8_1,
    Q2K,
    Q3K,
    Q4K,
    Q5K,
    Q6K,
    Q8K,
    I8,
    I16,
    I32,
    I64,
    F64,
    Iq1S,
    Iq1M,
    Iq2Xxs,
    Iq2Xs,
    Iq2S,
    Iq3Xxs,
    Iq3S,
    Iq4Xs,
    Iq4Nl,
    Iq4Xss,
}

/// Number of elements per block and bytes per block for a quantized tensor type.
#[derive(Clone, Copy, Debug, PartialEq, Eq, Structural)]
pub struct BlockLayout {
    pub elements: usize,
    pub bytes: usize,
}

/// The numeric id that the GGUF format uses for a tensor type.
pub open spec fn tensor_type_id(t: TensorType) -> u32 {
    match t {
        TensorType::F32 => 0,
        TensorType::F16 => 1,
        TensorType::Q4_0 => 2,
        TensorType::Q4_1 => 3,
        TensorType::Q5_0 => 5,
        TensorType::Q5_1 => 6,
        TensorType::Q8_0 => 7,
        TensorType::Q8_1 => 8,
        TensorType::Q2K => 10,
        TensorType::Q3K => 11,
        TensorType::Q4K => 12,
        TensorType::Q5K => 13,
        TensorType::Q6K => 14,
        TensorType::Q8K => 15,
        TensorType::I8 => 16,
        TensorType::I16 => 17,
        TensorType::I32 => 18,
        TensorType::I64 => 19,
        TensorType::F64 => 20,
        TensorType::Iq1S => 21,
        TensorType::Iq1M => 22,
        TensorType::Iq2Xxs => 23,
        TensorType::Iq2Xs => 24,
        TensorType::Iq2S => 25,
        TensorType::Iq3Xxs => 26,
        TensorType::Iq3S => 27,
        TensorType::Iq4Xs => 28,
        TensorType::Iq4Nl => 29,
        TensorType::Iq4Xss => 30,
    }
}

/// Ids of the tensor types this parser knows: 0 to 30 except 4 and 9.
pub open spec fn is_known_tensor_type_id(value: u32) -> bool {
    value <= 30 && value != 4 && value != 9
}

/// The tensor type with the given id, if there is one.
pub open spec fn spec_tensor_type_from_u32(value: u32) -> Result<TensorType, Error> {
    match value {
        0 => Ok(TensorType::F32),
        1 => Ok(TensorType::F16),
        2 => Ok(TensorType::Q4_0),
        3 => Ok(TensorType::Q4_1),
        5 => Ok(TensorType::Q5_0),
        6 => Ok(TensorType::Q5_1),
        7 => Ok(TensorType::Q8_0),
        8 => Ok(TensorType::Q8_1),
        10 => Ok(TensorType::Q2K),
        11 => Ok(TensorType::Q3K),
        12 => Ok(TensorType::Q4K),
        13 => Ok(TensorType::Q5K),
        14 => Ok(TensorType::Q6K),
        15 => Ok(TensorType::Q8K),
        16 => Ok(TensorType::I8),
        17 => Ok(TensorType::I16),
        18 => Ok(TensorType::I32),
        19 => Ok(TensorType::I64),
        20 => Ok(TensorType::F64),
        21 => Ok(TensorType::Iq1S),
        22 => Ok(TensorType::Iq1M),
        23 => Ok(TensorType::Iq2Xxs),
        24 => Ok(TensorType::Iq2Xs),
        25 => Ok(TensorType::Iq2S),
        26 => Ok(TensorType::Iq3Xxs),
        27 => Ok(TensorType::Iq3S),
        28 => Ok(TensorType::Iq4Xs),
        29 => Ok(TensorType::Iq4Nl),
        30 => Ok(TensorType::Iq4Xss),
        _ => Err(Error::UnknownTensorType(value)),
    }
}

/// The llama.cpp name of a tensor type.
pub open spec fn spec_tensor_type_name(t: TensorType) -> Seq<char> {
    match t {
        TensorType::F32 => "F32"@,
        TensorType::F16 => "F16"@,
        TensorType::Q4_0 => "Q4_0"@,
        TensorType::Q4_1 => "Q4_1"@,
        TensorType::Q5_0 => "Q5_0"@,
        TensorType::Q5_1 => "Q5_1"@,
        TensorType::Q8_0 => "Q8_0"@,
        TensorType::Q8_1 => "Q8_1"@,
        TensorType::Q2K => "Q2_K"@,
        TensorType::Q3K => "Q3_K"@,
        TensorType::Q4K => "Q4_K"@,
        TensorType::Q5K => "Q5_K"@,
        TensorType::Q6K => "Q6_K"@,
        TensorType::Q8K => "Q8_K"@,
        TensorType::I8 => "I8"@,
        TensorType::I16 => "I16"@,
        TensorType::I32 => "I32"@,
        TensorType::I64 => "I64"@,
        TensorType::F64 => "F64"@,
        TensorType::Iq1S => "IQ1_S"@,
        TensorType::Iq1M => "IQ1_M"@,
        TensorType::Iq2Xxs => "IQ2_XXS"@,
        TensorType::Iq2Xs => "IQ2_XS"@,
        TensorType::Iq2S => "IQ2_S"@,
        TensorType::Iq3Xxs => "IQ3_XXS"@,
        TensorType::Iq3S => "IQ3_S"@,
        TensorType::Iq4Xs => "IQ4_XS"@,
        TensorType::Iq4Nl => "IQ4_NL"@,
        TensorType::Iq4Xss => "IQ4_XSS"@,
    }
}

/// Bytes per element of a non-quantized tensor type.
pub open spec fn spec_element_size(t: TensorType) -> Option<usize> {
    match t {
        TensorType::F32 => Some(4),
        TensorType::F16 => Some(2),
        TensorType::I8 => Some(1),
        TensorType::I16 => Some(2),
        TensorType::I32 => Some(4),
        TensorType::I64 => Some(8),
        TensorType::F64 => Some(8),
        _ => None,
    }
}

/// Block layout of a quantized tensor type.
pub open spec fn spec_block_layout(t: TensorType) -> Option<BlockLayout> {
    match t {
        TensorType::Q4_0 => Some(BlockLayout { elements: 32, bytes: 18 }),
        TensorType::Q4_1 => Some(BlockLayout { elements: 32, bytes: 20 }),
        TensorType::Q5_0 => Some(BlockLayout { elements: 32, bytes: 22 }),
        TensorType::Q5_1 => Some(BlockLayout { elements: 32, bytes: 24 }),
        TensorType::Q8_0 => Some(BlockLayout { elements: 32, bytes: 34 }),
        TensorType::Q8_1 => Some(BlockLayout { elements: 32, bytes: 36 }),
        TensorType::Iq4Nl => Some(BlockLayout { elements: 32, bytes: 18 }),
        TensorType::Q2K => Some(BlockLayout { elements: 256, bytes: 96 }),
        TensorType::Q3K => Some(BlockLayout { elements: 256, bytes: 110 }),
        TensorType::Q4K => Some(BlockLayout { elements: 256, bytes: 144 }),
        TensorType::Q5K => Some(BlockLayout { elements: 256, bytes: 176 }),
        TensorType::Q6K => Some(BlockLayout { elements: 256, bytes: 210 }),
        TensorType::Q8K => Some(BlockLayout { elements: 256, bytes: 292 }),
        TensorType::Iq1S => Some(BlockLayout { elements: 256, bytes: 166 }),
        TensorType::Iq1M => Some(BlockLayout { elements: 256, bytes: 184 }),
        TensorType::Iq2Xxs => Some(BlockLayout { elements: 256, bytes: 66 }),
        TensorType::Iq2Xs => Some(BlockLayout { elements: 256, bytes: 104 }),
        TensorType::Iq2S => Some(BlockLayout { elements: 256, bytes: 176 }),
        TensorType::Iq3Xxs => Some(BlockLayout { elements: 256, bytes: 98 }),
        TensorType::Iq3S => Some(BlockLayout { elements: 256, bytes: 166 }),
        TensorType::Iq4Xs => Some(BlockLayout { elements: 256, bytes: 136 }),
        TensorType::Iq4Xss => Some(BlockLayout { elements: 256, bytes: 116 }),
        _ => None,
    }
}

impl TensorType {
    /// Decode a tensor type id.
    pub fn from_u32(value: u32) -> (res: Result<Self, Error>)
        ensures
            res matches Ok(t) ==> spec_tensor_type_from_u32(value) == Ok::<TensorType, Error>(t),
            res matches Err(e) ==> e matches Error::UnknownTensorType(v) && v == value,
            res is Ok <==> is_known_tensor_type_id(value),
            res matches Ok(t) ==> tensor_type_id(t) == value,
    {
        match value {
            0 => Ok(TensorType::F32),
            1 => Ok(TensorType::F16),
            2 => Ok(TensorType::Q4_0),
            3 => Ok(TensorType::Q4_1),
            5 => Ok(TensorType::Q5_0),
            6 => Ok(TensorType::Q5_1),
            7 => Ok(TensorType::Q8_0),
            8 => Ok(TensorType::Q8_1),
            10 => Ok(TensorType::Q2K),
            11 => Ok(TensorType::Q3K),
            12 => Ok(TensorType::Q4K),
            13 => Ok(TensorType::Q5K),
            14 => Ok(TensorType::Q6K),
            15 => Ok(TensorType::Q8K),
            16 => Ok(TensorType::I8),
            17 => Ok(TensorType::I16),
            18 => Ok(TensorType::I32),
            19 => Ok(TensorType::I64),
            20 => Ok(TensorType::F64),
            21 => Ok(TensorType::Iq1S),
            22 => Ok(TensorType::Iq1M),
            23 => Ok(TensorType::Iq2Xxs),
            24 => Ok(TensorType::Iq2Xs),
            25 => Ok(TensorType::Iq2S),
            26 => Ok(TensorType::Iq3Xxs),
            27 => Ok(TensorType::Iq3S),
            28 => Ok(TensorType::Iq4Xs),
            29 => Ok(TensorType::Iq4Nl),
            30 => Ok(TensorType::Iq4Xss),
            _ => Err(Error::UnknownTensorType(value)),
        }
    }

    /// The numeric id of this tensor type in the GGUF format.
    pub fn id(self) -> (res: u32)
        ensures
            res == tensor_type_id(self),
            is_known_tensor_type_id(res),
    {
        match self {
            TensorType::F32 => 0,
            TensorType::F16 => 1,
            TensorType::Q4_0 => 2,
            TensorType::Q4_1 => 3,
            TensorType::Q5_0 => 5,
            TensorType::Q5_1 => 6,
            TensorType::Q8_0 => 7,
            TensorType::Q8_1 => 8,
            TensorType::Q2K => 10,
            TensorType::Q3K => 11,
            TensorType::Q4K => 12,
            TensorType::Q5K => 13,
            TensorType::Q6K => 14,
            TensorType::Q8K => 15,
            TensorType::I8 => 16,
            TensorType::I16 => 17,
            TensorType::I32 => 18,
            TensorType::I64 => 19,
            TensorType::F64 => 20,
            TensorType::Iq1S => 21,
            TensorType::Iq1M => 22,
            TensorType::Iq2Xxs => 23,
            TensorType::Iq2Xs => 24,
            TensorType::Iq2S => 25,
            TensorType::Iq3Xxs => 26,
            TensorType::Iq3S => 27,
            TensorType::Iq4Xs => 28,
            TensorType::Iq4Nl => 29,
            TensorType::Iq4Xss => 30,
        }
    }

    /// Human-readable name, matching llama.cpp conventions.
    pub fn name(self) -> (res: &'static str)
        ensures
            res@ == spec_tensor_type_name(self),
    {
        match self {
            TensorType::F32 => "F32",
            TensorType::F16 => "F16",
            TensorType::Q4_0 => "Q4_0",
            TensorType::Q4_1 => "Q4_1",
            TensorType::Q5_0 => "Q5_0",
            TensorType::Q5_1 => "Q5_1",
            TensorType::Q8_0 => "Q8_0",
            TensorType::Q8_1 => "Q8_1",
            TensorType::Q2K => "Q2_K",
            TensorType::Q3K => "Q3_K",
            TensorType::Q4K => "Q4_K",
            TensorType::Q5K => "Q5_K",
            TensorType::Q6K => "Q6_K",
            TensorType::Q8K => "Q8_K",
            TensorType::I8 => "I8",
            TensorType::I16 => "I16",
            TensorType::I32 => "I32",
            TensorType::I64 => "I64",
            TensorType::F64 => "F64",
            TensorType::Iq1S => "IQ1_S",
            TensorType::Iq1M => "IQ1_M",
            TensorType::Iq2Xxs => "IQ2_XXS",
            TensorType::Iq2Xs => "IQ2_XS",
            TensorType::Iq2S => "IQ2_S",
            TensorType::Iq3Xxs => "IQ3_XXS",
            TensorType::Iq3S => "IQ3_S",
            TensorType::Iq4Xs => "IQ4_XS",
            TensorType::Iq4Nl => "IQ4_NL",
            TensorType::Iq4Xss => "IQ4_XSS",
        }
    }

    /// Size of a single element in bytes for non-quantized types.
    pub fn element_size(self) -> (res: Option<usize>)
        ensures
            res == spec_element_size(self),
    {
        match self {
            TensorType::F32 => Some(4),
            TensorType::F16 => Some(2),
            TensorType::I8 => Some(1),
            TensorType::I16 => Some(2),
            TensorType::I32 => Some(4),
            TensorType::I64 => Some(8),
            TensorType::F64 => Some(8),
            _ => None,
        }
    }

    /// Block layout for quantized types.
    ///
    /// Returns `None` for non-quantized types.
    pub fn block_layout(self) -> (res: Option<BlockLayout>)
        ensures
            res == spec_block_layout(self),
    {
        match self {
            TensorType::Q4_0 => Some(BlockLayout { elements: 32, bytes: 18 }),
            TensorType::Q4_1 => Some(BlockLayout { elements: 32, bytes: 20 }),
            TensorType::Q5_0 => Some(BlockLayout { elements: 32, bytes: 22 }),
            TensorType::Q5_1 => Some(BlockLayout { elements: 32, bytes: 24 }),
            TensorType::Q8_0 => Some(BlockLayout { elements: 32, bytes: 34 }),
            TensorType::Q8_1 => Some(BlockLayout { elements: 32, bytes: 36 }),
            TensorType::Iq4Nl => Some(BlockLayout { elements: 32, bytes: 18 }),
            TensorType::Q2K => Some(BlockLayout { elements: 256, bytes: 96 }),
            TensorType::Q3K => Some(BlockLayout { elements: 256, bytes: 110 }),
            TensorType::Q4K => Some(BlockLayout { elements: 256, bytes: 144 }),
            TensorType::Q5K => Some(BlockLayout { elements: 256, bytes: 176 }),
            TensorType::Q6K => Some(BlockLayout { elements: 256, bytes: 210 }),
            TensorType::Q8K => Some(BlockLayout { elements: 256, bytes: 292 }),
            TensorType::Iq1S => Some(BlockLayout { elements: 256, bytes: 166 }),
            TensorType::Iq1M => Some(BlockLayout { elements: 256, bytes: 184 }),
            TensorType::Iq2Xxs => Some(BlockLayout { elements: 256, bytes: 66 }),
            TensorType::Iq2Xs => Some(BlockLayout { elements: 256, bytes: 104 }),
            TensorType::Iq2S => Some(BlockLayout { elements: 256, bytes: 176 }),
            TensorType::Iq3Xxs => Some(BlockLayout { elements: 256, bytes: 98 }),
            TensorType::Iq3S => Some(BlockLayout { elements: 256, bytes: 166 }),
            TensorType::Iq4Xs => Some(BlockLayout { elements: 256, bytes: 136 }),
            TensorType::Iq4Xss => Some(BlockLayout { elements: 256, bytes: 116 }),
            _ => None,
        }
    }

    /// Returns true for quantized tensor types.
    pub fn is_quantized(self) -> (res: bool)
        ensures
            res == spec_element_size(self).is_none(),
    {
        self.element_size().is_none()
    }
}

/// Every tensor type is either stored element by element or in blocks, never both.
pub proof fn lemma_tensor_type_storage(t: TensorType)
    ensures
        spec_element_size(t).is_some() != spec_block_layout(t).is_some(),
        spec_block_layout(t) matches Some(l) ==> l.elements > 0 && l.bytes > 0,
        spec_element_size(t) matches Some(s) ==> s > 0,
{
}

/// Decoding the id of a tensor type gives that tensor type back.
pub proof fn lemma_tensor_type_id_roundtrip(t: TensorType)
    ensures
        spec_tensor_type_from_u32(tensor_type_id(t)) == Ok::<TensorType, Error>(t),
{
}

/// Decoding the id of a value type gives that value type back.
pub proof fn lemma_value_type_id_roundtrip(t: ValueType)
    ensures
        spec_value_type_from_u32(value_type_id(t)) == Ok::<ValueType, Error>(t),
{
}

} // verus!
