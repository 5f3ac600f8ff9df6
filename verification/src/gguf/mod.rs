//! GGUF (Georgi Gerganov Universal Format) parser.
//!
//! Reads the header, the metadata table and the tensor-info table of a GGUF
//! file held in memory, and hands out the raw bytes of each tensor.
pub mod dequant;
pub mod encoding;
pub mod error;
pub mod file;
pub mod laws;
pub mod reader;
pub mod tensor;
pub mod types;
pub mod value;
pub mod weights;

pub use error::Error;
pub use types::{BlockLayout, TensorType, ValueType};
