use vstd::prelude::*;

verus! {

/// The error `String::from_utf8` of std reports: the rejected bytes and where
/// their first invalid sequence lies.
#[verifier::external_type_specification]
#[verifier::external_body]
pub struct ExFromUtf8Error(std::string::FromUtf8Error);

/// Errors reported while parsing a GGUF file or looking up its contents.
#[derive(Debug)]
pub enum Error {
    /// The file does not start with the GGUF magic bytes.
    InvalidMagic([u8; 4]),
    /// The GGUF version is not supported by this parser.
    UnsupportedVersion(u32),
    /// A metadata value type id is unknown.
    UnknownValueType(u32),
    /// A tensor type id is unknown.
    UnknownTensorType(u32),
    /// A string in the file is not valid UTF-8.
    InvalidUtf8(std::string::FromUtf8Error),
    /// The tensor shape claims more dimensions than GGUF allows.
    InvalidShape { n_dims: u32 },
    /// The file ended before the parser could read the requested data.
    UnexpectedEof,
    /// A tensor or metadata key that was asked for is not present.
    TensorNotFound(String),
    /// A tensor index or an output length does not fit the tensor table.
    InvalidTensorIndex(usize),
    /// A tensor's byte range does not fit in the address space.
    TensorOffsetOverflow,
    /// The model architecture named in the metadata is not supported.
    UnsupportedArchitecture(String),
}

} // verus!
