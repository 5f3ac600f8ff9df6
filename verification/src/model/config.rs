//! Model hyperparameters read from GGUF metadata.
use crate::gguf::file::{spec_get_string, spec_get_u32, spec_get_u64, GgufFile, GgufModel};
use crate::gguf::Error;
use crate::text::str_eq;
use vstd::prelude::*;
use vstd::string::StringExecFns;

verus! {

/// Model hyperparameters parsed from GGUF metadata.
///
/// The two floating-point hyperparameters of the llama architecture, the
/// RMSNorm epsilon (`llama.attention.layer_norm_rms_epsilon`, default `1e-5`)
/// and the RoPE base frequency (`llama.rope.freq_base`, default `10000`), are
/// read by the caller from the same metadata.
#[derive(Clone, Debug, PartialEq)]
pub struct Config {
    /// Vocabulary size.
    pub vocab_size: u32,
    /// Hidden size / embedding dimension (e.g., 4096).
    pub hidden_size: usize,
    /// Number of transformer layers.
    pub n_layers: usize,
    /// Number of attention heads.
    pub n_heads: usize,
    /// Number of key/value heads (GQA); defaults to `n_heads` if absent.
    pub n_kv_heads: usize,
    /// Dimensionality of each head for keys/queries.
    pub head_dim: usize,
    /// Feed-forward intermediate dimension.
    pub intermediate_size: usize,
    /// Number of dimensions to apply RoPE to.
    pub rope_dim: usize,
    /// Maximum context length from training.
    pub context_length: usize,
    /// Model architecture string, e.g. "llama".
    pub architecture: String,
}

/// The mathematical content of a [`Config`].
pub struct ConfigModel {
    pub vocab_size: u32,
    pub hidden_size: usize,
    pub n_layers: usize,
    pub n_heads: usize,
    pub n_kv_heads: usize,
    pub head_dim: usize,
    pub intermediate_size: usize,
    pub rope_dim: usize,
    pub context_length: usize,
    pub architecture: Seq<char>,
}

impl View for Config {
    type V = ConfigModel;

    open spec fn view(&self) -> ConfigModel {
        ConfigModel {
            vocab_size: self.vocab_size,
            hidden_size: self.hidden_size,
            n_layers: self.n_layers,
            n_heads: self.n_heads,
            n_kv_heads: self.n_kv_heads,
            head_dim: self.head_dim,
            intermediate_size: self.intermediate_size,
            rope_dim: self.rope_dim,
            context_length: self.context_length,
            architecture: self.architecture@,
        }
    }
}

/// Why a configuration or a model cannot be built from a file.
pub enum ModelFailure {
    /// The named key or tensor is missing ([`Error::TensorNotFound`]).
    Missing(Seq<char>),
    /// The architecture is not llama ([`Error::UnsupportedArchitecture`]).
    Unsupported(Seq<char>),
}

/// Whether an error is the one a failure describes.
pub open spec fn error_is(e: Error, f: ModelFailure) -> bool {
    match f {
        ModelFailure::Missing(k) => e matches Error::TensorNotFound(s) && s@ == k,
        ModelFailure::Unsupported(a) => e matches Error::UnsupportedArchitecture(s) && s@ == a,
    }
}

/// A `u32` read from the metadata, widened to `usize`, or a default.
pub open spec fn u32_or(v: Option<u32>, default: usize) -> usize {
    match v {
        Some(x) => x as usize,
        None => default,
    }
}

/// The file has a llama architecture and the three keys read before the head
/// dimension, and the head count is zero: the default head dimension
/// `hidden_size / n_heads` cannot be computed.
pub open spec fn config_divides_by_zero(f: GgufModel) -> bool {
    &&& spec_get_string(f, "general.architecture"@) == Some("llama"@)
    &&& spec_get_u64(f, "llama.embedding_length"@) is Some
    &&& spec_get_u64(f, "llama.block_count"@) is Some
    &&& spec_get_u64(f, "llama.attention.head_count"@) matches Some(h) && h as usize == 0
}

/// Configuration from the standard `llama.*` metadata keys: the architecture
/// must be `"llama"`; embedding length, block count, head count and
/// feed-forward length are required; the other keys fall back to defaults.
pub open spec fn spec_config(f: GgufModel) -> Result<ConfigModel, ModelFailure> {
    match spec_get_string(f, "general.architecture"@) {
        None => Err(ModelFailure::Missing("general.architecture"@)),
        Some(architecture) => if architecture != "llama"@ {
            Err(ModelFailure::Unsupported(architecture))
        } else {
            match spec_get_u64(f, "llama.embedding_length"@) {
                None => Err(ModelFailure::Missing("llama.embedding_length"@)),
                Some(hidden) => match spec_get_u64(f, "llama.block_count"@) {
                    None => Err(ModelFailure::Missing("llama.block_count"@)),
                    Some(layers) => match spec_get_u64(f, "llama.attention.head_count"@) {
                        None => Err(ModelFailure::Missing("llama.attention.head_count"@)),
                        Some(heads) => {
                            let hidden_size = hidden as usize;
                            let n_heads = heads as usize;
                            let head_dim = u32_or(
                                spec_get_u32(f, "llama.attention.key_length"@),
                                (hidden_size / n_heads) as usize,
                            );
                            match spec_get_u64(f, "llama.feed_forward_length"@) {
                                None => Err(ModelFailure::Missing("llama.feed_forward_length"@)),
                                Some(ffn) => Ok(
                                    ConfigModel {
                                        vocab_size: match spec_get_u32(f, "llama.vocab_size"@) {
                                            Some(v) => v,
                                            None => 0,
                                        },
                                        hidden_size,
                                        n_layers: layers as usize,
                                        n_heads,
                                        n_kv_heads: u32_or(
                                            spec_get_u32(f, "llama.attention.head_count_kv"@),
                                            n_heads,
                                        ),
                                        head_dim,
                                        intermediate_size: ffn as usize,
                                        rope_dim: u32_or(
                                            spec_get_u32(f, "llama.rope.dimension_count"@),
                                            head_dim,
                                        ),
                                        context_length: u32_or(
                                            spec_get_u32(f, "llama.context_length"@),
                                            4096,
                                        ),
                                        architecture,
                                    },
                                ),
                            }
                        },
                    },
                },
            }
        },
    }
}

/// Relates the result of building a configuration to its specification.
pub open spec fn config_agrees(res: Result<Config, Error>, f: GgufModel) -> bool {
    match (res, spec_config(f)) {
        (Ok(c), Ok(m)) => c@ == m,
        (Err(e), Err(failure)) => error_is(e, failure),
        _ => false,
    }
}

fn get_usize(file: &GgufFile, key: &str) -> (res: Result<usize, Error>)
    ensures
        match spec_get_u64(file@, key@) {
            Some(v) => res == Ok::<usize, Error>(v as usize),
            None => res matches Err(Error::TensorNotFound(k)) && k@ == key@,
        },
{
    match file.get_u64(key) {
        Some(v) => Ok(v as usize),
        None => Err(Error::TensorNotFound(String::from_str(key))),
    }
}

fn get_u32_or(file: &GgufFile, key: &str, default: usize) -> (res: usize)
    ensures
        res == u32_or(spec_get_u32(file@, key@), default),
{
    match file.get_u32(key) {
        Some(v) => v as usize,
        None => default,
    }
}

impl Config {
    /// Parse configuration from standard `llama.*` GGUF metadata keys.
    pub fn from_gguf(file: &GgufFile) -> (res: Result<Self, Error>)
        requires
            !config_divides_by_zero(file@),
        ensures
            config_agrees(res, file@),
    {
        let architecture = match file.get_string("general.architecture") {
            Some(a) => String::from_str(a),
            None => {
                return Err(Error::TensorNotFound(String::from_str("general.architecture")));
            },
        };
        if !str_eq(architecture.as_str(), "llama") {
            return Err(Error::UnsupportedArchitecture(architecture));
        }
        let hidden_size = get_usize(file, "llama.embedding_length")?;
        let n_layers = get_usize(file, "llama.block_count")?;
        let n_heads = get_usize(file, "llama.attention.head_count")?;
        let n_kv_heads = get_u32_or(file, "llama.attention.head_count_kv", n_heads);
        let head_dim = get_u32_or(file, "llama.attention.key_length", hidden_size / n_heads);
        let intermediate_size = get_usize(file, "llama.feed_forward_length")?;
        let rope_dim = get_u32_or(file, "llama.rope.dimension_count", head_dim);
        let context_length = get_u32_or(file, "llama.context_length", 4096);
        let vocab_size = match file.get_u32("llama.vocab_size") {
            Some(v) => v,
            None => 0,
        };
        Ok(
            Config {
                vocab_size,
                hidden_size,
                n_layers,
                n_heads,
                n_kv_heads,
                head_dim,
                intermediate_size,
                rope_dim,
                context_length,
                architecture,
            },
        )
    }
}

} // verus!
