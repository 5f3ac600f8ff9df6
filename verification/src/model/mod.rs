//! Model architecture wired from a GGUF file.
pub mod config;

pub use config::Config;

use crate::gguf::file::{lemma_find_tensor_in_range, spec_find_tensor, GgufFile, GgufModel};
use crate::gguf::Error;
use crate::gguf::weights::Weights;
use crate::text::{push_decimal, spec_decimal};
use config::{config_divides_by_zero, error_is, spec_config, ConfigModel, ModelFailure};
use vstd::prelude::*;
use vstd::string::StringExecFns;

verus! {

/// A single transformer layer's weight tensor indices.
#[derive(Clone, Debug, PartialEq)]
pub struct Layer {
    pub index: usize,
    pub attn_norm: usize,
    pub attn_q: usize,
    pub attn_k: usize,
    pub attn_v: usize,
    pub attn_output: usize,
    pub ffn_norm: usize,
    pub ffn_gate: usize,
    pub ffn_up: usize,
    pub ffn_down: usize,
}

/// Name of a per-layer tensor: `blk.{index}.{part}`.
pub open spec fn layer_tensor_name(index: nat, part: Seq<char>) -> Seq<char> {
    "blk."@ + spec_decimal(index) + "."@ + part
}

/// Index of the first tensor with the given name, as a `usize`.
pub open spec fn spec_tensor_index(f: GgufModel, name: Seq<char>) -> Option<usize> {
    match spec_find_tensor(f.tensors, name, 0) {
        Some(i) => Some(i as usize),
        None => None,
    }
}

/// The tensor indices of layer `index`, if all nine of its tensors are present.
pub open spec fn spec_layer(f: GgufModel, index: usize) -> Option<Layer> {
    let i = index as nat;
    match (
        spec_tensor_index(f, layer_tensor_name(i, "attn_norm.weight"@)),
        spec_tensor_index(f, layer_tensor_name(i, "attn_q.weight"@)),
        spec_tensor_index(f, layer_tensor_name(i, "attn_k.weight"@)),
        spec_tensor_index(f, layer_tensor_name(i, "attn_v.weight"@)),
        spec_tensor_index(f, layer_tensor_name(i, "attn_output.weight"@)),
        spec_tensor_index(f, layer_tensor_name(i, "ffn_norm.weight"@)),
        spec_tensor_index(f, layer_tensor_name(i, "ffn_gate.weight"@)),
        spec_tensor_index(f, layer_tensor_name(i, "ffn_up.weight"@)),
        spec_tensor_index(f, layer_tensor_name(i, "ffn_down.weight"@)),
    ) {
        (
            Some(attn_norm),
            Some(attn_q),
            Some(attn_k),
            Some(attn_v),
            Some(attn_output),
            Some(ffn_norm),
            Some(ffn_gate),
            Some(ffn_up),
            Some(ffn_down),
        ) => Some(
            Layer {
                index,
                attn_norm,
                attn_q,
                attn_k,
                attn_v,
                attn_output,
                ffn_norm,
                ffn_gate,
                ffn_up,
                ffn_down,
            },
        ),
        _ => None,
    }
}

/// The first layer index from `i` up to `n` whose tensors are not all present.
pub open spec fn spec_missing_layer(f: GgufModel, n: usize, i: int) -> Option<int>
    decreases n - i,
{
    if i < 0 || i >= n {
        None
    } else if spec_layer(f, i as usize) is None {
        Some(i)
    } else {
        spec_missing_layer(f, n, i + 1)
    }
}

/// Look up one tensor of a layer, given the layer's name prefix `blk.{index}.`.
fn find_layer_tensor(file: &GgufFile, prefix: &String, part: &str, Ghost(index): Ghost<nat>) -> (res: Option<usize>)
    requires
        prefix@ == "blk."@ + spec_decimal(index) + "."@,
    ensures
        res == spec_tensor_index(file@, layer_tensor_name(index, part@)),
{
    let mut name = prefix.clone();
    name.append(part);
    proof {
        lemma_find_tensor_in_range(file@.tensors, name@, 0);
    }
    match file.tensor_index(name.as_str()) {
        Some(i) => Some(i),
        None => None,
    }
}

/// The name prefix `blk.{index}.` of a layer's tensors.
fn layer_prefix(index: usize) -> (res: String)
    ensures
        res@ == "blk."@ + spec_decimal(index as nat) + "."@,
{
    let mut prefix = String::from_str("blk.");
    push_decimal(&mut prefix, index);
    prefix.append(".");
    prefix
}

impl Layer {
    /// Wire layer `index` to the tensors `blk.{index}.*.weight`, if all are present.
    pub fn from_weights(weights: &GgufFile, index: usize) -> (res: Option<Self>)
        ensures
            res == spec_layer(weights@, index),
    {
        let prefix = layer_prefix(index);
        let ghost i = index as nat;
        let attn_norm = find_layer_tensor(weights, &prefix, "attn_norm.weight", Ghost(i))?;
        let attn_q = find_layer_tensor(weights, &prefix, "attn_q.weight", Ghost(i))?;
        let attn_k = find_layer_tensor(weights, &prefix, "attn_k.weight", Ghost(i))?;
        let attn_v = find_layer_tensor(weights, &prefix, "attn_v.weight", Ghost(i))?;
        let attn_output = find_layer_tensor(weights, &prefix, "attn_output.weight", Ghost(i))?;
        let ffn_norm = find_layer_tensor(weights, &prefix, "ffn_norm.weight", Ghost(i))?;
        let ffn_gate = find_layer_tensor(weights, &prefix, "ffn_gate.weight", Ghost(i))?;
        let ffn_up = find_layer_tensor(weights, &prefix, "ffn_up.weight", Ghost(i))?;
        let ffn_down = find_layer_tensor(weights, &prefix, "ffn_down.weight", Ghost(i))?;
        Some(
            Layer {
                index,
                attn_norm,
                attn_q,
                attn_k,
                attn_v,
                attn_output,
                ffn_norm,
                ffn_gate,
                ffn_up,
                ffn_down,
            },
        )
    }
}

/// A loaded model with its configuration and wired tensor indices.
#[derive(Debug)]
pub struct Model {
    pub config: Config,
    pub weights: Weights,
    pub layers: Vec<Layer>,
    pub token_embeddings: usize,
    pub output_norm: usize,
    pub output: Option<usize>,
}

/// What wiring a model from a file gives: its configuration, then every layer
/// `0..n_layers`, then the token embeddings and the output norm; the output
/// projection is optional.
pub open spec fn model_agrees(res: Result<Model, Error>, f: GgufModel) -> bool {
    match spec_config(f) {
        Err(failure) => res matches Err(e) && error_is(e, failure),
        Ok(c) => match spec_missing_layer(f, c.n_layers, 0) {
            Some(i) => res matches Err(e) && error_is(
                e,
                ModelFailure::Missing("blk."@ + spec_decimal(i as nat) + ".*"@),
            ),
            None => match spec_tensor_index(f, "token_embd.weight"@) {
                None => res matches Err(e) && error_is(e, ModelFailure::Missing("token_embd.weight"@)),
                Some(te) => match spec_tensor_index(f, "output_norm.weight"@) {
                    None => res matches Err(e) && error_is(
                        e,
                        ModelFailure::Missing("output_norm.weight"@),
                    ),
                    Some(on) => res matches Ok(m) && {
                        &&& m.config@ == c
                        &&& m.layers@.len() == c.n_layers
                        &&& forall|i: int|
                            0 <= i < c.n_layers ==> spec_layer(f, i as usize) == Some(
                                #[trigger] m.layers@[i],
                            )
                        &&& m.token_embeddings == te
                        &&& m.output_norm == on
                        &&& m.output == spec_tensor_index(f, "output.weight"@)
                    },
                },
            },
        },
    }
}

impl Model {
    /// Parse the architecture metadata of a GGUF file and wire its tensors.
    pub fn from_weights(weights: Weights) -> (res: Result<Self, Error>)
        requires
            !config_divides_by_zero(weights@.0),
        ensures
            model_agrees(res, weights@.0),
            res matches Ok(m) ==> m.weights@ == weights@,
    {
        let ghost f = weights@.0;
        let config = Config::from_gguf(weights.file());
        let config = match config {
            Ok(c) => c,
            Err(e) => {
                return Err(e);
            },
        };
        let file = weights.file();
        let n = config.n_layers;
        let mut layers: Vec<Layer> = Vec::new();
        let mut i: usize = 0;
        while i < n
            invariant
                file@ == f,
                f == weights@.0,
                spec_config(f) == Ok::<ConfigModel, ModelFailure>(config@),
                n == config.n_layers,
                i <= n,
                layers@.len() == i,
                spec_missing_layer(f, n, 0) == spec_missing_layer(f, n, i as int),
                forall|j: int| 0 <= j < i ==> spec_layer(f, j as usize) == Some(#[trigger] layers@[j]),
            decreases n - i,
        {
            match Layer::from_weights(file, i) {
                Some(layer) => {
                    layers.push(layer);
                },
                None => {
                    let mut msg = String::from_str("blk.");
                    push_decimal(&mut msg, i);
                    msg.append(".*");
                    return Err(Error::TensorNotFound(msg));
                },
            }
            i = i + 1;
        }
        proof {
            lemma_find_tensor_in_range(f.tensors, "token_embd.weight"@, 0);
            lemma_find_tensor_in_range(f.tensors, "output_norm.weight"@, 0);
            lemma_find_tensor_in_range(f.tensors, "output.weight"@, 0);
        }
        let token_embeddings = match file.tensor_index("token_embd.weight") {
            Some(t) => t,
            None => {
                return Err(Error::TensorNotFound(String::from_str("token_embd.weight")));
            },
        };
        let output_norm = match file.tensor_index("output_norm.weight") {
            Some(t) => t,
            None => {
                return Err(Error::TensorNotFound(String::from_str("output_norm.weight")));
            },
        };
        let output = file.tensor_index("output.weight");
        Ok(Model { config, weights, layers, token_embeddings, output_norm, output })
    }
}

/// A tensor index found by name points at a tensor of that name.
proof fn lemma_index_names(f: GgufModel, name: Seq<char>)
    requires
        f.tensors.len() <= usize::MAX,
    ensures
        spec_tensor_index(f, name) matches Some(i) ==> i < f.tensors.len() && f.tensors[i as int].name
            == name,
{
    lemma_find_tensor_in_range(f.tensors, name, 0);
}

/// Tensor `t` of the file is the one named `name`.
pub open spec fn names(f: GgufModel, t: usize, name: Seq<char>) -> bool {
    t < f.tensors.len() && f.tensors[t as int].name == name
}

/// Layer `l` is layer `i`, and each of its indices points at the tensor
/// `blk.{i}.<part>.weight` of its part.
pub open spec fn layer_names(f: GgufModel, l: Layer, i: nat) -> bool {
    &&& l.index == i
    &&& names(f, l.attn_norm, layer_tensor_name(i, "attn_norm.weight"@))
    &&& names(f, l.attn_q, layer_tensor_name(i, "attn_q.weight"@))
    &&& names(f, l.attn_k, layer_tensor_name(i, "attn_k.weight"@))
    &&& names(f, l.attn_v, layer_tensor_name(i, "attn_v.weight"@))
    &&& names(f, l.attn_output, layer_tensor_name(i, "attn_output.weight"@))
    &&& names(f, l.ffn_norm, layer_tensor_name(i, "ffn_norm.weight"@))
    &&& names(f, l.ffn_gate, layer_tensor_name(i, "ffn_gate.weight"@))
    &&& names(f, l.ffn_up, layer_tensor_name(i, "ffn_up.weight"@))
    &&& names(f, l.ffn_down, layer_tensor_name(i, "ffn_down.weight"@))
}

/// A wired layer names its tensors.
pub proof fn lemma_layer_names(f: GgufModel, index: usize)
    requires
        f.tensors.len() <= usize::MAX,
        spec_layer(f, index) is Some,
    ensures
        layer_names(f, spec_layer(f, index)->0, index as nat),
{
    let i = index as nat;
    lemma_index_names(f, layer_tensor_name(i, "attn_norm.weight"@));
    lemma_index_names(f, layer_tensor_name(i, "attn_q.weight"@));
    lemma_index_names(f, layer_tensor_name(i, "attn_k.weight"@));
    lemma_index_names(f, layer_tensor_name(i, "attn_v.weight"@));
    lemma_index_names(f, layer_tensor_name(i, "attn_output.weight"@));
    lemma_index_names(f, layer_tensor_name(i, "ffn_norm.weight"@));
    lemma_index_names(f, layer_tensor_name(i, "ffn_gate.weight"@));
    lemma_index_names(f, layer_tensor_name(i, "ffn_up.weight"@));
    lemma_index_names(f, layer_tensor_name(i, "ffn_down.weight"@));
}

/// Wiring names what it wires: in a model built from a file, the token
/// embeddings, the output norm, the output projection when there is one, and
/// every tensor of every layer `i` are the tensors of those names, and the
/// model has one layer for each of its configured layers.
pub proof fn lemma_model_wires_named_tensors(m: Model, f: GgufModel)
    requires
        f.tensors.len() <= usize::MAX,
        model_agrees(Ok(m), f),
    ensures
        m.layers@.len() == m.config@.n_layers,
        names(f, m.token_embeddings, "token_embd.weight"@),
        names(f, m.output_norm, "output_norm.weight"@),
        m.output matches Some(o) ==> names(f, o, "output.weight"@),
        forall|i: int| 0 <= i < m.layers@.len() ==> layer_names(f, #[trigger] m.layers@[i], i as nat),
{
    lemma_index_names(f, "token_embd.weight"@);
    lemma_index_names(f, "output_norm.weight"@);
    lemma_index_names(f, "output.weight"@);
    assert forall|i: int| 0 <= i < m.layers@.len() implies layer_names(
        f,
        #[trigger] m.layers@[i],
        i as nat,
    ) by {
        assert(spec_layer(f, i as usize) == Some(m.layers@[i]));
        lemma_layer_names(f, i as usize);
    }
}

} // verus!
