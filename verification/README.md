# inferox

A CPU runtime for llama-style language models stored as GGUF files.

The library under `src/` holds the parts that decide, parse and index, each
with a machine-checked contract:

- `gguf`: the GGUF reader (header, metadata values, tensor-info table, data
  alignment), tensor byte ranges, the block decoders of the quantized tensor
  types, and the encoding under which parsing is proved to give back what was
  written;
- `model`: the llama configuration read from the metadata and the wiring of
  embeddings, layers and output tensors;
- `tokenizer`: the byte-level BPE tokenizer (byte alphabet, merges, splitting
  around special tokens, encoding and decoding), with the laws that splitting
  and merging never change the text and that decoding undoes encoding;
- `ops`: kernels that move values by index.

The program under `app/` reads files from disk, holds the floating-point
kernels, the layer forward pass and the sampler, parses `tokenizer.json` with
serde, and prints the contents of a GGUF file.
