# multimind

A registry of classification models with lazy loading and hot reload, a store of
correction signals, and a retrain pipeline that learns from them.

The crate has two parts.

- `src/` is the library. It decides and computes, and its behaviour is stated in
  contracts that Verus proves. Floating point numbers travel through it as their
  IEEE 754 bits.
- `app/` is what surrounds it: TOML and JSON files, SQLite and PostgreSQL, ONNX
  Runtime sessions, locks, the background task, and floating point arithmetic.

## Modules of the library

| Module | What it holds |
| --- | --- |
| `config` | model configurations and their defaults |
| `model` | inputs, verdicts, and the trait of backends |
| `registry` | which backend answers for a model, and how it gets loaded |
| `backends::onnx_text` | label maps, and reading the outputs of text models |
| `signals` | correction signals, what every store keeps to, a store in memory, SQL |
| `retrain` | features, weights, artifacts, and the pipeline |
| `name_map`, `paths`, `text` | what the others are built from |

What holds of several functions together is stated by public proof functions:
in `signals::laws`, in `retrain::laws`, and beside the functions they speak of.

## What is taken on trust

- `serde_json::from_str`, for the object of strings that a label map is;
- `sha2::Sha256::digest`, for the checksum of an artifact;
- `chrono::Utc::now`, for the time at which an artifact is made;
- `std::path::Path::join`, where paths are written as the machine has it.

Implementations of `ModelBackend`, `SignalStore` and `WeightModel` outside the
library are taken to keep to the contracts of those traits.
