# Super-Inference

Verified planning for running large language models under a constrained
GPU-memory budget, and for measuring such runs.

The library decides everything that can be decided without the device: which
shapes are accepted and how refusals are worded, which kernels are launched with
which sizes, which buffers they read and write, what memory a step is charged
with, how weights are bound on page boundaries, how a key/value cache is laid
out, how BF16 weights are coded without loss, which drafted tokens are accepted,
and what the programs print. Each function states this in its contract, and
Verus proves it.

## Layout

- `src/metal/`: plans for the Metal backend. A `Plan` holds the launches, the
  wiring between them, the buffers to allocate, the outputs to read back, and the
  memory profile that a `MetalContext` keeps account of. `Plan::operands` lists
  what the host and the device give to the step, in its order.
- `src/layers/`: the device steps of single model layers and the data movement
  between them.
- `src/cache.rs`: the head-major key/value cache.
- `src/lossless/`: the block codecs for BF16 weights, bit-packed matrices, and
  their measurement.
- `src/logits.rs`: greedy choice, rankings and acceptance of drafted tokens.
  Floating-point values stand as their bits.
- `src/report.rs`, `src/json.rs`, `src/bench.rs`: run reports and how their JSON
  form reads back, the mock backend and the benchmark's command line.
- `src/probes/`: the command lines, checks and listings of the probe programs, and
  the states of their drafting loops.
- `src/options.rs`, `src/text.rs`, `src/quant.rs`, `src/tensor.rs`: shared
  building blocks.
- `app/`: the programs. They read the environment, drive the Metal device, do
  floating-point arithmetic and print.
- `tests/`: tests on concrete values.

## What is trusted

- `flate2` compresses and decompresses (`src/lossless/zlib.rs`).
- `std` reads the clock and keeps measured work (`src/timing.rs`), appends to a `String`
  (`src/text.rs`) and writes texts in their debugging form
  (`src/probes/gguf_inspect.rs`).

Laws that relate several functions are public proof functions whose names begin
with `law_`.
