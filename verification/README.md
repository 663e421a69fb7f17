# stable-worldmodel

A runtime for world-model control on top of Candle: observations become
latents, candidate action sequences are rolled out and scored, and a planner
picks the next action.

```text
image / video / state -> latent -> candidate rollout -> cost -> action
```

Two model families are supported: LeWM, which plans towards a goal picture, and
TD-MPC2, which plans for return. Three planners work with both: CEM, MPPI and
iCEM.

## Layout

- `src/` is the library. Verus verifies its functions against the contracts in
  their headers, except at the boundary to Candle and the standard library: a
  function marked `#[verifier::external_body]` only makes a call into one of
  them, and an `assume_specification` describes one. Their contracts are
  believed, and the comment above each says what it claims of the call.
  - `tensor/` is the boundary to Candle: what a tensor holds (`value.rs`), the
    operations that move elements (`layout.rs`, `make.rs`), those that compute
    with them (`arithmetic.rs`) and layers with their parameters (`layers.rs`).
  - `models/` holds the two model families, `session/` the state between
    control steps, `planner/` the planners.
  - `preprocess.rs` and `media/` turn pictures, video frames, states and actions
    into model inputs.
  - `artifact.rs`, `checkpoint.rs`, `config.rs`, `hub.rs` and `runtime.rs` decide
    what is loaded, from where, and in which precision.
  - `ffi/` holds the handles of the C interface, `tools/` what the command-line
    programs compute.
- `app/` is ordinary Rust around the library: command lines, files, JSON, the
  exported C functions and the CUDA kernels' launches.
- `tests/` runs the library against Candle on the CPU.
- `extras/kernels/` holds the CUDA sources that `app/` launches.

## Numbers

Verified code holds a floating-point number as its bit pattern (`scalar.rs`). Its
order key is an integer, so comparing, clamping, sorting and picking are stated
exactly. How a device rounds a sum or a product is not: an operation that rounds
has a relation between its operands and its result, and a contract says which
operations were applied to what, in which order.

## Devices

On the processor a contract also says when a call succeeds: whether the backend
computes something there depends on shapes, element types and, for a model, on
what its parameter file holds. On any other device the backend can fail for
reasons of its own, and a contract only says what such a failure leaves behind.
