# unlit3d

The logic of a small unlit 3D renderer, written in Verus and proved.

- `src/` is the library. It holds what the renderer decides and computes on
  plain values: the input state and its dispatch, the translation of window
  events and of input for egui, the order frame sources record in, the draw list
  of a frame, the bookkeeping of meshes, pipelines and their buffers, and the
  swap chain's configuration. Every function states what it does in its
  contract. The laws that relate several functions are the proof functions whose
  names start with `law_`.
- `tests/` runs the library on concrete values.
- `app/` is the ordinary Rust around it: the GPU calls, the window, the entity
  world, and the arithmetic on floating-point numbers.

Entities are named by a type parameter, resources by a `ResourceId`, and
single-precision numbers are carried by their bit pattern (`scalar::Scalar`).

The library calls into `arrayvec`, `hashbrown`, `wgpu`, `winit` and `zerocopy`,
and names types of `egui`. What it takes on trust of a call stands as the
contract of a small function beside it, in `collections`, `indices`, `surface`
and `input::window`.
