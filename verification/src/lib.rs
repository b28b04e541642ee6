//! The logic of a small unlit 3D renderer, verified.
//!
//! The crate holds what the renderer decides and computes on plain values:
//! the input state machine, the order frame sources build and draw in, the
//! draw list of a frame, and the bookkeeping of the meshes a source owns. What
//! talks to a GPU, a window or an entity world is ordinary code around it.
//!
//! Each function states what it does in its contract, over the mathematical
//! model of the values it takes. The laws that relate several functions stand
//! beside them as `law_` proof functions.

pub mod collections;
pub mod components;
pub mod culling;
pub mod indices;
pub mod input;
pub mod mesh;
pub mod mesh_source;
pub mod metadata;
pub mod pipeline;
pub mod pose;
pub mod renderer;
pub mod scalar;
pub mod scene;
pub mod sort;
pub mod source;
pub mod surface;
pub mod ui;
pub mod upload;
