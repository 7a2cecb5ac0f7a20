//! Immediate-mode 2D draw batching for a UI overlay renderer.
//!
//! The engine accepts a stream of textured-quad draw commands per frame,
//! merges consecutive quads into as few GPU draw calls as possible, manages
//! growable vertex/index buffer arenas, keeps a bounded per-frame texture
//! table for a fixed-size bindless binding, and finalizes each frame into an
//! ordered plan of scissored indexed draws.

pub mod arena;
pub mod chunk_mesh_resource;
pub mod engine_kernel;
pub mod id_pool;
pub mod index_pool;
pub mod java_util;
pub mod jni_texture;
pub mod mesh_resource;
pub mod rect;
pub mod texture_table;
pub mod ui;
