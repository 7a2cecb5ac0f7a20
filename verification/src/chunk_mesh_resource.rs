//! Chunk mesh vertex-stream layout.
//!
//! A chunk mesh stores its five per-vertex streams (position, normal, UV,
//! color, attributes) back to back in one vertex buffer.  The layout
//! computed here places the streams at disjoint, contiguous byte offsets;
//! the GPU-facing driver writes each stream at its offset and slices the
//! buffer accordingly.

use vstd::prelude::*;

verus! {

/// Bytes per element of the position stream (three 32-bit floats).
pub const CHUNK_POSITION_SIZE: u64 = 12;

/// Bytes per element of the normal stream (three 32-bit floats).
pub const CHUNK_NORMAL_SIZE: u64 = 12;

/// Bytes per element of the UV stream (two 32-bit floats).
pub const CHUNK_UV_SIZE: u64 = 8;

/// Bytes per element of the color stream.
pub const CHUNK_COLOR_SIZE: u64 = 4;

/// Bytes per element of the attribute stream.
pub const CHUNK_ATTRIBUTES_SIZE: u64 = 6;

/// Bytes per element over all five streams.
pub const CHUNK_VERTEX_SIZE: u64 = 42;

/// A packed per-vertex color.
#[derive(Clone, Copy, PartialEq, Eq, Structural, Debug)]
pub struct ChunkColor(pub u32);

/// Per-vertex lighting and animation attributes.
#[derive(Clone, Copy, PartialEq, Eq, Structural, Debug)]
pub struct ChunkAttributes {
    pub sunlight: u8,
    pub block_light: u8,
    pub ambient_occlusion: u8,
    pub pad: u8,
    pub flags: u8,
    pub frames: u8,
}

/// The render pass a chunk mesh belongs to.  A chunk keeps at most one
/// mesh per render type.
#[derive(Clone, Copy, PartialEq, Eq, Structural, Debug)]
pub enum MeshRenderType {
    Opaque,
    Translucent,
    Billboard,
    WaterAndIce,
}

/// Byte offsets of the five streams inside one chunk vertex buffer, and
/// the total size of that buffer.
#[derive(Clone, Copy, PartialEq, Eq, Structural, Debug)]
pub struct ChunkStreamLayout {
    pub position_start: u64,
    pub normal_start: u64,
    pub uv_start: u64,
    pub color_start: u64,
    pub attribute_start: u64,
    pub vertex_buffer_size: u64,
}

/// The stream layout for a mesh of `num_elements` vertices: the five
/// streams follow each other without gaps, in declaration order.
pub fn chunk_stream_layout(num_elements: u64) -> (r: ChunkStreamLayout)
    requires
        num_elements * CHUNK_VERTEX_SIZE <= u64::MAX,
    ensures
        r.position_start == 0,
        r.normal_start == num_elements * CHUNK_POSITION_SIZE,
        r.uv_start == r.normal_start + num_elements * CHUNK_NORMAL_SIZE,
        r.color_start == r.uv_start + num_elements * CHUNK_UV_SIZE,
        r.attribute_start == r.color_start + num_elements * CHUNK_COLOR_SIZE,
        r.vertex_buffer_size == r.attribute_start + num_elements * CHUNK_ATTRIBUTES_SIZE,
        r.vertex_buffer_size == num_elements * CHUNK_VERTEX_SIZE,
{
    proof {
        assert(num_elements * CHUNK_POSITION_SIZE + num_elements * CHUNK_NORMAL_SIZE
            + num_elements * CHUNK_UV_SIZE + num_elements * CHUNK_COLOR_SIZE + num_elements
            * CHUNK_ATTRIBUTES_SIZE == num_elements * CHUNK_VERTEX_SIZE) by (nonlinear_arith);
        assert(num_elements * CHUNK_POSITION_SIZE <= num_elements * CHUNK_VERTEX_SIZE)
            by (nonlinear_arith);
    }
    let position_start: u64 = 0;
    let normal_start: u64 = num_elements * CHUNK_POSITION_SIZE;
    proof {
        assert(normal_start + num_elements * CHUNK_NORMAL_SIZE <= num_elements * CHUNK_VERTEX_SIZE)
            by (nonlinear_arith)
            requires
                normal_start == num_elements * CHUNK_POSITION_SIZE,
        ;
    }
    let uv_start: u64 = normal_start + num_elements * CHUNK_NORMAL_SIZE;
    proof {
        assert(uv_start + num_elements * CHUNK_UV_SIZE <= num_elements * CHUNK_VERTEX_SIZE)
            by (nonlinear_arith)
            requires
                uv_start == num_elements * CHUNK_POSITION_SIZE + num_elements * CHUNK_NORMAL_SIZE,
        ;
    }
    let color_start: u64 = uv_start + num_elements * CHUNK_UV_SIZE;
    proof {
        assert(color_start + num_elements * CHUNK_COLOR_SIZE <= num_elements * CHUNK_VERTEX_SIZE)
            by (nonlinear_arith)
            requires
                color_start == num_elements * CHUNK_POSITION_SIZE + num_elements
                    * CHUNK_NORMAL_SIZE + num_elements * CHUNK_UV_SIZE,
        ;
    }
    let attribute_start: u64 = color_start + num_elements * CHUNK_COLOR_SIZE;
    proof {
        assert(attribute_start + num_elements * CHUNK_ATTRIBUTES_SIZE == num_elements
            * CHUNK_VERTEX_SIZE) by (nonlinear_arith)
            requires
                attribute_start == num_elements * CHUNK_POSITION_SIZE + num_elements
                    * CHUNK_NORMAL_SIZE + num_elements * CHUNK_UV_SIZE + num_elements
                    * CHUNK_COLOR_SIZE,
        ;
    }
    let vertex_buffer_size: u64 = attribute_start + num_elements * CHUNK_ATTRIBUTES_SIZE;
    ChunkStreamLayout {
        position_start,
        normal_start,
        uv_start,
        color_start,
        attribute_start,
        vertex_buffer_size,
    }
}

/// The byte size of an index buffer of `num_indices` 32-bit indices.
pub fn chunk_index_buffer_size(num_indices: u64) -> (r: u64)
    requires
        num_indices * 4 <= u64::MAX,
    ensures
        r == num_indices * 4,
{
    num_indices * 4
}

} // verus!
