//! The draw-batching engine.
//!
//! [`UserInterface`] accepts a stream of textured-quad draw commands per
//! frame (`cmd_prepare`, `cmd_draw_texture`, `cmd_set_crop`), merges
//! consecutive quads into as few draw groups as possible, and finalizes the
//! frame (`cmd_dispatch`) into a [`FramePlan`]: an ordered list of scissored
//! indexed draw commands plus the texture-view slot table, ready to be
//! recorded onto a command encoder by the GPU-facing driver.
//!
//! A quad extends the most recently opened group exactly when the active
//! crop and both buffer identities match that group; texture identity is not
//! part of the merge key, since texture selection is carried per vertex via
//! the resolved texture-table index (bindless indexing).  Index numbering is
//! local to each group: the n-th quad of a group emits the triangle-fan
//! indices `{4n, 4n+1, 4n+2, 4n, 4n+2, 4n+3}`.
//!
//! Every state change is specified against the mathematical model
//! [`UiModel`]; the transition functions (`spec_draw`, `spec_prepare`, ...)
//! are the single source of truth the executable methods are proved against.

use vstd::prelude::*;

use crate::arena::BUFFER_CAPACITY_LIMIT;
use crate::arena::BufferArena;
use crate::arena::BufferHandle;
use crate::arena::INDEX_BUFFER_INITIAL_SIZE;
use crate::arena::VERTEX_BUFFER_INITIAL_SIZE;
use crate::rect::Rect;
use crate::texture_table::RESERVED_TEXTURE_VIEW;
use crate::texture_table::TextureTable;
use crate::texture_table::spec_resolve;
use crate::texture_table::table_wf;

verus! {

/// Failures the engine reports to the frame driver.
#[derive(Clone, Copy, PartialEq, Eq, Structural, Debug)]
pub enum UiError {
    /// The texture table would exceed its fixed capacity this frame.
    ResourceExhausted,
    /// A buffer could not be grown within the device's limits.
    AllocationFailure,
}

/// Byte stride of one packed vertex as the GPU vertex-buffer layout declares
/// it: two 32-bit position floats, two 32-bit UV floats, a packed color and
/// two 32-bit selection indices.
pub const VERTEX_STRIDE: u64 = 28;

/// Byte size of one index-buffer element (32-bit indices).
pub const INDEX_SIZE: u64 = 4;

/// Vertex bytes appended per quad (4 vertices).
pub const QUAD_VERTEX_BYTES: u64 = 4 * VERTEX_STRIDE;

/// Index bytes appended per quad (6 indices).
pub const QUAD_INDEX_BYTES: u64 = 6 * INDEX_SIZE;

/// The two samplers of the constant sampler pair, in binding order.
pub enum UITextureSamplerTypes {
    DefaultTextureSampler,
    TileTextureSampler,
    MaxSamplerTypes,
}

impl UITextureSamplerTypes {
    /// The sampler-selection index baked into vertex data.
    pub fn as_u32(&self) -> (r: u32)
        ensures
            r == match self {
                UITextureSamplerTypes::DefaultTextureSampler => 0u32,
                UITextureSamplerTypes::TileTextureSampler => 1u32,
                UITextureSamplerTypes::MaxSamplerTypes => 2u32,
            },
    {
        match self {
            UITextureSamplerTypes::DefaultTextureSampler => 0,
            UITextureSamplerTypes::TileTextureSampler => 1,
            UITextureSamplerTypes::MaxSamplerTypes => 2,
        }
    }
}

/// One vertex of a quad.  Coordinates are kept as the plain values the
/// caller handed in; the GPU-facing driver converts them to the packed
/// on-wire layout when it uploads the shadow data.
#[derive(Clone, Copy, PartialEq, Eq, Structural, Debug)]
pub struct Vertex {
    pub x: i32,
    pub y: i32,
    pub u: i32,
    pub v: i32,
    /// Tint in RGBA byte order (see [`spec_color_encode`]).
    pub color: u32,
    /// Index into this frame's texture table.
    pub texture_index: u32,
    /// Index into the constant sampler pair.
    pub sampler_index: u32,
}

/// A batch of quads sharing one buffer pair and one crop state, drawn with a
/// single indexed draw call.
pub struct TextureDrawGroup {
    /// Local vertex cursor: number of vertices recorded so far (4 per quad).
    pub cursor_index: u32,
    /// Number of indices recorded so far (6 per quad).
    pub index_count: u32,
    pub vertex_offset_start: u64,
    pub vertex_offset_end: u64,
    /// The vertex buffer the group's byte range lives in.  Holding the
    /// handle keeps the buffer identity (and capacity) that was current when
    /// the group was opened, across later arena growth.
    pub vertex_buffer: BufferHandle,
    pub index_offset_start: u64,
    pub index_offset_end: u64,
    pub index_buffer: BufferHandle,
    /// Vertex data staged CPU-side, uploaded at dispatch.
    pub vertex_shadow_data: Vec<Vertex>,
    /// Index data staged CPU-side, uploaded at dispatch.
    pub index_shadow_data: Vec<u32>,
    /// Scissor rectangle active for this group, `None` for the full viewport.
    pub crop: Option<Rect>,
}

/// The mathematical value of a [`TextureDrawGroup`].
#[verifier::ext_equal]
pub struct GroupModel {
    pub cursor_index: u32,
    pub index_count: u32,
    pub vertex_offset_start: u64,
    pub vertex_offset_end: u64,
    pub vertex_buffer: BufferHandle,
    pub index_offset_start: u64,
    pub index_offset_end: u64,
    pub index_buffer: BufferHandle,
    pub vertex_shadow_data: Seq<Vertex>,
    pub index_shadow_data: Seq<u32>,
    pub crop: Option<Rect>,
}

impl View for TextureDrawGroup {
    type V = GroupModel;

    open spec fn view(&self) -> GroupModel {
        GroupModel {
            cursor_index: self.cursor_index,
            index_count: self.index_count,
            vertex_offset_start: self.vertex_offset_start,
            vertex_offset_end: self.vertex_offset_end,
            vertex_buffer: self.vertex_buffer,
            index_offset_start: self.index_offset_start,
            index_offset_end: self.index_offset_end,
            index_buffer: self.index_buffer,
            vertex_shadow_data: self.vertex_shadow_data@,
            index_shadow_data: self.index_shadow_data@,
            crop: self.crop,
        }
    }
}

impl GroupModel {
    /// Number of quads the group holds.
    pub open spec fn quad_count(self) -> int {
        self.cursor_index as int / 4
    }

    /// Internal consistency of one group: counts, byte ranges and staged
    /// data agree, and every recorded index refers to a vertex of this
    /// group.
    pub open spec fn wf(self) -> bool {
        &&& self.vertex_buffer.generation >= 1
        &&& self.index_buffer.generation >= 1
        &&& self.vertex_buffer.capacity <= BUFFER_CAPACITY_LIMIT
        &&& self.index_buffer.capacity <= BUFFER_CAPACITY_LIMIT
        &&& self.vertex_offset_start <= self.vertex_offset_end <= self.vertex_buffer.capacity
        &&& self.index_offset_start <= self.index_offset_end <= self.index_buffer.capacity
        &&& self.vertex_offset_end - self.vertex_offset_start == (self.cursor_index as int)
            * (VERTEX_STRIDE as int)
        &&& self.index_offset_end - self.index_offset_start == (self.index_count as int) * (
        INDEX_SIZE as int)
        &&& self.vertex_shadow_data.len() == self.cursor_index
        &&& self.index_shadow_data.len() == self.index_count
        &&& (self.cursor_index as int) % 4 == 0
        &&& 2 * (self.index_count as int) == 3 * (self.cursor_index as int)
        &&& forall|i: int|
            0 <= i < self.index_shadow_data.len() ==> (#[trigger] self.index_shadow_data[i])
                < self.cursor_index
    }
}

/// An ordered sequence of batched draw spans.
pub enum UIDrawGroup {
    Texture(TextureDrawGroup),
}

impl View for UIDrawGroup {
    type V = GroupModel;

    open spec fn view(&self) -> GroupModel {
        match self {
            UIDrawGroup::Texture(tex) => tex@,
        }
    }
}

impl UIDrawGroup {
    /// The crop rectangle this group is drawn under, if any.
    pub fn get_scissor_rect(&self) -> (r: Option<Rect>)
        ensures
            r == self@.crop,
    {
        match self {
            UIDrawGroup::Texture(tex) => tex.crop,
        }
    }
}

/// The mathematical state of the engine.
#[verifier::ext_equal]
pub struct UiModel {
    /// True between `cmd_prepare` and the following `cmd_dispatch`.
    pub ready: bool,
    /// Scissor rectangle applied to subsequently appended quads.
    pub crop: Option<Rect>,
    pub groups: Seq<GroupModel>,
    /// Texture identities seen this frame, in resolution order.
    pub textures: Seq<u64>,
    pub vertex_arena: BufferArena,
    pub index_arena: BufferArena,
}

/// Tint bytes reordered from the packed 0xAARRGGBB-style value handed to
/// `cmd_draw_texture` into the RGBA byte order the vertex layout expects
/// (a byte-wise reversal of the 32-bit value).
pub open spec fn spec_color_encode(tint: u32) -> u32 {
    (((tint & 0xFF) << 24) | (((tint >> 8) & 0xFF) << 16) | (((tint >> 16) & 0xFF) << 8) | ((tint
        >> 24) & 0xFF)) as u32
}

/// The four corners of a quad, in the fixed winding order
/// (min,min), (max,min), (max,max), (min,max) for both position and UV.
pub open spec fn spec_quad_vertices(uv: Rect, pos: Rect, color: u32, texture_index: u32) -> Seq<
    Vertex,
> {
    seq![
        Vertex {
            x: pos.min_x,
            y: pos.min_y,
            u: uv.min_x,
            v: uv.min_y,
            color,
            texture_index,
            sampler_index: 0,
        },
        Vertex {
            x: pos.max_x,
            y: pos.min_y,
            u: uv.max_x,
            v: uv.min_y,
            color,
            texture_index,
            sampler_index: 0,
        },
        Vertex {
            x: pos.max_x,
            y: pos.max_y,
            u: uv.max_x,
            v: uv.max_y,
            color,
            texture_index,
            sampler_index: 0,
        },
        Vertex {
            x: pos.min_x,
            y: pos.max_y,
            u: uv.min_x,
            v: uv.max_y,
            color,
            texture_index,
            sampler_index: 0,
        },
    ]
}

/// The triangle-fan indices of the quad whose first vertex is `cursor`.
pub open spec fn spec_quad_indices(cursor: u32) -> Seq<u32> {
    seq![
        cursor,
        (cursor + 1) as u32,
        (cursor + 2) as u32,
        cursor,
        (cursor + 2) as u32,
        (cursor + 3) as u32,
    ]
}

/// A fresh, empty group opened at the given buffer offsets under `crop`.
pub open spec fn spec_open_group(
    vertex_buffer: BufferHandle,
    vertex_offset: u64,
    index_buffer: BufferHandle,
    index_offset: u64,
    crop: Option<Rect>,
) -> GroupModel {
    GroupModel {
        cursor_index: 0,
        index_count: 0,
        vertex_offset_start: vertex_offset,
        vertex_offset_end: vertex_offset,
        vertex_buffer,
        index_offset_start: index_offset,
        index_offset_end: index_offset,
        index_buffer,
        vertex_shadow_data: Seq::empty(),
        index_shadow_data: Seq::empty(),
        crop,
    }
}

/// Whether a quad drawn under `crop` with the current buffer generations
/// can extend group `g`.  Texture identity is deliberately not part of this
/// key.
pub open spec fn spec_merge_key_matches(
    g: GroupModel,
    crop: Option<Rect>,
    vertex_generation: u64,
    index_generation: u64,
) -> bool {
    &&& g.crop == crop
    &&& g.vertex_buffer.generation == vertex_generation
    &&& g.index_buffer.generation == index_generation
}

/// Group `g` extended by one quad.
pub open spec fn spec_append_quad(
    g: GroupModel,
    uv: Rect,
    pos: Rect,
    color: u32,
    texture_index: u32,
) -> GroupModel {
    GroupModel {
        cursor_index: (g.cursor_index + 4) as u32,
        index_count: (g.index_count + 6) as u32,
        vertex_offset_end: (g.vertex_offset_end + QUAD_VERTEX_BYTES) as u64,
        index_offset_end: (g.index_offset_end + QUAD_INDEX_BYTES) as u64,
        vertex_shadow_data: g.vertex_shadow_data + spec_quad_vertices(uv, pos, color, texture_index),
        index_shadow_data: g.index_shadow_data + spec_quad_indices(g.cursor_index),
        ..g
    }
}

impl UiModel {
    /// The engine state after `cmd_prepare`: per-frame state reset, buffers
    /// (and their capacities) kept.
    pub open spec fn spec_prepare(self) -> UiModel {
        UiModel {
            ready: true,
            crop: None,
            groups: Seq::empty(),
            textures: Seq::empty(),
            vertex_arena: BufferArena { cursor: 0, ..self.vertex_arena },
            index_arena: BufferArena { cursor: 0, ..self.index_arena },
        }
    }

    /// Engine invariant.
    pub open spec fn wf(self) -> bool {
        &&& self.vertex_arena.wf()
        &&& self.index_arena.wf()
        &&& self.vertex_arena.initial_size == VERTEX_BUFFER_INITIAL_SIZE
        &&& self.index_arena.initial_size == INDEX_BUFFER_INITIAL_SIZE
        &&& table_wf(self.textures)
        &&& forall|i: int| 0 <= i < self.groups.len() ==> (#[trigger] self.groups[i]).wf()
        &&& forall|i: int|
            0 <= i < self.groups.len() ==> (#[trigger] self.groups[i]).vertex_buffer.generation
                <= self.vertex_arena.generation()
        &&& forall|i: int|
            0 <= i < self.groups.len() ==> (#[trigger] self.groups[i]).index_buffer.generation
                <= self.index_arena.generation()
        &&& self.groups.len() > 0 ==> {
            let lg = self.groups.last();
            &&& (self.vertex_arena.buffer matches Some(b) ==> (lg.vertex_buffer.generation
                == b.generation ==> lg.vertex_buffer == b && lg.vertex_offset_end
                <= self.vertex_arena.cursor))
            &&& (self.index_arena.buffer matches Some(b) ==> (lg.index_buffer.generation
                == b.generation ==> lg.index_buffer == b && lg.index_offset_end
                <= self.index_arena.cursor))
        }
    }
}

/// The exact effect of [`UserInterface::cmd_draw_texture`]: the successor
/// engine state paired with the reported result.
pub open spec fn spec_draw(s: UiModel, tex: u64, uv: Rect, pos: Rect, tint_color: u32) -> (
    UiModel,
    Result<(), UiError>,
) {
    let (textures2, resolved) = spec_resolve(s.textures, tex);
    if resolved is Err {
        (s, Err(UiError::ResourceExhausted))
    } else {
        let texture_index = resolved->Ok_0;
        let (vertex_arena2, vertex_offset) = s.vertex_arena.spec_request(QUAD_VERTEX_BYTES);
        if vertex_offset is Err {
            (UiModel { textures: textures2, ..s }, Err(UiError::AllocationFailure))
        } else {
            let (index_arena2, index_offset) = s.index_arena.spec_request(QUAD_INDEX_BYTES);
            if index_offset is Err {
                (
                    UiModel { textures: textures2, vertex_arena: vertex_arena2, ..s },
                    Err(UiError::AllocationFailure),
                )
            } else {
                let vh = vertex_arena2.buffer->Some_0;
                let ih = index_arena2.buffer->Some_0;
                let color = spec_color_encode(tint_color);
                let groups2 = if s.groups.len() > 0 && spec_merge_key_matches(
                    s.groups.last(),
                    s.crop,
                    vh.generation,
                    ih.generation,
                ) {
                    s.groups.update(
                        s.groups.len() - 1,
                        spec_append_quad(s.groups.last(), uv, pos, color, texture_index as u32),
                    )
                } else {
                    s.groups.push(
                        spec_append_quad(
                            spec_open_group(
                                vh,
                                vertex_offset->Ok_0,
                                ih,
                                index_offset->Ok_0,
                                s.crop,
                            ),
                            uv,
                            pos,
                            color,
                            texture_index as u32,
                        ),
                    )
                };
                (
                    UiModel {
                        groups: groups2,
                        textures: textures2,
                        vertex_arena: vertex_arena2,
                        index_arena: index_arena2,
                        ..s
                    },
                    Ok(()),
                )
            }
        }
    }
}

/// The draw-batching engine.  Construction of the fixed GPU objects
/// (pipeline, layouts, samplers, the dummy fallback texture and the frame
/// uniform) lives with the GPU-facing driver; the engine owns the per-frame
/// batching state.
pub struct UserInterface {
    /// Scissor rectangle applied to subsequently appended quads.
    pub crop: Option<Rect>,
    /// True between `cmd_prepare` and the following `cmd_dispatch`.
    pub ready: bool,
    pub vertex_arena: BufferArena,
    pub index_arena: BufferArena,
    pub draw_groups: Vec<UIDrawGroup>,
    pub textures: TextureTable,
}

impl View for UserInterface {
    type V = UiModel;

    open spec fn view(&self) -> UiModel {
        UiModel {
            ready: self.ready,
            crop: self.crop,
            groups: self.draw_groups@.map_values(|g: UIDrawGroup| g@),
            textures: self.textures.entries_seq(),
            vertex_arena: self.vertex_arena,
            index_arena: self.index_arena,
        }
    }
}

impl UserInterface {
    /// A fresh engine in the idle state: `cmd_prepare` must run before the
    /// first draw of each frame.
    pub fn new() -> (r: UserInterface)
        ensures
            r@ == (UiModel {
                ready: false,
                crop: None,
                groups: Seq::<GroupModel>::empty(),
                textures: Seq::<u64>::empty(),
                vertex_arena: BufferArena {
                    buffer: None,
                    cursor: 0,
                    initial_size: VERTEX_BUFFER_INITIAL_SIZE,
                },
                index_arena: BufferArena {
                    buffer: None,
                    cursor: 0,
                    initial_size: INDEX_BUFFER_INITIAL_SIZE,
                },
            }),
            r@.wf(),
    {
        let r = UserInterface {
            crop: None,
            ready: false,
            vertex_arena: BufferArena::new(VERTEX_BUFFER_INITIAL_SIZE),
            index_arena: BufferArena::new(INDEX_BUFFER_INITIAL_SIZE),
            draw_groups: Vec::new(),
            textures: TextureTable::new(),
        };
        proof {
            assert(r@.groups =~= Seq::<GroupModel>::empty());
        }
        r
    }

    /// Reset the per-frame state: after this call the group list and the
    /// texture table are empty, both buffer cursors are zero and the crop is
    /// cleared, whatever sequence of calls came before.
    pub fn cmd_prepare(&mut self)
        ensures
            final(self)@ == old(self)@.spec_prepare(),
            old(self)@.wf() ==> final(self)@.wf(),
    {
        self.draw_groups.clear();
        self.cmd_set_crop(None);
        self.textures.clear();
        self.vertex_arena.reset();
        self.index_arena.reset();
        self.ready = true;
        proof {
            assert(self@.groups =~= Seq::<GroupModel>::empty());
            assert(self@ =~= old(self)@.spec_prepare());
        }
    }

    /// Set the scissor rectangle applied to subsequently appended quads;
    /// `None` clears cropping (full viewport).
    pub fn cmd_set_crop(&mut self, rect: Option<Rect>)
        ensures
            final(self)@ == (UiModel { crop: rect, ..old(self)@ }),
    {
        self.crop = rect;
    }

    /// Per-frame index for the texture identity `tex` (see
    /// [`TextureTable::resolve`]).
    fn resolve_texture_index(&mut self, tex: u64) -> (r: Result<usize, UiError>)
        requires
            table_wf(old(self)@.textures),
        ensures
            table_wf(final(self)@.textures),
            r == spec_resolve(old(self)@.textures, tex).1,
            final(self)@ == (UiModel { textures: spec_resolve(old(self)@.textures, tex).0, ..old(
                self,
            )@ }),
    {
        self.textures.resolve(tex)
    }

    /// Reserve byte ranges for one quad in both arenas, growing either
    /// buffer when it cannot satisfy its request.
    fn request_buffer_immediate(
        &mut self,
        request_vertex_buffer_size: u64,
        request_index_buffer_size: u64,
    ) -> (r: Result<(u64, u64), UiError>)
        requires
            old(self)@.vertex_arena.wf(),
            old(self)@.index_arena.wf(),
            request_vertex_buffer_size <= old(self)@.vertex_arena.initial_size,
            request_index_buffer_size <= old(self)@.index_arena.initial_size,
        ensures
            ({
                let (va2, rv) = old(self)@.vertex_arena.spec_request(request_vertex_buffer_size);
                let (ia2, ri) = old(self)@.index_arena.spec_request(request_index_buffer_size);
                if rv is Err {
                    &&& r == Err::<(u64, u64), UiError>(UiError::AllocationFailure)
                    &&& final(self)@ == old(self)@
                } else if ri is Err {
                    &&& r == Err::<(u64, u64), UiError>(UiError::AllocationFailure)
                    &&& final(self)@ == (UiModel { vertex_arena: va2, ..old(self)@ })
                } else {
                    &&& r == Ok::<(u64, u64), UiError>((rv->Ok_0, ri->Ok_0))
                    &&& final(self)@ == (UiModel {
                        vertex_arena: va2,
                        index_arena: ia2,
                        ..old(self)@
                    })
                }
            }),
    {
        let vb_last_offset = match self.vertex_arena.request(request_vertex_buffer_size) {
            Ok(offset) => offset,
            Err(_) => {
                proof {
                    assert(self@ =~= old(self)@);
                }
                return Err(UiError::AllocationFailure);
            },
        };
        let ib_last_offset = match self.index_arena.request(request_index_buffer_size) {
            Ok(offset) => offset,
            Err(_) => {
                return Err(UiError::AllocationFailure);
            },
        };
        Ok((vb_last_offset, ib_last_offset))
    }

    /// Append `new_group` unless the most recently opened group has the
    /// same merge key (crop and both buffer identities), in which case the
    /// new group is discarded and the existing one will take the quad.
    /// Returns true when a group was appended.
    fn evaluate_draw_group(&mut self, new_group: UIDrawGroup) -> (r: bool)
        ensures
            ({
                let key_matches = old(self)@.groups.len() > 0 && spec_merge_key_matches(
                    old(self)@.groups.last(),
                    new_group@.crop,
                    new_group@.vertex_buffer.generation,
                    new_group@.index_buffer.generation,
                );
                if key_matches {
                    &&& r == false
                    &&& final(self)@ == old(self)@
                } else {
                    &&& r == true
                    &&& final(self)@ == (UiModel {
                        groups: old(self)@.groups.push(new_group@),
                        ..old(self)@
                    })
                }
            }),
    {
        let ghost new_group_model = new_group@;
        let n = self.draw_groups.len();
        let group_valid = if n > 0 {
            let UIDrawGroup::Texture(current) = &self.draw_groups[n - 1];
            let UIDrawGroup::Texture(incoming) = &new_group;
            crop_eq(&current.crop, &incoming.crop) && current.vertex_buffer.generation
                == incoming.vertex_buffer.generation && current.index_buffer.generation
                == incoming.index_buffer.generation
        } else {
            false
        };
        if !group_valid {
            self.draw_groups.push(new_group);
            proof {
                assert(self@.groups =~= old(self)@.groups.push(new_group_model));
                assert(self@ =~= (UiModel {
                    groups: old(self)@.groups.push(new_group_model),
                    ..old(self)@
                }));
            }
            return true;
        }
        false
    }

    /// Append one textured quad: resolve the texture, reserve buffer space
    /// (growing buffers as needed), extend or open a draw group, and stage
    /// the quad's 4 vertices and 6 group-local indices.
    pub fn cmd_draw_texture(&mut self, tex: u64, uv: &Rect, pos: &Rect, tint_color: u32) -> (r:
        Result<(), UiError>)
        requires
            old(self)@.wf(),
            old(self)@.ready,
        ensures
            (final(self)@, r) == spec_draw(old(self)@, tex, *uv, *pos, tint_color),
            final(self)@.wf(),
            final(self)@.ready,
    {
        proof {
            lemma_spec_draw_wf(old(self)@, tex, *uv, *pos, tint_color);
        }
        let texture_index = match self.resolve_texture_index(tex) {
            Ok(i) => i,
            Err(_) => {
                proof {
                    assert(self@ =~= old(self)@);
                }
                return Err(UiError::ResourceExhausted);
            },
        };
        let offsets = match self.request_buffer_immediate(QUAD_VERTEX_BYTES, QUAD_INDEX_BYTES) {
            Ok(p) => p,
            Err(_) => {
                proof {
                    assert(self@ =~= spec_draw(old(self)@, tex, *uv, *pos, tint_color).0);
                }
                return Err(UiError::AllocationFailure);
            },
        };
        let vb_buffer_start_offset = offsets.0;
        let ib_buffer_start_offset = offsets.1;
        let vertex_buffer = self.vertex_arena.buffer.unwrap();
        let index_buffer = self.index_arena.buffer.unwrap();
        let color = color_encode(tint_color);
        let crop = self.crop;
        let ghost s2 = self@;
        let new_group = UIDrawGroup::Texture(
            TextureDrawGroup {
                cursor_index: 0,
                index_count: 0,
                vertex_offset_start: vb_buffer_start_offset,
                vertex_offset_end: vb_buffer_start_offset,
                vertex_buffer,
                index_offset_start: ib_buffer_start_offset,
                index_offset_end: ib_buffer_start_offset,
                index_buffer,
                vertex_shadow_data: Vec::new(),
                index_shadow_data: Vec::new(),
                crop,
            },
        );
        let ghost ng = new_group@;
        proof {
            assert(ng =~~= spec_open_group(
                vertex_buffer,
                vb_buffer_start_offset,
                index_buffer,
                ib_buffer_start_offset,
                old(self)@.crop,
            ));
        }
        let _is_new_group = self.evaluate_draw_group(new_group);
        proof {
            let s0 = old(self)@;
            assert(s2.groups =~= s0.groups);
            let key = s2.groups.len() > 0 && spec_merge_key_matches(
                s2.groups.last(),
                ng.crop,
                ng.vertex_buffer.generation,
                ng.index_buffer.generation,
            );
            if key {
                assert(self@ == s2);
            } else {
                assert(self@.groups == s2.groups.push(ng));
            }
            assert(self@.groups.len() > 0);
            assert(self.draw_groups@.len() == self@.groups.len());
        }
        let ghost s3 = self@;
        let ghost pre_groups = self.draw_groups@;
        match self.draw_groups.pop() {
            Some(UIDrawGroup::Texture(mut current_group)) => {
                let ghost popped = current_group@;
                proof {
                    let s0 = old(self)@;
                    let (va2, rv) = s0.vertex_arena.spec_request(QUAD_VERTEX_BYTES);
                    let (ia2, ri) = s0.index_arena.spec_request(QUAD_INDEX_BYTES);
                    assert(va2.wf());
                    assert(ia2.wf());
                    assert(s2.groups =~= s0.groups);
                    assert(popped == pre_groups[pre_groups.len() - 1]@);
                    assert(s3.groups == pre_groups.map_values(|g: UIDrawGroup| g@));
                    assert(popped == s3.groups[s3.groups.len() - 1]);
                    assert(popped == s3.groups.last());
                    let key = s2.groups.len() > 0 && spec_merge_key_matches(
                        s2.groups.last(),
                        ng.crop,
                        ng.vertex_buffer.generation,
                        ng.index_buffer.generation,
                    );
                    if key {
                        assert(s3 == s2);
                        assert(popped == s0.groups.last());
                        assert(popped.wf());
                    } else {
                        assert(s3.groups == s2.groups.push(ng));
                        assert(popped == ng);
                        assert(popped =~~= spec_open_group(
                            vertex_buffer,
                            vb_buffer_start_offset,
                            index_buffer,
                            ib_buffer_start_offset,
                            s0.crop,
                        ));
                        assert(vb_buffer_start_offset + QUAD_VERTEX_BYTES
                            <= vertex_buffer.capacity);
                        assert(ib_buffer_start_offset + QUAD_INDEX_BYTES <= index_buffer.capacity);
                        assert(popped.wf());
                    }
                }
                let cursor = current_group.cursor_index;
                current_group.vertex_shadow_data.push(
                    Vertex {
                        x: pos.min_x,
                        y: pos.min_y,
                        u: uv.min_x,
                        v: uv.min_y,
                        color,
                        texture_index: texture_index as u32,
                        sampler_index: 0,
                    },
                );
                current_group.vertex_shadow_data.push(
                    Vertex {
                        x: pos.max_x,
                        y: pos.min_y,
                        u: uv.max_x,
                        v: uv.min_y,
                        color,
                        texture_index: texture_index as u32,
                        sampler_index: 0,
                    },
                );
                current_group.vertex_shadow_data.push(
                    Vertex {
                        x: pos.max_x,
                        y: pos.max_y,
                        u: uv.max_x,
                        v: uv.max_y,
                        color,
                        texture_index: texture_index as u32,
                        sampler_index: 0,
                    },
                );
                current_group.vertex_shadow_data.push(
                    Vertex {
                        x: pos.min_x,
                        y: pos.max_y,
                        u: uv.min_x,
                        v: uv.max_y,
                        color,
                        texture_index: texture_index as u32,
                        sampler_index: 0,
                    },
                );
                current_group.index_shadow_data.push(cursor);
                current_group.index_shadow_data.push(cursor + 1);
                current_group.index_shadow_data.push(cursor + 2);
                current_group.index_shadow_data.push(cursor);
                current_group.index_shadow_data.push(cursor + 2);
                current_group.index_shadow_data.push(cursor + 3);
                current_group.index_count = current_group.index_count + 6;
                current_group.cursor_index = cursor + 4;
                current_group.vertex_offset_end = current_group.vertex_offset_end
                    + QUAD_VERTEX_BYTES;
                current_group.index_offset_end = current_group.index_offset_end + QUAD_INDEX_BYTES;
                proof {
                    assert(current_group@ =~~= spec_append_quad(
                        popped,
                        *uv,
                        *pos,
                        spec_color_encode(tint_color),
                        texture_index as u32,
                    ));
                }
                let ghost appended = current_group@;
                self.draw_groups.push(UIDrawGroup::Texture(current_group));
                proof {
                    let s0 = old(self)@;
                    let (va2, rv) = s0.vertex_arena.spec_request(QUAD_VERTEX_BYTES);
                    let (ia2, ri) = s0.index_arena.spec_request(QUAD_INDEX_BYTES);
                    assert(vertex_buffer == va2.buffer->Some_0);
                    assert(index_buffer == ia2.buffer->Some_0);
                    let expected = spec_draw(s0, tex, *uv, *pos, tint_color).0.groups;
                    let n = pre_groups.len() as int;
                    assert(self.draw_groups@ == pre_groups.subrange(0, n - 1).push(
                        self.draw_groups@[n - 1],
                    ));
                    assert(self.draw_groups@[n - 1]@ == appended);
                    let key = s2.groups.len() > 0 && spec_merge_key_matches(
                        s2.groups.last(),
                        ng.crop,
                        ng.vertex_buffer.generation,
                        ng.index_buffer.generation,
                    );
                    assert(self@.groups.len() == expected.len());
                    assert forall|i: int| 0 <= i < self@.groups.len() implies self@.groups[i]
                        == expected[i] by {
                        assert(self@.groups[i] == self.draw_groups@[i]@);
                        if i < n - 1 {
                            assert(self.draw_groups@[i] == pre_groups[i]);
                            assert(pre_groups[i]@ == s3.groups[i]);
                            if key {
                                assert(s3.groups[i] == s0.groups[i]);
                            } else {
                                assert(s3.groups[i] == s2.groups[i]);
                                assert(s2.groups[i] == s0.groups[i]);
                            }
                            assert(expected[i] == s0.groups[i]);
                        } else {
                            assert(self@.groups[i] == appended);
                            if key {
                                assert(popped == s0.groups.last());
                                assert(expected[i] == spec_append_quad(
                                    s0.groups.last(),
                                    *uv,
                                    *pos,
                                    spec_color_encode(tint_color),
                                    texture_index as u32,
                                ));
                            } else {
                                assert(popped == ng);
                                assert(expected[i] == spec_append_quad(
                                    spec_open_group(
                                        vertex_buffer,
                                        vb_buffer_start_offset,
                                        index_buffer,
                                        ib_buffer_start_offset,
                                        s0.crop,
                                    ),
                                    *uv,
                                    *pos,
                                    spec_color_encode(tint_color),
                                    texture_index as u32,
                                ));
                            }
                        }
                    }
                    assert(self@.groups =~~= expected);
                    assert(self@ =~~= spec_draw(old(self)@, tex, *uv, *pos, tint_color).0);
                }
                Ok(())
            },
            None => {
                proof {
                    assert(false);
                }
                Err(UiError::AllocationFailure)
            },
        }
    }

    /// Finalize the frame: compute one scissored indexed draw command per
    /// group, in insertion order, and the fixed-length texture slot table.
    /// After this call the engine is idle until the next `cmd_prepare`; the
    /// recorded groups and buffers are left in place so the GPU-facing
    /// driver can upload and draw from the returned plan.
    pub fn cmd_dispatch(&mut self, quad: &Rect) -> (plan: FramePlan)
        requires
            old(self)@.wf(),
            old(self)@.ready,
        ensures
            final(self)@ == (UiModel { ready: false, ..old(self)@ }),
            final(self)@.wf(),
            plan.viewport == *quad,
            plan.texture_slots@.len() == RESERVED_TEXTURE_VIEW,
            forall|i: int|
                0 <= i < RESERVED_TEXTURE_VIEW ==> #[trigger] plan.texture_slots@[i] == (if i < old(
                    self,
                )@.textures.len() {
                    Some(old(self)@.textures[i])
                } else {
                    None::<u64>
                }),
            plan.commands@.len() == old(self)@.groups.len(),
            forall|i: int|
                0 <= i < plan.commands@.len() ==> spec_command_matches(
                    #[trigger] plan.commands@[i],
                    old(self)@.groups[i],
                    *quad,
                ),
    {
        let mut commands: Vec<DrawCommand> = Vec::new();
        let n = self.draw_groups.len();
        let mut gi: usize = 0;
        while gi < n
            invariant
                gi <= n,
                n == self.draw_groups@.len(),
                commands@.len() == gi,
                forall|i: int|
                    0 <= i < gi ==> spec_command_matches(
                        #[trigger] commands@[i],
                        self@.groups[i],
                        *quad,
                    ),
            decreases n - gi,
        {
            let group_crop = self.draw_groups[gi].get_scissor_rect();
            let scissor = scissor_of(&group_crop, quad);
            let UIDrawGroup::Texture(tex_group) = &self.draw_groups[gi];
            commands.push(
                DrawCommand {
                    scissor,
                    vertex_buffer: tex_group.vertex_buffer,
                    vertex_offset_start: tex_group.vertex_offset_start,
                    vertex_offset_end: tex_group.vertex_offset_end,
                    index_buffer: tex_group.index_buffer,
                    index_offset_start: tex_group.index_offset_start,
                    index_offset_end: tex_group.index_offset_end,
                    index_count: tex_group.index_count,
                    vertex_data: copy_vertices(&tex_group.vertex_shadow_data),
                    index_data: copy_indices(&tex_group.index_shadow_data),
                },
            );
            proof {
                assert(spec_command_matches(commands@[gi as int], self@.groups[gi as int], *quad));
            }
            gi += 1;
        }
        let mut texture_slots: Vec<Option<u64>> = Vec::new();
        let tcount = self.textures.len();
        let mut si: usize = 0;
        while si < RESERVED_TEXTURE_VIEW
            invariant
                si <= RESERVED_TEXTURE_VIEW,
                texture_slots@.len() == si,
                tcount == self@.textures.len(),
                forall|i: int|
                    0 <= i < si ==> #[trigger] texture_slots@[i] == (if i < self@.textures.len() {
                        Some(self@.textures[i])
                    } else {
                        None::<u64>
                    }),
            decreases RESERVED_TEXTURE_VIEW - si,
        {
            if si < tcount {
                texture_slots.push(Some(self.textures.get(si)));
            } else {
                texture_slots.push(None);
            }
            si += 1;
        }
        self.ready = false;
        proof {
            assert(self@ =~= (UiModel { ready: false, ..old(self)@ }));
        }
        FramePlan { viewport: *quad, texture_slots, commands }
    }
}

/// A scissor rectangle in device coordinates, as handed to the render pass.
#[derive(Clone, Copy, PartialEq, Eq, Structural, Debug)]
pub struct ScissorRect {
    pub x: u32,
    pub y: u32,
    pub width: u32,
    pub height: u32,
}

/// One indexed draw call of the frame plan: the scissor to set, the buffer
/// ranges to bind, the staged data to upload and the index count to draw.
pub struct DrawCommand {
    pub scissor: ScissorRect,
    pub vertex_buffer: BufferHandle,
    pub vertex_offset_start: u64,
    pub vertex_offset_end: u64,
    pub index_buffer: BufferHandle,
    pub index_offset_start: u64,
    pub index_offset_end: u64,
    pub index_count: u32,
    pub vertex_data: Vec<Vertex>,
    pub index_data: Vec<u32>,
}

/// Everything one render pass needs: the viewport (for the per-frame
/// transform uniform), the fixed-length texture-view slot table (`None`
/// slots are padded with the dummy fallback view), and the draw commands in
/// group order.
pub struct FramePlan {
    pub viewport: Rect,
    pub texture_slots: Vec<Option<u64>>,
    pub commands: Vec<DrawCommand>,
}

/// An integer clamped into the unsigned 32-bit range.
pub open spec fn spec_clamp_u32(v: int) -> u32 {
    if v < 0 {
        0
    } else if v > u32::MAX {
        u32::MAX
    } else {
        v as u32
    }
}

/// The scissor rectangle of a group: its crop when present, else the full
/// viewport, converted to device coordinates.
pub open spec fn spec_scissor(crop: Option<Rect>, viewport: Rect) -> ScissorRect {
    let r = match crop {
        Some(c) => c,
        None => viewport,
    };
    ScissorRect {
        x: spec_clamp_u32(r.min_x as int),
        y: spec_clamp_u32(r.min_y as int),
        width: spec_clamp_u32(r.width()),
        height: spec_clamp_u32(r.height()),
    }
}

/// A draw command renders exactly group `g` under `viewport`.
pub open spec fn spec_command_matches(c: DrawCommand, g: GroupModel, viewport: Rect) -> bool {
    &&& c.scissor == spec_scissor(g.crop, viewport)
    &&& c.vertex_buffer == g.vertex_buffer
    &&& c.vertex_offset_start == g.vertex_offset_start
    &&& c.vertex_offset_end == g.vertex_offset_end
    &&& c.index_buffer == g.index_buffer
    &&& c.index_offset_start == g.index_offset_start
    &&& c.index_offset_end == g.index_offset_end
    &&& c.index_count == g.index_count
    &&& c.vertex_data@ == g.vertex_shadow_data
    &&& c.index_data@ == g.index_shadow_data
}

/// An integer clamped into the unsigned 32-bit range.
fn clamp_u32(v: i64) -> (r: u32)
    ensures
        r == spec_clamp_u32(v as int),
{
    if v < 0 {
        0
    } else if v > u32::MAX as i64 {
        u32::MAX
    } else {
        v as u32
    }
}

/// The scissor rectangle for a group drawn under `viewport`.
fn scissor_of(crop: &Option<Rect>, viewport: &Rect) -> (r: ScissorRect)
    ensures
        r == spec_scissor(*crop, *viewport),
{
    let rect = match crop {
        Some(c) => *c,
        None => *viewport,
    };
    ScissorRect {
        x: clamp_u32(rect.min_x as i64),
        y: clamp_u32(rect.min_y as i64),
        width: clamp_u32(rect.max_x as i64 - rect.min_x as i64),
        height: clamp_u32(rect.max_y as i64 - rect.min_y as i64),
    }
}

/// An element-wise copy of staged vertex data.
fn copy_vertices(v: &Vec<Vertex>) -> (r: Vec<Vertex>)
    ensures
        r@ == v@,
{
    let mut out: Vec<Vertex> = Vec::new();
    let n = v.len();
    let mut i: usize = 0;
    while i < n
        invariant
            i <= n,
            n == v@.len(),
            out@ == v@.subrange(0, i as int),
        decreases n - i,
    {
        out.push(v[i]);
        i += 1;
        proof {
            assert(out@ =~= v@.subrange(0, i as int));
        }
    }
    proof {
        assert(out@ =~= v@);
    }
    out
}

/// An element-wise copy of staged index data.
fn copy_indices(v: &Vec<u32>) -> (r: Vec<u32>)
    ensures
        r@ == v@,
{
    let mut out: Vec<u32> = Vec::new();
    let n = v.len();
    let mut i: usize = 0;
    while i < n
        invariant
            i <= n,
            n == v@.len(),
            out@ == v@.subrange(0, i as int),
        decreases n - i,
    {
        out.push(v[i]);
        i += 1;
        proof {
            assert(out@ =~= v@.subrange(0, i as int));
        }
    }
    proof {
        assert(out@ =~= v@);
    }
    out
}

/// Byte-wise reversal of the packed tint color (see [`spec_color_encode`]).
fn color_encode(tint_color: u32) -> (r: u32)
    ensures
        r == spec_color_encode(tint_color),
{
    ((tint_color & 0xFF) << 24) | (((tint_color >> 8) & 0xFF) << 16) | (((tint_color >> 16) & 0xFF)
        << 8) | ((tint_color >> 24) & 0xFF)
}

/// Structural equality of two optional crop rectangles.
fn crop_eq(a: &Option<Rect>, b: &Option<Rect>) -> (r: bool)
    ensures
        r == (*a == *b),
{
    match (a, b) {
        (None, None) => true,
        (Some(x), Some(y)) => x == y,
        _ => false,
    }
}

/// The inputs of one draw command.
pub struct DrawInput {
    pub tex: u64,
    pub uv: Rect,
    pub pos: Rect,
    pub tint_color: u32,
}

/// The engine state after a sequence of draw commands, applied first to
/// last.
pub open spec fn spec_apply_draws(s: UiModel, draws: Seq<DrawInput>) -> UiModel
    decreases draws.len(),
{
    if draws.len() == 0 {
        s
    } else {
        spec_apply_draws(
            spec_draw(s, draws[0].tex, draws[0].uv, draws[0].pos, draws[0].tint_color).0,
            draws.drop_first(),
        )
    }
}

/// Every draw of the sequence succeeds.
pub open spec fn spec_draws_all_ok(s: UiModel, draws: Seq<DrawInput>) -> bool
    decreases draws.len(),
{
    draws.len() == 0 || {
        let (s1, r1) = spec_draw(s, draws[0].tex, draws[0].uv, draws[0].pos, draws[0].tint_color);
        r1 is Ok && spec_draws_all_ok(s1, draws.drop_first())
    }
}

/// Index locality: within a single group containing Q quads, every emitted
/// index value is less than 4*Q, so the indexed draw never references a
/// vertex outside the group's vertex-buffer slice.
pub proof fn lemma_index_locality(g: GroupModel)
    requires
        g.wf(),
    ensures
        forall|i: int|
            0 <= i < g.index_shadow_data.len() ==> (#[trigger] g.index_shadow_data[i]) < 4
                * g.quad_count(),
{
    assert(g.cursor_index as int == 4 * (g.cursor_index as int / 4));
    assert(4 * g.quad_count() == g.cursor_index);
}

/// Growth safety: when a draw call grows the vertex buffer, every group
/// recorded before the growth is left untouched (it still references the
/// pre-growth buffer identity), the quad lands in a fresh group referencing
/// the post-growth buffer, and the first post-growth byte offset is 0.
pub proof fn lemma_growth_safety(s: UiModel, d: DrawInput)
    requires
        s.wf(),
        spec_draw(s, d.tex, d.uv, d.pos, d.tint_color).1 is Ok,
        spec_draw(s, d.tex, d.uv, d.pos, d.tint_color).0.vertex_arena.generation()
            != s.vertex_arena.generation(),
    ensures
        ({
            let s2 = spec_draw(s, d.tex, d.uv, d.pos, d.tint_color).0;
            &&& s2.groups.len() == s.groups.len() + 1
            &&& forall|i: int| 0 <= i < s.groups.len() ==> s2.groups[i] == s.groups[i]
            &&& s2.groups.last().vertex_buffer.generation == s2.vertex_arena.generation()
            &&& s.groups.len() > 0 ==> s.groups.last().vertex_buffer.generation
                != s2.vertex_arena.generation()
            &&& s2.groups.last().vertex_offset_start == 0
        }),
{
    let s2 = spec_draw(s, d.tex, d.uv, d.pos, d.tint_color).0;
    let (va2, rv) = s.vertex_arena.spec_request(QUAD_VERTEX_BYTES);
    assert(!s.vertex_arena.spec_fits(QUAD_VERTEX_BYTES));
    assert(va2.generation() == s.vertex_arena.generation() + 1);
    if s.groups.len() > 0 {
        assert(s.groups.last().vertex_buffer.generation <= s.vertex_arena.generation());
    }
}

/// Batch-merge invariant, inductive step: while the single open group keeps
/// matching the merge key and both arenas have room without growing, each
/// further draw lands in that group, adding 4 vertices and 6 indices.
proof fn lemma_batch_merge_run(s: UiModel, draws: Seq<DrawInput>)
    requires
        s.wf(),
        s.groups.len() == 1,
        s.vertex_arena.buffer matches Some(b) ==> s.groups[0].vertex_buffer.generation
            == b.generation,
        s.index_arena.buffer matches Some(b) ==> s.groups[0].index_buffer.generation
            == b.generation,
        s.vertex_arena.buffer is Some,
        s.index_arena.buffer is Some,
        s.groups[0].crop == s.crop,
        s.vertex_arena.cursor + draws.len() * QUAD_VERTEX_BYTES <= s.vertex_arena.capacity(),
        s.index_arena.cursor + draws.len() * QUAD_INDEX_BYTES <= s.index_arena.capacity(),
        s.textures.len() + draws.len() <= RESERVED_TEXTURE_VIEW,
    ensures
        ({
            let s2 = spec_apply_draws(s, draws);
            &&& spec_draws_all_ok(s, draws)
            &&& s2.groups.len() == 1
            &&& s2.groups[0].index_count == s.groups[0].index_count + 6 * draws.len()
            &&& s2.groups[0].cursor_index == s.groups[0].cursor_index + 4 * draws.len()
            &&& s2.groups[0].crop == s.groups[0].crop
        }),
    decreases draws.len(),
{
    if draws.len() > 0 {
        let d = draws[0];
        let (s1, r1) = spec_draw(s, d.tex, d.uv, d.pos, d.tint_color);
        lemma_spec_draw_wf(s, d.tex, d.uv, d.pos, d.tint_color);
        assert(QUAD_VERTEX_BYTES <= draws.len() * QUAD_VERTEX_BYTES && QUAD_INDEX_BYTES
            <= draws.len() * QUAD_INDEX_BYTES) by (nonlinear_arith)
            requires
                draws.len() >= 1,
        ;
        assert(s.vertex_arena.spec_fits(QUAD_VERTEX_BYTES));
        assert(s.index_arena.spec_fits(QUAD_INDEX_BYTES));
        assert(s.textures.len() < RESERVED_TEXTURE_VIEW);
        assert(r1 is Ok);
        assert(s1.groups.len() == 1);
        assert(s.groups[0].wf());
        assert(s1.groups[0].index_count == s.groups[0].index_count + 6);
        assert(s1.groups[0].cursor_index == s.groups[0].cursor_index + 4);
        assert(s1.groups[0].crop == s.groups[0].crop);
        assert(s1.textures.len() <= s.textures.len() + 1);
        assert(s1.vertex_arena.cursor == s.vertex_arena.cursor + QUAD_VERTEX_BYTES);
        assert(s1.index_arena.cursor == s.index_arena.cursor + QUAD_INDEX_BYTES);
        assert(s1.vertex_arena.buffer == s.vertex_arena.buffer);
        assert(s1.index_arena.buffer == s.index_arena.buffer);
        let rest = draws.drop_first();
        assert(rest.len() * QUAD_VERTEX_BYTES + QUAD_VERTEX_BYTES == draws.len()
            * QUAD_VERTEX_BYTES && rest.len() * QUAD_INDEX_BYTES + QUAD_INDEX_BYTES == draws.len()
            * QUAD_INDEX_BYTES) by (nonlinear_arith)
            requires
                draws.len() >= 1,
                rest.len() == draws.len() - 1,
        ;
        lemma_batch_merge_run(s1, rest);
        assert(6 * draws.len() == 6 + 6 * rest.len() && 4 * draws.len() == 4 + 4 * rest.len())
            by (nonlinear_arith)
            requires
                draws.len() >= 1,
                rest.len() == draws.len() - 1,
        ;
    }
}

/// Batch-merge invariant: starting from an empty group list, N consecutive
/// draws with unchanged crop and no buffer growth between them produce
/// exactly one group holding 6*N indices (and 4*N vertices).  The first
/// draw may still create the buffers (or grow them once): each arena only
/// needs room for all N quads in the buffer that first draw leaves behind.
pub proof fn lemma_batch_merge(s: UiModel, draws: Seq<DrawInput>)
    requires
        s.wf(),
        s.groups.len() == 0,
        draws.len() >= 1,
        (match s.vertex_arena.buffer {
            Some(b) => s.vertex_arena.cursor + draws.len() * QUAD_VERTEX_BYTES <= b.capacity,
            None => draws.len() * QUAD_VERTEX_BYTES <= s.vertex_arena.initial_size,
        }),
        (match s.index_arena.buffer {
            Some(b) => s.index_arena.cursor + draws.len() * QUAD_INDEX_BYTES <= b.capacity,
            None => draws.len() * QUAD_INDEX_BYTES <= s.index_arena.initial_size,
        }),
        s.textures.len() + draws.len() <= RESERVED_TEXTURE_VIEW,
    ensures
        ({
            let s2 = spec_apply_draws(s, draws);
            &&& spec_draws_all_ok(s, draws)
            &&& s2.groups.len() == 1
            &&& s2.groups[0].index_count == 6 * draws.len()
            &&& s2.groups[0].cursor_index == 4 * draws.len()
            &&& s2.groups[0].crop == s.crop
        }),
{
    let d = draws[0];
    let (s1, r1) = spec_draw(s, d.tex, d.uv, d.pos, d.tint_color);
    lemma_spec_draw_wf(s, d.tex, d.uv, d.pos, d.tint_color);
    assert(QUAD_VERTEX_BYTES <= draws.len() * QUAD_VERTEX_BYTES && QUAD_INDEX_BYTES <= draws.len()
        * QUAD_INDEX_BYTES) by (nonlinear_arith)
        requires
            draws.len() >= 1,
    ;
    if s.vertex_arena.buffer is Some {
        assert(s.vertex_arena.spec_fits(QUAD_VERTEX_BYTES));
    } else {
        assert(s.vertex_arena.spec_grown_capacity() == s.vertex_arena.initial_size);
    }
    if s.index_arena.buffer is Some {
        assert(s.index_arena.spec_fits(QUAD_INDEX_BYTES));
    } else {
        assert(s.index_arena.spec_grown_capacity() == s.index_arena.initial_size);
    }
    assert(s.textures.len() < RESERVED_TEXTURE_VIEW);
    assert(r1 is Ok);
    assert(s1.groups.len() == 1);
    assert(s1.groups[0].index_count == 6);
    assert(s1.groups[0].cursor_index == 4);
    assert(s1.groups[0].crop == s.crop);
    let rest = draws.drop_first();
    assert(rest.len() * QUAD_VERTEX_BYTES + QUAD_VERTEX_BYTES == draws.len() * QUAD_VERTEX_BYTES
        && rest.len() * QUAD_INDEX_BYTES + QUAD_INDEX_BYTES == draws.len() * QUAD_INDEX_BYTES)
        by (nonlinear_arith)
        requires
            draws.len() >= 1,
            rest.len() == draws.len() - 1,
    ;
    assert(s1.vertex_arena.cursor + rest.len() * QUAD_VERTEX_BYTES
        <= s1.vertex_arena.capacity());
    assert(s1.index_arena.cursor + rest.len() * QUAD_INDEX_BYTES <= s1.index_arena.capacity());
    lemma_batch_merge_run(s1, rest);
    assert(6 * draws.len() == 6 + 6 * rest.len() && 4 * draws.len() == 4 + 4 * rest.len())
        by (nonlinear_arith)
        requires
            draws.len() >= 1,
            rest.len() == draws.len() - 1,
    ;
}

/// Crop-change invariant: `draw; set_crop(a); draw; set_crop(b); draw`
/// (with `a` different from the prior crop and `b` different from `a`)
/// yields three groups, in call order, each recording the crop active at
/// the time of its first quad.
pub proof fn lemma_crop_change(
    s: UiModel,
    d1: DrawInput,
    a: Option<Rect>,
    d2: DrawInput,
    b: Option<Rect>,
    d3: DrawInput,
)
    requires
        s.wf(),
        s.groups.len() == 0,
        a != s.crop,
        b != a,
        (match s.vertex_arena.buffer {
            Some(h) => s.vertex_arena.cursor + 3 * QUAD_VERTEX_BYTES <= h.capacity,
            None => 3 * QUAD_VERTEX_BYTES <= s.vertex_arena.initial_size,
        }),
        (match s.index_arena.buffer {
            Some(h) => s.index_arena.cursor + 3 * QUAD_INDEX_BYTES <= h.capacity,
            None => 3 * QUAD_INDEX_BYTES <= s.index_arena.initial_size,
        }),
        s.textures.len() + 3 <= RESERVED_TEXTURE_VIEW,
    ensures
        ({
            let s1 = spec_draw(s, d1.tex, d1.uv, d1.pos, d1.tint_color).0;
            let s1c = UiModel { crop: a, ..s1 };
            let s2 = spec_draw(s1c, d2.tex, d2.uv, d2.pos, d2.tint_color).0;
            let s2c = UiModel { crop: b, ..s2 };
            let s3 = spec_draw(s2c, d3.tex, d3.uv, d3.pos, d3.tint_color).0;
            &&& spec_draw(s, d1.tex, d1.uv, d1.pos, d1.tint_color).1 is Ok
            &&& spec_draw(s1c, d2.tex, d2.uv, d2.pos, d2.tint_color).1 is Ok
            &&& spec_draw(s2c, d3.tex, d3.uv, d3.pos, d3.tint_color).1 is Ok
            &&& s3.groups.len() == 3
            &&& s3.groups[0].crop == s.crop
            &&& s3.groups[1].crop == a
            &&& s3.groups[2].crop == b
        }),
{
    let s1 = spec_draw(s, d1.tex, d1.uv, d1.pos, d1.tint_color).0;
    lemma_spec_draw_wf(s, d1.tex, d1.uv, d1.pos, d1.tint_color);
    if s.vertex_arena.buffer is Some {
        assert(s.vertex_arena.spec_fits(QUAD_VERTEX_BYTES));
    } else {
        assert(s.vertex_arena.spec_grown_capacity() == s.vertex_arena.initial_size);
    }
    if s.index_arena.buffer is Some {
        assert(s.index_arena.spec_fits(QUAD_INDEX_BYTES));
    } else {
        assert(s.index_arena.spec_grown_capacity() == s.index_arena.initial_size);
    }
    assert(s.textures.len() < RESERVED_TEXTURE_VIEW);
    assert(s1.groups.len() == 1);
    assert(s1.groups[0].crop == s.crop);
    let s1c = UiModel { crop: a, ..s1 };
    assert(s1c.wf());
    lemma_spec_draw_wf(s1c, d2.tex, d2.uv, d2.pos, d2.tint_color);
    assert(s1c.vertex_arena.spec_fits(QUAD_VERTEX_BYTES));
    assert(s1c.index_arena.spec_fits(QUAD_INDEX_BYTES));
    assert(s1c.textures.len() < RESERVED_TEXTURE_VIEW);
    let s2 = spec_draw(s1c, d2.tex, d2.uv, d2.pos, d2.tint_color).0;
    assert(s2.groups.len() == 2);
    assert(s2.groups[0].crop == s.crop);
    assert(s2.groups[1].crop == a);
    let s2c = UiModel { crop: b, ..s2 };
    assert(s2c.wf());
    lemma_spec_draw_wf(s2c, d3.tex, d3.uv, d3.pos, d3.tint_color);
    assert(s2c.vertex_arena.spec_fits(QUAD_VERTEX_BYTES));
    assert(s2c.index_arena.spec_fits(QUAD_INDEX_BYTES));
    assert(s2c.textures.len() < RESERVED_TEXTURE_VIEW);
    let s3 = spec_draw(s2c, d3.tex, d3.uv, d3.pos, d3.tint_color).0;
    assert(s3.groups.len() == 3);
}

/// Every draw transition preserves the engine invariant.
pub proof fn lemma_spec_draw_wf(s: UiModel, tex: u64, uv: Rect, pos: Rect, tint_color: u32)
    requires
        s.wf(),
    ensures
        spec_draw(s, tex, uv, pos, tint_color).0.wf(),
{
    let (textures2, resolved) = spec_resolve(s.textures, tex);
    if resolved is Ok {
        assert(table_wf(textures2)) by {
            if !s.textures.contains(tex) && s.textures.len() < RESERVED_TEXTURE_VIEW {
                assert(forall|j: int| 0 <= j < s.textures.len() ==> s.textures[j] != tex);
                assert forall|i: int, j: int|
                    0 <= i < j < textures2.len() implies textures2[i] != textures2[j] by {
                    if j < s.textures.len() {
                        assert(s.textures[i] != s.textures[j]);
                    } else {
                        assert(textures2[j] == tex);
                        assert(textures2[i] == s.textures[i]);
                    }
                }
            }
        };
        let (va2, rv) = s.vertex_arena.spec_request(QUAD_VERTEX_BYTES);
        if rv is Ok {
            let (ia2, ri) = s.index_arena.spec_request(QUAD_INDEX_BYTES);
            if ri is Ok {
                let s2 = spec_draw(s, tex, uv, pos, tint_color).0;
                let vh = va2.buffer->Some_0;
                let ih = ia2.buffer->Some_0;
                let color = spec_color_encode(tint_color);
                let texture_index = spec_resolve(s.textures, tex).1->Ok_0;
                assert(va2.wf());
                assert(ia2.wf());
                assert(vh.generation >= s.vertex_arena.generation());
                assert(ih.generation >= s.index_arena.generation());
                if s.groups.len() > 0 && spec_merge_key_matches(
                    s.groups.last(),
                    s.crop,
                    vh.generation,
                    ih.generation,
                ) {
                    let lg = s.groups.last();
                    let lg2 = spec_append_quad(lg, uv, pos, color, texture_index as u32);
                    assert(lg.wf());
                    // A growth step would have bumped the generation past
                    // every recorded group, so a key match means both
                    // requests were served from the current buffers.
                    assert(s.vertex_arena.spec_fits(QUAD_VERTEX_BYTES));
                    assert(s.index_arena.spec_fits(QUAD_INDEX_BYTES));
                    assert(va2.buffer == s.vertex_arena.buffer);
                    assert(ia2.buffer == s.index_arena.buffer);
                    assert(lg.vertex_buffer == vh);
                    assert(lg.index_buffer == ih);
                    assert(lg.vertex_offset_end <= s.vertex_arena.cursor);
                    assert(lg.index_offset_end <= s.index_arena.cursor);
                    assert(lg2.vertex_offset_end <= va2.cursor <= vh.capacity);
                    assert(lg2.index_offset_end <= ia2.cursor <= ih.capacity);
                    assert(lg2.wf()) by {
                        assert forall|i: int|
                            0 <= i < lg2.index_shadow_data.len() implies (
                        #[trigger] lg2.index_shadow_data[i]) < lg2.cursor_index by {
                            if i < lg.index_shadow_data.len() {
                                assert(lg2.index_shadow_data[i] == lg.index_shadow_data[i]);
                            } else {
                                assert(lg2.index_shadow_data[i] == spec_quad_indices(
                                    lg.cursor_index,
                                )[i - lg.index_shadow_data.len()]);
                            }
                        }
                    };
                    assert(s2.groups == s.groups.update(s.groups.len() - 1, lg2));
                    assert forall|i: int| 0 <= i < s2.groups.len() implies (
                    #[trigger] s2.groups[i]).wf() by {
                        if i < s.groups.len() - 1 {
                            assert(s2.groups[i] == s.groups[i]);
                        } else {
                            assert(s2.groups[i] == lg2);
                        }
                    }
                    assert(s2.wf());
                } else {
                    let g0 = spec_append_quad(
                        spec_open_group(vh, rv->Ok_0, ih, ri->Ok_0, s.crop),
                        uv,
                        pos,
                        color,
                        texture_index as u32,
                    );
                    assert(rv->Ok_0 + QUAD_VERTEX_BYTES == va2.cursor);
                    assert(ri->Ok_0 + QUAD_INDEX_BYTES == ia2.cursor);
                    assert(va2.cursor <= vh.capacity);
                    assert(ia2.cursor <= ih.capacity);
                    assert(g0.wf()) by {
                        assert(g0.cursor_index == 4);
                        assert(g0.index_shadow_data =~= spec_quad_indices(0));
                        assert(g0.vertex_shadow_data.len() == 4);
                    };
                    assert(s2.groups == s.groups.push(g0));
                    assert forall|i: int| 0 <= i < s2.groups.len() implies (
                    #[trigger] s2.groups[i]).wf() by {
                        if i < s.groups.len() {
                            assert(s2.groups[i] == s.groups[i]);
                        } else {
                            assert(s2.groups[i] == g0);
                        }
                    }
                    assert forall|i: int|
                        0 <= i < s2.groups.len() implies (
                    #[trigger] s2.groups[i]).vertex_buffer.generation
                        <= s2.vertex_arena.generation() by {
                        if i < s.groups.len() {
                            assert(s2.groups[i] == s.groups[i]);
                        }
                    }
                    assert forall|i: int|
                        0 <= i < s2.groups.len() implies (
                    #[trigger] s2.groups[i]).index_buffer.generation
                        <= s2.index_arena.generation() by {
                        if i < s.groups.len() {
                            assert(s2.groups[i] == s.groups[i]);
                        }
                    }
                    assert(s2.wf());
                }
            }
        }
    }
}

} // verus!
