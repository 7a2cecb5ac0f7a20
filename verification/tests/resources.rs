use ui_batch::chunk_mesh_resource::{
    chunk_index_buffer_size, chunk_stream_layout, ChunkAttributes, ChunkColor, MeshRenderType,
};
use ui_batch::engine_kernel::{EngineEvent, ResizePayload};
use ui_batch::java_util::JNIError;
use ui_batch::jni_texture::{JavaImageFormat, JavaTextureDesc, JavaTextureDim};
use ui_batch::mesh_resource::Semantic;
use ui_batch::ui::UITextureSamplerTypes;

#[test]
fn texture_dim_codes_round_trip() {
    assert_eq!(JavaTextureDim::from_raw(0), Some(JavaTextureDim::DIM_1D));
    assert_eq!(JavaTextureDim::from_raw(1), Some(JavaTextureDim::DIM_2D));
    assert_eq!(JavaTextureDim::from_raw(2), Some(JavaTextureDim::DIM_3D));
    assert_eq!(JavaTextureDim::from_raw(3), None);
    assert_eq!(JavaTextureDim::from_raw(-1), None);
}

#[test]
fn image_format_codes_round_trip() {
    assert_eq!(JavaImageFormat::from_raw(0), Some(JavaImageFormat::UNKNOWN));
    assert_eq!(JavaImageFormat::from_raw(1), Some(JavaImageFormat::R8_UNORM));
    assert_eq!(JavaImageFormat::from_raw(13), Some(JavaImageFormat::R8G8B8A8_UNORM));
    assert_eq!(JavaImageFormat::from_raw(17), Some(JavaImageFormat::R8G8B8A8_SRGB));
    assert_eq!(JavaImageFormat::from_raw(18), None);
    assert_eq!(JavaImageFormat::from_raw(-3), None);
}

#[test]
fn texture_desc_from_raw_validates_both_codes() {
    let desc = JavaTextureDesc::from_raw(640, 480, 1, 1, 13).unwrap();
    assert_eq!(desc.width, 640);
    assert_eq!(desc.height, 480);
    assert_eq!(desc.layers, 1);
    assert_eq!(desc.dim, JavaTextureDim::DIM_2D);
    assert_eq!(desc.format, JavaImageFormat::R8G8B8A8_UNORM);
    assert_eq!(JavaTextureDesc::from_raw(640, 480, 1, 5, 13), None);
    assert_eq!(JavaTextureDesc::from_raw(640, 480, 1, 1, 42), None);
    let built = JavaTextureDesc::new(640, 480, 1, JavaTextureDim::DIM_2D, JavaImageFormat::R8G8B8A8_UNORM);
    assert_eq!(built, desc);
}

#[test]
fn chunk_streams_are_laid_out_back_to_back() {
    let layout = chunk_stream_layout(10);
    assert_eq!(layout.position_start, 0);
    assert_eq!(layout.normal_start, 120);
    assert_eq!(layout.uv_start, 240);
    assert_eq!(layout.color_start, 320);
    assert_eq!(layout.attribute_start, 360);
    assert_eq!(layout.vertex_buffer_size, 420);
    let empty = chunk_stream_layout(0);
    assert_eq!(empty.vertex_buffer_size, 0);
    assert_eq!(chunk_index_buffer_size(36), 144);
}

#[test]
fn chunk_value_types_compare_by_contents() {
    assert_eq!(ChunkColor(0xFF00FF00), ChunkColor(0xFF00FF00));
    let attrs = ChunkAttributes {
        sunlight: 15,
        block_light: 3,
        ambient_occlusion: 2,
        pad: 0,
        flags: 1,
        frames: 4,
    };
    assert_eq!(attrs, attrs);
    assert_ne!(MeshRenderType::Opaque, MeshRenderType::Translucent);
    assert_eq!(MeshRenderType::WaterAndIce, MeshRenderType::WaterAndIce);
}

#[test]
fn light_map_semantic_is_the_fourth_texcoord() {
    assert_eq!(Semantic::light0(), Semantic::TEXCOORD3);
}

#[test]
fn resize_events_carry_their_payload() {
    let event = EngineEvent::Resize(ResizePayload { width: 1280, height: 720 });
    assert_eq!(event.resize_payload(), Some(ResizePayload { width: 1280, height: 720 }));
}

#[test]
fn jni_errors_keep_their_message() {
    let err = JNIError::Generic(String::from("surface lost"));
    assert_eq!(err.message(), "surface lost");
}

#[test]
fn sampler_types_map_to_binding_indices() {
    assert_eq!(UITextureSamplerTypes::DefaultTextureSampler.as_u32(), 0);
    assert_eq!(UITextureSamplerTypes::TileTextureSampler.as_u32(), 1);
    assert_eq!(UITextureSamplerTypes::MaxSamplerTypes.as_u32(), 2);
}
