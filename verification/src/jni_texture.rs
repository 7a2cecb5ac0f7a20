//! Texture descriptions handed across the foreign-function boundary.
//!
//! The host passes dimensionality and pixel format as raw integers; the
//! conversions here validate them into the matching enum instead of
//! reinterpreting the bits, rejecting every code outside the declared
//! variants.

use vstd::prelude::*;

verus! {

/// Dimensionality of a texture.
#[allow(non_camel_case_types)]
#[derive(Clone, Copy, PartialEq, Eq, Structural, Debug)]
pub enum JavaTextureDim {
    DIM_1D,
    DIM_2D,
    DIM_3D,
}

/// The integer code the host uses for each dimensionality.
pub open spec fn spec_dim_code(dim: JavaTextureDim) -> int {
    match dim {
        JavaTextureDim::DIM_1D => 0,
        JavaTextureDim::DIM_2D => 1,
        JavaTextureDim::DIM_3D => 2,
    }
}

impl JavaTextureDim {
    /// The dimensionality encoded by the host's integer code, if any.
    pub fn from_raw(value: i32) -> (r: Option<JavaTextureDim>)
        ensures
            r matches Some(dim) ==> spec_dim_code(dim) == value,
            r is Some <==> 0 <= value <= 2,
    {
        match value {
            0 => Some(JavaTextureDim::DIM_1D),
            1 => Some(JavaTextureDim::DIM_2D),
            2 => Some(JavaTextureDim::DIM_3D),
            _ => None,
        }
    }
}

/// Pixel format of a texture.
#[allow(non_camel_case_types)]
#[derive(Clone, Copy, PartialEq, Eq, Structural, Debug)]
pub enum JavaImageFormat {
    UNKNOWN,
    R8_UNORM,
    R8_SNORM,
    R8_UINT,
    R8_SINT,
    R8G8_UNORM,
    R8G8_SNORM,
    R8G8_UINT,
    R8G8_SINT,
    R16_UNORM,
    R16_SNORM,
    R16_UINT,
    R16_SINT,
    R8G8B8A8_UNORM,
    R8G8B8A8_SNORM,
    R8G8B8A8_UINT,
    R8G8B8A8_SINT,
    R8G8B8A8_SRGB,
}

/// The integer code the host uses for each pixel format.
pub open spec fn spec_format_code(format: JavaImageFormat) -> int {
    match format {
        JavaImageFormat::UNKNOWN => 0,
        JavaImageFormat::R8_UNORM => 1,
        JavaImageFormat::R8_SNORM => 2,
        JavaImageFormat::R8_UINT => 3,
        JavaImageFormat::R8_SINT => 4,
        JavaImageFormat::R8G8_UNORM => 5,
        JavaImageFormat::R8G8_SNORM => 6,
        JavaImageFormat::R8G8_UINT => 7,
        JavaImageFormat::R8G8_SINT => 8,
        JavaImageFormat::R16_UNORM => 9,
        JavaImageFormat::R16_SNORM => 10,
        JavaImageFormat::R16_UINT => 11,
        JavaImageFormat::R16_SINT => 12,
        JavaImageFormat::R8G8B8A8_UNORM => 13,
        JavaImageFormat::R8G8B8A8_SNORM => 14,
        JavaImageFormat::R8G8B8A8_UINT => 15,
        JavaImageFormat::R8G8B8A8_SINT => 16,
        JavaImageFormat::R8G8B8A8_SRGB => 17,
    }
}

impl JavaImageFormat {
    /// The pixel format encoded by the host's integer code, if any.
    pub fn from_raw(value: i32) -> (r: Option<JavaImageFormat>)
        ensures
            r matches Some(format) ==> spec_format_code(format) == value,
            r is Some <==> 0 <= value <= 17,
    {
        match value {
            0 => Some(JavaImageFormat::UNKNOWN),
            1 => Some(JavaImageFormat::R8_UNORM),
            2 => Some(JavaImageFormat::R8_SNORM),
            3 => Some(JavaImageFormat::R8_UINT),
            4 => Some(JavaImageFormat::R8_SINT),
            5 => Some(JavaImageFormat::R8G8_UNORM),
            6 => Some(JavaImageFormat::R8G8_SNORM),
            7 => Some(JavaImageFormat::R8G8_UINT),
            8 => Some(JavaImageFormat::R8G8_SINT),
            9 => Some(JavaImageFormat::R16_UNORM),
            10 => Some(JavaImageFormat::R16_SNORM),
            11 => Some(JavaImageFormat::R16_UINT),
            12 => Some(JavaImageFormat::R16_SINT),
            13 => Some(JavaImageFormat::R8G8B8A8_UNORM),
            14 => Some(JavaImageFormat::R8G8B8A8_SNORM),
            15 => Some(JavaImageFormat::R8G8B8A8_UINT),
            16 => Some(JavaImageFormat::R8G8B8A8_SINT),
            17 => Some(JavaImageFormat::R8G8B8A8_SRGB),
            _ => None,
        }
    }
}

/// A texture description received from the host.
#[derive(Clone, Copy, PartialEq, Eq, Structural, Debug)]
pub struct JavaTextureDesc {
    pub width: u32,
    pub height: u32,
    pub layers: u32,
    pub dim: JavaTextureDim,
    pub format: JavaImageFormat,
}

impl JavaTextureDesc {
    /// A description assembled from already-validated parts.
    pub fn new(
        width: u32,
        height: u32,
        layers: u32,
        dim: JavaTextureDim,
        format: JavaImageFormat,
    ) -> (r: JavaTextureDesc)
        ensures
            r == (JavaTextureDesc { width, height, layers, dim, format }),
    {
        JavaTextureDesc { width, height, layers, dim, format }
    }

    /// A description decoded from the host's raw field values; `None`
    /// exactly when the dimensionality or format code is not one the
    /// library declares.
    pub fn from_raw(width: u32, height: u32, layers: u32, dim: i32, format: i32) -> (r: Option<
        JavaTextureDesc,
    >)
        ensures
            r is Some <==> (0 <= dim <= 2 && 0 <= format <= 17),
            r matches Some(desc) ==> {
                &&& desc.width == width
                &&& desc.height == height
                &&& desc.layers == layers
                &&& spec_dim_code(desc.dim) == dim
                &&& spec_format_code(desc.format) == format
            },
    {
        let parsed_dim = match JavaTextureDim::from_raw(dim) {
            Some(d) => d,
            None => {
                return None;
            },
        };
        let parsed_format = match JavaImageFormat::from_raw(format) {
            Some(f) => f,
            None => {
                return None;
            },
        };
        Some(JavaTextureDesc { width, height, layers, dim: parsed_dim, format: parsed_format })
    }
}

} // verus!
