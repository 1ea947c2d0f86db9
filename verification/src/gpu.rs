//! Descriptions of GPU resources, as plain numbers.

use vstd::prelude::*;

verus! {

/// One byte a pixel: `DXGI_FORMAT_R8_UNORM`.
pub const FORMAT_R8_UNORM: u32 = 61;

/// Four bytes a pixel, red first: `DXGI_FORMAT_R8G8B8A8_UNORM`.
pub const FORMAT_R8G8B8A8_UNORM: u32 = 28;

/// Four bytes a pixel, blue first: `DXGI_FORMAT_B8G8R8A8_UNORM`.
pub const FORMAT_B8G8R8A8_UNORM: u32 = 87;

/// `D3D11_BIND_SHADER_RESOURCE`.
pub const BIND_SHADER_RESOURCE: u32 = 8;

/// `D3D11_BIND_RENDER_TARGET`.
pub const BIND_RENDER_TARGET: u32 = 32;

/// `D3D11_USAGE_DEFAULT`.
pub const USAGE_DEFAULT: u32 = 0;

/// `D3D11_USAGE_DYNAMIC`.
pub const USAGE_DYNAMIC: u32 = 2;

/// A two-dimensional texture to create.
#[derive(Clone, Copy, Debug, PartialEq, Eq, Structural)]
pub struct TextureDesc {
    pub width: u32,
    pub height: u32,
    pub mip_levels: u32,
    pub array_size: u32,
    pub format: u32,
    pub sample_count: u32,
    pub sample_quality: u32,
    pub usage: u32,
    pub bind_flags: u32,
    pub cpu_access_flags: u32,
    pub misc_flags: u32,
}

/// A texture of one level and one layer.
pub open spec fn flat_texture(
    width: u32,
    height: u32,
    format: u32,
    sample_count: u32,
    sample_quality: u32,
    bind_flags: u32,
) -> TextureDesc {
    TextureDesc {
        width,
        height,
        mip_levels: 1,
        array_size: 1,
        format,
        sample_count,
        sample_quality,
        usage: USAGE_DEFAULT,
        bind_flags,
        cpu_access_flags: 0,
        misc_flags: 0,
    }
}

impl TextureDesc {
    /// A texture of one level and one layer.
    pub fn flat(
        width: u32,
        height: u32,
        format: u32,
        sample_count: u32,
        sample_quality: u32,
        bind_flags: u32,
    ) -> (result: Self)
        ensures
            result == flat_texture(width, height, format, sample_count, sample_quality, bind_flags),
    {
        TextureDesc {
            width,
            height,
            mip_levels: 1,
            array_size: 1,
            format,
            sample_count,
            sample_quality,
            usage: USAGE_DEFAULT,
            bind_flags,
            cpu_access_flags: 0,
            misc_flags: 0,
        }
    }
}

/// A box of texels, one texel deep.
#[derive(Clone, Copy, Debug, PartialEq, Eq, Structural)]
pub struct TexelBox {
    pub left: u32,
    pub top: u32,
    pub right: u32,
    pub bottom: u32,
}

/// Law: a flat texture has the size, format, samples and uses that were asked for, and
/// one level, one layer and no access by the processor.
pub proof fn lemma_flat_texture_is_as_asked(
    width: u32,
    height: u32,
    format: u32,
    sample_count: u32,
    sample_quality: u32,
    bind_flags: u32,
)
    ensures
        ({
            let texture = flat_texture(
                width,
                height,
                format,
                sample_count,
                sample_quality,
                bind_flags,
            );
            &&& texture.width == width
            &&& texture.height == height
            &&& texture.format == format
            &&& texture.sample_count == sample_count
            &&& texture.sample_quality == sample_quality
            &&& texture.bind_flags == bind_flags
            &&& texture.mip_levels == 1
            &&& texture.array_size == 1
            &&& texture.usage == 0
            &&& texture.cpu_access_flags == 0
            &&& texture.misc_flags == 0
        }),
{
}

} // verus!
