//! The textures and swap chains that a window is drawn with.

use crate::gpu::{
    flat_texture, TextureDesc, BIND_RENDER_TARGET, BIND_SHADER_RESOURCE, FORMAT_B8G8R8A8_UNORM,
};
use vstd::prelude::*;

verus! {

/// The format of the render target and of everything copied to or from it.
pub const RENDER_TARGET_FORMAT: u32 = FORMAT_B8G8R8A8_UNORM;

/// How many samples a pixel of a path has, which every device can do.
pub const PATH_MULTISAMPLE_COUNT: u32 = 4;

/// `D3D11_STANDARD_MULTISAMPLE_PATTERN`.
pub const STANDARD_MULTISAMPLE_PATTERN: u32 = 0xFFFF_FFFF;

/// How many buffers a swap chain has.
pub const BUFFER_COUNT: u32 = 3;

/// A texture that is drawn to and sampled from.
pub const BIND_TARGET_AND_RESOURCE: u32 = BIND_RENDER_TARGET | BIND_SHADER_RESOURCE;

/// A swap chain to create, in the numbers of DXGI.
#[derive(Clone, Copy, Debug, PartialEq, Eq, Structural)]
pub struct SwapChainDesc {
    pub width: u32,
    pub height: u32,
    pub format: u32,
    pub stereo: bool,
    pub sample_count: u32,
    pub sample_quality: u32,
    pub buffer_usage: u32,
    pub buffer_count: u32,
    pub scaling: u32,
    pub swap_effect: u32,
    pub alpha_mode: u32,
    pub flags: u32,
}

/// `DXGI_USAGE_RENDER_TARGET_OUTPUT`.
pub const USAGE_RENDER_TARGET_OUTPUT: u32 = 0x20;

/// `DXGI_SCALING_STRETCH`.
pub const SCALING_STRETCH: u32 = 0;

/// `DXGI_SCALING_NONE`.
pub const SCALING_NONE: u32 = 1;

/// `DXGI_SWAP_EFFECT_FLIP_SEQUENTIAL`.
pub const SWAP_EFFECT_FLIP_SEQUENTIAL: u32 = 3;

/// `DXGI_ALPHA_MODE_PREMULTIPLIED`.
pub const ALPHA_MODE_PREMULTIPLIED: u32 = 1;

/// `DXGI_ALPHA_MODE_IGNORE`.
pub const ALPHA_MODE_IGNORE: u32 = 3;

/// A swap chain of three buffers.
pub open spec fn swap_chain(
    width: u32,
    height: u32,
    scaling: u32,
    alpha_mode: u32,
) -> SwapChainDesc {
    SwapChainDesc {
        width,
        height,
        format: RENDER_TARGET_FORMAT,
        stereo: false,
        sample_count: 1,
        sample_quality: 0,
        buffer_usage: USAGE_RENDER_TARGET_OUTPUT,
        buffer_count: BUFFER_COUNT,
        scaling,
        swap_effect: SWAP_EFFECT_FLIP_SEQUENTIAL,
        alpha_mode,
        flags: 0,
    }
}

fn make_swap_chain(
    width: u32,
    height: u32,
    scaling: u32,
    alpha_mode: u32,
) -> (result: SwapChainDesc)
    ensures
        result == swap_chain(width, height, scaling, alpha_mode),
{
    SwapChainDesc {
        width,
        height,
        format: RENDER_TARGET_FORMAT,
        stereo: false,
        sample_count: 1,
        sample_quality: 0,
        buffer_usage: USAGE_RENDER_TARGET_OUTPUT,
        buffer_count: BUFFER_COUNT,
        scaling,
        swap_effect: SWAP_EFFECT_FLIP_SEQUENTIAL,
        alpha_mode,
        flags: 0,
    }
}

/// The swap chain of a window that is composed with what is behind it. It is
/// scaled to the window, the only way that composition knows.
pub fn create_swap_chain_for_composition(width: u32, height: u32) -> (result: SwapChainDesc)
    ensures
        result == swap_chain(width, height, SCALING_STRETCH, ALPHA_MODE_PREMULTIPLIED),
{
    make_swap_chain(width, height, SCALING_STRETCH, ALPHA_MODE_PREMULTIPLIED)
}

/// The swap chain of a window that covers what is behind it.
pub fn create_swap_chain(width: u32, height: u32) -> (result: SwapChainDesc)
    ensures
        result == swap_chain(width, height, SCALING_NONE, ALPHA_MODE_IGNORE),
{
    make_swap_chain(width, height, SCALING_NONE, ALPHA_MODE_IGNORE)
}

/// The texture that rasterised paths are resolved into.
pub fn create_path_intermediate_texture(width: u32, height: u32) -> (result: TextureDesc)
    ensures
        result == flat_texture(
            width,
            height,
            RENDER_TARGET_FORMAT,
            1,
            0,
            BIND_TARGET_AND_RESOURCE,
        ),
{
    TextureDesc::flat(width, height, RENDER_TARGET_FORMAT, 1, 0, BIND_TARGET_AND_RESOURCE)
}

/// The texture that paths are rasterised into.
pub fn create_path_intermediate_msaa_texture(width: u32, height: u32) -> (result: TextureDesc)
    ensures
        result == flat_texture(
            width,
            height,
            RENDER_TARGET_FORMAT,
            PATH_MULTISAMPLE_COUNT,
            STANDARD_MULTISAMPLE_PATTERN,
            BIND_RENDER_TARGET,
        ),
{
    TextureDesc::flat(
        width,
        height,
        RENDER_TARGET_FORMAT,
        PATH_MULTISAMPLE_COUNT,
        STANDARD_MULTISAMPLE_PATTERN,
        BIND_RENDER_TARGET,
    )
}

/// The texture that the render target is copied into.
pub fn create_blur_snapshot_texture(width: u32, height: u32) -> (result: TextureDesc)
    ensures
        result == flat_texture(width, height, RENDER_TARGET_FORMAT, 1, 0, BIND_SHADER_RESOURCE),
{
    TextureDesc::flat(width, height, RENDER_TARGET_FORMAT, 1, 0, BIND_SHADER_RESOURCE)
}

/// A texture of the blur pyramid.
pub fn create_blur_texture(width: u32, height: u32) -> (result: TextureDesc)
    ensures
        result == flat_texture(
            width,
            height,
            RENDER_TARGET_FORMAT,
            1,
            0,
            BIND_TARGET_AND_RESOURCE,
        ),
{
    TextureDesc::flat(width, height, RENDER_TARGET_FORMAT, 1, 0, BIND_TARGET_AND_RESOURCE)
}

/// Law: a swap chain has the size, scaling and alpha that were asked for, and three
/// buffers that are drawn to and shown in turn, of one sample a pixel.
pub proof fn lemma_swap_chain_is_as_asked(width: u32, height: u32, scaling: u32, alpha_mode: u32)
    ensures
        ({
            let chain = swap_chain(width, height, scaling, alpha_mode);
            &&& chain.width == width
            &&& chain.height == height
            &&& chain.scaling == scaling
            &&& chain.alpha_mode == alpha_mode
            &&& chain.buffer_count == 3
            &&& chain.buffer_usage == 0x20
            &&& chain.swap_effect == 3
            &&& chain.format == FORMAT_B8G8R8A8_UNORM
            &&& chain.sample_count == 1
            &&& chain.sample_quality == 0
            &&& !chain.stereo
            &&& chain.flags == 0
        }),
{
}

} // verus!
