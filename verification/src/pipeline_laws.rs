//! What holds of the pipelines: how they are named, and how they blend.

use crate::backdrop::BLUR_TEXTURE_LEVELS;
use crate::effect::{EFFECT_FLAG_NEEDS_BACKDROP, MAX_BACKDROP_BLUR_KERNEL_LEVELS};
use crate::effect_id;
use crate::gpu::{
    BIND_RENDER_TARGET, BIND_SHADER_RESOURCE, FORMAT_B8G8R8A8_UNORM, FORMAT_R8G8B8A8_UNORM,
    FORMAT_R8_UNORM, USAGE_DEFAULT, USAGE_DYNAMIC,
};
use crate::instance_buffer::{BIND_CONSTANT_BUFFER, CPU_ACCESS_WRITE, MISC_BUFFER_STRUCTURED};
use crate::packing::MAX_COUNT;
use crate::pipelines::{
    binary_name, blend_desc, core_pipelines, shader_source, BlendDesc, BlendMode, CorePipeline,
    EffectShader, ShaderDirectory, ShaderModule, ShaderSource, ShaderTarget, EFFECTS_FEATURE_LEVEL,
    EFFECT_BUFFER_SIZE,
};
use crate::targets::{
    ALPHA_MODE_IGNORE, ALPHA_MODE_PREMULTIPLIED, BIND_TARGET_AND_RESOURCE, PATH_MULTISAMPLE_COUNT,
    RENDER_TARGET_FORMAT, SCALING_NONE, SCALING_STRETCH, STANDARD_MULTISAMPLE_PATTERN,
    SWAP_EFFECT_FLIP_SEQUENTIAL, USAGE_RENDER_TARGET_OUTPUT,
};
use vstd::prelude::*;

verus! {

/// A letter as a capital; other characters as they are.
pub open spec fn capital(c: char) -> char {
    if 'a' <= c <= 'z' {
        (c as int - 32) as char
    } else {
        c
    }
}

/// A text in capitals.
pub open spec fn capitals(text: Seq<char>) -> Seq<char> {
    text.map_values(|c: char| capital(c))
}

/// Law: the effects are numbered in their order from zero on, are named apart, and
/// the label of each one's pipeline is made of its name.
pub proof fn lemma_effects_are_named(effect: EffectShader, other: EffectShader)
    ensures
        effect.id() < effect_id::COUNT,
        effect.id() == other.id() <==> effect == other,
        effect.css_name() == other.css_name() <==> effect == other,
        EffectShader::Frost.id() == 0 && EffectShader::Noise.id() == 1 && EffectShader::Glow.id()
            == 2,
        EffectShader::Frost.css_name() == "frost"@,
        EffectShader::Noise.css_name() == "noise"@,
        EffectShader::Glow.css_name() == "glow"@,
        effect.label() == "effect_"@ + effect.css_name() + "_pipeline"@,
{
    reveal_strlit("frost");
    reveal_strlit("noise");
    reveal_strlit("glow");
    reveal_strlit("effect_");
    reveal_strlit("_pipeline");
    reveal_strlit("effect_frost_pipeline");
    reveal_strlit("effect_noise_pipeline");
    reveal_strlit("effect_glow_pipeline");
    assert("frost"@[0] == 'f' && "noise"@[0] == 'n' && "glow"@[0] == 'g');
    assert(effect.label() =~= "effect_"@ + effect.css_name() + "_pipeline"@);
}

/// Law: every pipeline is created once, in this order, from the shaders of its own
/// name, and its label is made of that name.
pub proof fn lemma_pipelines_are_created_once(pipeline: CorePipeline, i: int)
    requires
        0 <= i < core_pipelines().len(),
    ensures
        core_pipelines().contains(pipeline),
        core_pipelines().no_duplicates(),
        core_pipelines()[i].module() == seq![
            ShaderModule::Shadow,
            ShaderModule::Quad,
            ShaderModule::BlurDownsample,
            ShaderModule::BlurUpsample,
            ShaderModule::BlurRect,
            ShaderModule::PathRasterization,
            ShaderModule::PathSprite,
            ShaderModule::Underline,
            ShaderModule::MonochromeSprite,
            ShaderModule::SubpixelSprite,
            ShaderModule::PolychromeSprite,
        ][i],
        pipeline.module() == (match pipeline {
            CorePipeline::Shadow => ShaderModule::Shadow,
            CorePipeline::Quad => ShaderModule::Quad,
            CorePipeline::BlurDownsample => ShaderModule::BlurDownsample,
            CorePipeline::BlurUpsample => ShaderModule::BlurUpsample,
            CorePipeline::BlurRect => ShaderModule::BlurRect,
            CorePipeline::PathRasterization => ShaderModule::PathRasterization,
            CorePipeline::PathSprite => ShaderModule::PathSprite,
            CorePipeline::Underline => ShaderModule::Underline,
            CorePipeline::MonochromeSprite => ShaderModule::MonochromeSprite,
            CorePipeline::SubpixelSprite => ShaderModule::SubpixelSprite,
            CorePipeline::PolychromeSprite => ShaderModule::PolychromeSprite,
        }),
        pipeline.label() == pipeline.module().prefix() + "_pipeline"@,
{
    let all = core_pipelines();
    let at: int = match pipeline {
        CorePipeline::Shadow => 0,
        CorePipeline::Quad => 1,
        CorePipeline::BlurDownsample => 2,
        CorePipeline::BlurUpsample => 3,
        CorePipeline::BlurRect => 4,
        CorePipeline::PathRasterization => 5,
        CorePipeline::PathSprite => 6,
        CorePipeline::Underline => 7,
        CorePipeline::MonochromeSprite => 8,
        CorePipeline::SubpixelSprite => 9,
        CorePipeline::PolychromeSprite => 10,
    };
    assert(all[at] == pipeline);
    reveal_strlit("_pipeline");
    match pipeline {
        CorePipeline::Shadow => {
            reveal_strlit("shadow");
            reveal_strlit("shadow_pipeline");
        },
        CorePipeline::Quad => {
            reveal_strlit("quad");
            reveal_strlit("quad_pipeline");
        },
        CorePipeline::BlurDownsample => {
            reveal_strlit("blur_downsample");
            reveal_strlit("blur_downsample_pipeline");
        },
        CorePipeline::BlurUpsample => {
            reveal_strlit("blur_upsample");
            reveal_strlit("blur_upsample_pipeline");
        },
        CorePipeline::BlurRect => {
            reveal_strlit("blur_rect");
            reveal_strlit("blur_rect_pipeline");
        },
        CorePipeline::PathRasterization => {
            reveal_strlit("path_rasterization");
            reveal_strlit("path_rasterization_pipeline");
        },
        CorePipeline::PathSprite => {
            reveal_strlit("path_sprite");
            reveal_strlit("path_sprite_pipeline");
        },
        CorePipeline::Underline => {
            reveal_strlit("underline");
            reveal_strlit("underline_pipeline");
        },
        CorePipeline::MonochromeSprite => {
            reveal_strlit("monochrome_sprite");
            reveal_strlit("monochrome_sprite_pipeline");
        },
        CorePipeline::SubpixelSprite => {
            reveal_strlit("subpixel_sprite");
            reveal_strlit("subpixel_sprite_pipeline");
        },
        CorePipeline::PolychromeSprite => {
            reveal_strlit("polychrome_sprite");
            reveal_strlit("polychrome_sprite_pipeline");
        },
    }
    assert(pipeline.label() =~= pipeline.module().prefix() + "_pipeline"@);
}

/// Law: only the passes of a backdrop blur write without blending, only paths come
/// premultiplied, and only text with coverage per channel blends by channel.
pub proof fn lemma_who_blends_how(pipeline: CorePipeline)
    ensures
        pipeline.blending() == BlendMode::Replace <==> pipeline is BlurDownsample
            || pipeline is BlurUpsample || pipeline is BlurRect,
        pipeline.blending() == BlendMode::Premultiplied <==> pipeline is PathRasterization
            || pipeline is PathSprite,
        pipeline.blending() == BlendMode::Subpixel <==> pipeline is SubpixelSprite,
{
}

/// Law: a first buffer has room for some instances, most for the glyphs of
/// a window, then for its quads.
pub proof fn lemma_first_buffers_have_room(pipeline: CorePipeline)
    ensures
        pipeline.first_buffer() > 0,
        pipeline.first_buffer() == 512 <==> pipeline is MonochromeSprite
            || pipeline is SubpixelSprite,
        pipeline.first_buffer() == 64 <==> pipeline is Quad,
        pipeline.first_buffer() == 32 <==> pipeline is PathRasterization,
        pipeline.first_buffer() == 16 <==> pipeline is PolychromeSprite,
        pipeline.first_buffer() == 8 <==> pipeline is BlurRect,
        pipeline.first_buffer() == 4 <==> pipeline is Shadow || pipeline is PathSprite
            || pipeline is Underline,
        pipeline.first_buffer() == 1 <==> pipeline is BlurDownsample || pipeline is BlurUpsample,
{
}

/// What a blend factor of Direct3D stands for, of `full`, where the source has the
/// alpha `alpha` and the second output is `coverage`.
pub open spec fn factor(blend: u32, alpha: int, coverage: int, full: int) -> int {
    if blend == 1 {
        0
    } else if blend == 2 {
        full
    } else if blend == 5 {
        alpha
    } else if blend == 6 {
        full - alpha
    } else if blend == 16 {
        coverage
    } else if blend == 17 {
        full - coverage
    } else {
        -1
    }
}

/// The colour that is written to a channel, times `full`, where the sum of source and
/// destination is written.
pub open spec fn blended_color(
    blend: BlendDesc,
    source: int,
    destination: int,
    alpha: int,
    coverage: int,
    full: int,
) -> int
    recommends
        blend.enable ==> blend.blend_op == 1,
{
    if blend.enable {
        source * factor(blend.src_blend, alpha, coverage, full) + destination * factor(
            blend.dest_blend,
            alpha,
            coverage,
            full,
        )
    } else {
        source * full
    }
}

/// Law: what each mode does to a colour channel. A colour goes over what is there by
/// its alpha; a premultiplied one is added to what its alpha leaves of what is there;
/// text with coverage per channel goes over it by its coverage and leaves alpha alone;
/// and what replaces is written as it is.
pub proof fn lemma_colors_are_blended(
    mode: BlendMode,
    source: int,
    destination: int,
    alpha: int,
    coverage: int,
    full: int,
)
    ensures
        ({
            let blend = blend_desc(mode);
            let written = blended_color(blend, source, destination, alpha, coverage, full);
            &&& mode == BlendMode::Over ==> written == source * alpha + destination * (full - alpha)
            &&& mode == BlendMode::Premultiplied ==> written == source * full + destination * (full
                - alpha)
            &&& mode == BlendMode::Subpixel ==> written == source * coverage + destination * (full
                - coverage)
            &&& mode == BlendMode::Replace ==> written == source * full
            &&& blend.enable <==> mode != BlendMode::Replace
            &&& blend.enable ==> blend.blend_op == 1 && blend.blend_op_alpha == 1
            &&& blend.write_mask == (if mode == BlendMode::Subpixel {
                7u8
            } else {
                15
            })
        }),
{
}

/// Law: what each mode does to alpha. Source goes over destination; where alpha is not
/// written, it would be the source's.
pub proof fn lemma_alpha_is_blended(mode: BlendMode, source: int, destination: int, full: int)
    requires
        blend_desc(mode).enable,
    ensures
        ({
            let blend = blend_desc(mode);
            let written = source * factor(blend.src_blend_alpha, source, 0, full) + destination
                * factor(blend.dest_blend_alpha, source, 0, full);
            written == source * full + (if mode == BlendMode::Subpixel {
                0
            } else {
                destination * (full - source)
            })
        }),
{
    assert(destination * 0 == 0);
}

/// Law: a stage is compiled from the function of its module's and its stage's name;
/// all effects share their vertex stage and have fragment stages in files of their
/// own; and only effects need more than shader model 4.
pub proof fn lemma_shaders_are_compiled_by_name(
    module: ShaderModule,
    other: ShaderModule,
    target: ShaderTarget,
)
    ensures
        ({
            let source = shader_source(module, target);
            let profile = source.profile;
            &&& module !is Effect ==> source.entry_point == module.prefix() + target.suffix()
                + "\0"@
            &&& module is Effect ==> source.entry_point == "effect"@ + target.suffix() + "\0"@
            &&& profile.len() == 7 && profile.last() == '\0'
            &&& profile[0] == (if target == ShaderTarget::Vertex {
                'v'
            } else {
                'p'
            }) && profile[1] == 's' && profile[2] == '_' && profile[4] == '_'
            &&& module is Effect ==> profile[3] == '5' && profile[5] == '0'
            &&& module !is Effect ==> profile[3] == '4' && profile[5] == '1'
            &&& source.directory == ShaderDirectory::GeneratedEffects <==> module is Effect
                && target == ShaderTarget::Fragment
            &&& module is Effect && other is Effect ==> shader_source(
                module,
                ShaderTarget::Vertex,
            ) == shader_source(other, ShaderTarget::Vertex)
            &&& module is Effect && target == ShaderTarget::Fragment ==> source.file
                == module.prefix() + ".hlsl"@
            &&& source.directory == ShaderDirectory::Renderer ==> source.file == (if module
                is Effect {
                "src/effects.hlsl"@
            } else if module is EmojiRasterization {
                "src/color_text_raster.hlsl"@
            } else {
                "src/shaders.hlsl"@
            })
        }),
        ShaderTarget::Vertex.suffix() == "_vertex"@,
        ShaderTarget::Fragment.suffix() == "_fragment"@,
{
    reveal_strlit("\0");
    reveal_strlit("effect");
    reveal_strlit("_vertex");
    reveal_strlit("_fragment");
    reveal_strlit("effect_vertex\0");
    reveal_strlit("effect_fragment\0");
    reveal_strlit("vs_5_0\0");
    reveal_strlit("ps_5_0\0");
    reveal_strlit("vs_4_1\0");
    reveal_strlit("ps_4_1\0");
    assert("effect_vertex\0"@ =~= "effect"@ + "_vertex"@ + "\0"@);
    assert("effect_fragment\0"@ =~= "effect"@ + "_fragment"@ + "\0"@);
}

/// Law: the constant of a stage that was compiled ahead of time is the stage's own
/// name in capitals; all effects share that of their vertex stage.
pub proof fn lemma_binaries_are_named(module: ShaderModule, target: ShaderTarget)
    ensures
        module !is Effect ==> binary_name(module, target) == capitals(
            module.prefix() + target.suffix(),
        ) + "_BYTES"@,
        module is Effect && target == ShaderTarget::Vertex ==> binary_name(module, target)
            == capitals("effect"@ + target.suffix()) + "_BYTES"@,
        module is Effect && target == ShaderTarget::Fragment ==> binary_name(module, target)
            == capitals("effect_"@ + module.prefix() + target.suffix()) + "_BYTES"@,
{
    reveal_strlit("_vertex");
    reveal_strlit("_fragment");
    reveal_strlit("_BYTES");
    match module {
        ShaderModule::Quad => {
            reveal_strlit("quad");
            reveal_strlit("QUAD_VERTEX_BYTES");
            reveal_strlit("QUAD_FRAGMENT_BYTES");
        },
        ShaderModule::Shadow => {
            reveal_strlit("shadow");
            reveal_strlit("SHADOW_VERTEX_BYTES");
            reveal_strlit("SHADOW_FRAGMENT_BYTES");
        },
        ShaderModule::BlurDownsample => {
            reveal_strlit("blur_downsample");
            reveal_strlit("BLUR_DOWNSAMPLE_VERTEX_BYTES");
            reveal_strlit("BLUR_DOWNSAMPLE_FRAGMENT_BYTES");
        },
        ShaderModule::BlurUpsample => {
            reveal_strlit("blur_upsample");
            reveal_strlit("BLUR_UPSAMPLE_VERTEX_BYTES");
            reveal_strlit("BLUR_UPSAMPLE_FRAGMENT_BYTES");
        },
        ShaderModule::BlurRect => {
            reveal_strlit("blur_rect");
            reveal_strlit("BLUR_RECT_VERTEX_BYTES");
            reveal_strlit("BLUR_RECT_FRAGMENT_BYTES");
        },
        ShaderModule::Underline => {
            reveal_strlit("underline");
            reveal_strlit("UNDERLINE_VERTEX_BYTES");
            reveal_strlit("UNDERLINE_FRAGMENT_BYTES");
        },
        ShaderModule::PathRasterization => {
            reveal_strlit("path_rasterization");
            reveal_strlit("PATH_RASTERIZATION_VERTEX_BYTES");
            reveal_strlit("PATH_RASTERIZATION_FRAGMENT_BYTES");
        },
        ShaderModule::PathSprite => {
            reveal_strlit("path_sprite");
            reveal_strlit("PATH_SPRITE_VERTEX_BYTES");
            reveal_strlit("PATH_SPRITE_FRAGMENT_BYTES");
        },
        ShaderModule::MonochromeSprite => {
            reveal_strlit("monochrome_sprite");
            reveal_strlit("MONOCHROME_SPRITE_VERTEX_BYTES");
            reveal_strlit("MONOCHROME_SPRITE_FRAGMENT_BYTES");
        },
        ShaderModule::SubpixelSprite => {
            reveal_strlit("subpixel_sprite");
            reveal_strlit("SUBPIXEL_SPRITE_VERTEX_BYTES");
            reveal_strlit("SUBPIXEL_SPRITE_FRAGMENT_BYTES");
        },
        ShaderModule::PolychromeSprite => {
            reveal_strlit("polychrome_sprite");
            reveal_strlit("POLYCHROME_SPRITE_VERTEX_BYTES");
            reveal_strlit("POLYCHROME_SPRITE_FRAGMENT_BYTES");
        },
        ShaderModule::EmojiRasterization => {
            reveal_strlit("emoji_rasterization");
            reveal_strlit("EMOJI_RASTERIZATION_VERTEX_BYTES");
            reveal_strlit("EMOJI_RASTERIZATION_FRAGMENT_BYTES");
        },
        ShaderModule::Effect(effect) => {
            reveal_strlit("effect_");
            reveal_strlit("effect");
            reveal_strlit("frost");
            reveal_strlit("noise");
            reveal_strlit("glow");
            reveal_strlit("EFFECT_VERTEX_BYTES");
            reveal_strlit("EFFECT_FROST_FRAGMENT_BYTES");
            reveal_strlit("EFFECT_NOISE_FRAGMENT_BYTES");
            reveal_strlit("EFFECT_GLOW_FRAGMENT_BYTES");
        },
    }
    let named = if module !is Effect {
        module.prefix() + target.suffix()
    } else if target == ShaderTarget::Vertex {
        "effect"@ + target.suffix()
    } else {
        "effect_"@ + module.prefix() + target.suffix()
    };
    assert(binary_name(module, target) =~= capitals(named) + "_BYTES"@);
}

/// Law: the numbers that stand for constants of Direct3D and DXGI are theirs.
pub proof fn lemma_numbers_of_direct3d()
    ensures
        FORMAT_R8_UNORM == 61,
        FORMAT_R8G8B8A8_UNORM == 28,
        FORMAT_B8G8R8A8_UNORM == 87,
        RENDER_TARGET_FORMAT == 87,
        BIND_CONSTANT_BUFFER == 0x4,
        BIND_SHADER_RESOURCE == 0x8,
        BIND_RENDER_TARGET == 0x20,
        BIND_TARGET_AND_RESOURCE == 0x28,
        USAGE_DEFAULT == 0,
        USAGE_DYNAMIC == 2,
        CPU_ACCESS_WRITE == 0x1_0000,
        MISC_BUFFER_STRUCTURED == 0x40,
        STANDARD_MULTISAMPLE_PATTERN == u32::MAX,
        USAGE_RENDER_TARGET_OUTPUT == 0x20,
        SCALING_STRETCH == 0,
        SCALING_NONE == 1,
        SWAP_EFFECT_FLIP_SEQUENTIAL == 3,
        ALPHA_MODE_PREMULTIPLIED == 1,
        ALPHA_MODE_IGNORE == 3,
        EFFECTS_FEATURE_LEVEL == 0xB000,
{
    assert(0x20u32 | 0x8u32 == 0x28u32) by (bit_vector);
}

/// Law: every level that a blur may take has a texture, every pixel of a path has four
/// samples, an effect's first buffer has room for eight quads, and the number for no
/// effect is that of none.
pub proof fn lemma_limits_belong_together(effect: EffectShader)
    ensures
        BLUR_TEXTURE_LEVELS == MAX_BACKDROP_BLUR_KERNEL_LEVELS,
        MAX_BACKDROP_BLUR_KERNEL_LEVELS == 5,
        EFFECT_FLAG_NEEDS_BACKDROP == 1,
        PATH_MULTISAMPLE_COUNT == 4,
        EFFECT_BUFFER_SIZE == 8,
        effect_id::COUNT == 3,
        effect_id::NONE == u32::MAX,
        effect.id() != effect_id::NONE,
        MAX_COUNT == 0xFFFF,
{
}

/// Law: what is said of a shader's source is what is in it.
pub proof fn lemma_source_shows_itself(source: ShaderSource)
    ensures
        source@.directory == source.directory,
        source@.file == source.file@,
        source@.entry_point == source.entry_point@,
        source@.profile == source.profile@,
{
}

} // verus!
