//! The pipelines of the renderer: their shaders, blending and first buffers.

use crate::effect_id;
use vstd::prelude::*;
use vstd::string::StringExecFns;

verus! {

/// The built-in effects, in the order of their numbers.
#[derive(Clone, Copy, Debug, PartialEq, Eq, Structural)]
pub enum EffectShader {
    Frost,
    Noise,
    Glow,
}

/// The shaders, by what they draw.
#[derive(Clone, Copy, Debug, PartialEq, Eq, Structural)]
pub enum ShaderModule {
    Quad,
    Shadow,
    BlurDownsample,
    BlurUpsample,
    BlurRect,
    Underline,
    PathRasterization,
    PathSprite,
    MonochromeSprite,
    SubpixelSprite,
    PolychromeSprite,
    EmojiRasterization,
    /// A `--shading` effect. Its vertex stage is shared by all effects, and
    /// its fragment stage comes from a file of its own.
    Effect(EffectShader),
}

/// The stages of a pipeline.
#[derive(Clone, Copy, Debug, PartialEq, Eq, Structural)]
pub enum ShaderTarget {
    Vertex,
    Fragment,
}

/// The directory that a shader's source is in.
#[derive(Clone, Copy, Debug, PartialEq, Eq, Structural)]
pub enum ShaderDirectory {
    /// The renderer's own sources.
    Renderer,
    /// The compiled effects.
    GeneratedEffects,
}

/// How the output of a pipeline meets what is there.
#[derive(Clone, Copy, Debug, PartialEq, Eq, Structural)]
pub enum BlendMode {
    /// The usual way: source over destination.
    Over,
    /// Not at all: the shader writes every channel itself.
    Replace,
    /// Channel by channel, by the coverage of the second output.
    Subpixel,
    /// Source over destination, the source being premultiplied already.
    Premultiplied,
}

impl EffectShader {
    /// The effect's number.
    pub open spec fn id(self) -> u32 {
        match self {
            EffectShader::Frost => effect_id::FROST,
            EffectShader::Noise => effect_id::NOISE,
            EffectShader::Glow => effect_id::GLOW,
        }
    }

    /// All effects, in the order of their numbers.
    pub fn all() -> (result: Vec<EffectShader>)
        ensures
            result@.len() == effect_id::COUNT,
            forall|i: int| 0 <= i < result@.len() ==> (#[trigger] result@[i]).id() == i,
    {
        let mut all: Vec<EffectShader> = Vec::new();
        all.push(EffectShader::Frost);
        all.push(EffectShader::Noise);
        all.push(EffectShader::Glow);
        all
    }

    /// The name by which CSS knows the effect.
    pub open spec fn css_name(self) -> Seq<char> {
        match self {
            EffectShader::Frost => "frost"@,
            EffectShader::Noise => "noise"@,
            EffectShader::Glow => "glow"@,
        }
    }

    /// The name by which CSS knows the effect.
    pub fn name(self) -> (result: &'static str)
        ensures
            result@ == self.css_name(),
    {
        match self {
            EffectShader::Frost => "frost",
            EffectShader::Noise => "noise",
            EffectShader::Glow => "glow",
        }
    }

    /// The label of the effect's pipeline.
    pub open spec fn label(self) -> Seq<char> {
        match self {
            EffectShader::Frost => "effect_frost_pipeline"@,
            EffectShader::Noise => "effect_noise_pipeline"@,
            EffectShader::Glow => "effect_glow_pipeline"@,
        }
    }

    /// The label of the effect's pipeline.
    pub fn pipeline_label(self) -> (result: &'static str)
        ensures
            result@ == self.label(),
    {
        match self {
            EffectShader::Frost => "effect_frost_pipeline",
            EffectShader::Noise => "effect_noise_pipeline",
            EffectShader::Glow => "effect_glow_pipeline",
        }
    }

    /// Whether the effect samples the snapshot of the render target.
    pub fn needs_backdrop(self) -> (result: bool)
        ensures
            result == (self == EffectShader::Frost),
    {
        match self {
            EffectShader::Frost => true,
            _ => false,
        }
    }

    /// How the effect's output meets what is there. An effect that samples the
    /// backdrop writes every pixel of its quad anew.
    pub fn blend(self) -> (result: BlendMode)
        ensures
            result == (if self == EffectShader::Frost {
                BlendMode::Replace
            } else {
                BlendMode::Over
            }),
    {
        if self.needs_backdrop() {
            BlendMode::Replace
        } else {
            BlendMode::Over
        }
    }
}

/// The least feature level on which the effects' shaders can be created:
/// `D3D_FEATURE_LEVEL_11_0`.
pub const EFFECTS_FEATURE_LEVEL: u32 = 0xB000;

/// How many instances an effect's first buffer holds.
pub const EFFECT_BUFFER_SIZE: usize = 8;

/// What is said where no effect can be created.
pub fn effects_unsupported() -> (result: &'static str)
    ensures
        result@
            == "`--shading` requires a Direct3D 11 GPU (feature level 11_0); effects are disabled and every other style renders normally"@,
{
    "`--shading` requires a Direct3D 11 GPU (feature level 11_0); effects are disabled and every other style renders normally"
}

/// The effects to create pipelines for, on a device of the given feature
/// level: all, or none where their shaders cannot be created.
pub fn effects_to_build(feature_level: u32) -> (result: Vec<EffectShader>)
    ensures
        feature_level < EFFECTS_FEATURE_LEVEL ==> result@.len() == 0,
        feature_level >= EFFECTS_FEATURE_LEVEL ==> result@.len() == effect_id::COUNT,
        forall|i: int| 0 <= i < result@.len() ==> (#[trigger] result@[i]).id() == i,
{
    if feature_level < EFFECTS_FEATURE_LEVEL {
        Vec::new()
    } else {
        EffectShader::all()
    }
}

/// What is said of an effect whose pipeline could not be created.
pub fn effect_unavailable(effect: EffectShader, error: &str) -> (result: String)
    ensures
        result@ == "`--shading: "@ + effect.css_name()
            + "(…)` is unavailable — its pipeline failed to build: "@ + error@,
{
    let mut text = String::from_str("`--shading: ");
    text.append(effect.name());
    text.append("(…)` is unavailable — its pipeline failed to build: ");
    text.append(error);
    text
}

impl ShaderModule {
    /// What the names of a module's entry points begin with.
    pub open spec fn prefix(self) -> Seq<char> {
        match self {
            ShaderModule::Effect(effect) => effect.css_name(),
            ShaderModule::Quad => "quad"@,
            ShaderModule::Shadow => "shadow"@,
            ShaderModule::BlurDownsample => "blur_downsample"@,
            ShaderModule::BlurUpsample => "blur_upsample"@,
            ShaderModule::BlurRect => "blur_rect"@,
            ShaderModule::Underline => "underline"@,
            ShaderModule::PathRasterization => "path_rasterization"@,
            ShaderModule::PathSprite => "path_sprite"@,
            ShaderModule::MonochromeSprite => "monochrome_sprite"@,
            ShaderModule::SubpixelSprite => "subpixel_sprite"@,
            ShaderModule::PolychromeSprite => "polychrome_sprite"@,
            ShaderModule::EmojiRasterization => "emoji_rasterization"@,
        }
    }

    /// What the names of a module's entry points begin with.
    pub fn as_str(self) -> (result: &'static str)
        ensures
            result@ == self.prefix(),
    {
        match self {
            ShaderModule::Effect(effect) => effect.name(),
            ShaderModule::Quad => "quad",
            ShaderModule::Shadow => "shadow",
            ShaderModule::BlurDownsample => "blur_downsample",
            ShaderModule::BlurUpsample => "blur_upsample",
            ShaderModule::BlurRect => "blur_rect",
            ShaderModule::Underline => "underline",
            ShaderModule::PathRasterization => "path_rasterization",
            ShaderModule::PathSprite => "path_sprite",
            ShaderModule::MonochromeSprite => "monochrome_sprite",
            ShaderModule::SubpixelSprite => "subpixel_sprite",
            ShaderModule::PolychromeSprite => "polychrome_sprite",
            ShaderModule::EmojiRasterization => "emoji_rasterization",
        }
    }
}

impl ShaderTarget {
    /// What the names of a stage's entry points end with.
    pub open spec fn suffix(self) -> Seq<char> {
        match self {
            ShaderTarget::Vertex => "_vertex"@,
            ShaderTarget::Fragment => "_fragment"@,
        }
    }
}

/// Where a stage of a shader is compiled from, and how.
#[derive(Debug)]
pub struct ShaderSource {
    pub directory: ShaderDirectory,
    /// The file's path below the directory.
    pub file: String,
    /// The name of the function, and a NUL character.
    pub entry_point: String,
    /// The compiler's profile, and a NUL character.
    pub profile: String,
}

/// What a [`ShaderSource`] holds.
#[verifier::ext_equal]
pub struct SourceModel {
    pub directory: ShaderDirectory,
    pub file: Seq<char>,
    pub entry_point: Seq<char>,
    pub profile: Seq<char>,
}

impl View for ShaderSource {
    type V = SourceModel;

    open spec fn view(&self) -> SourceModel {
        SourceModel {
            directory: self.directory,
            file: self.file@,
            entry_point: self.entry_point@,
            profile: self.profile@,
        }
    }
}

/// Where a stage of a shader is compiled from, and how. Only effects need more
/// than shader model 4.
pub open spec fn shader_source(module: ShaderModule, target: ShaderTarget) -> SourceModel {
    match module {
        ShaderModule::Effect(effect) => match target {
            ShaderTarget::Vertex => SourceModel {
                directory: ShaderDirectory::Renderer,
                file: "src/effects.hlsl"@,
                entry_point: "effect_vertex\0"@,
                profile: "vs_5_0\0"@,
            },
            ShaderTarget::Fragment => SourceModel {
                directory: ShaderDirectory::GeneratedEffects,
                file: effect.css_name() + ".hlsl"@,
                entry_point: "effect_fragment\0"@,
                profile: "ps_5_0\0"@,
            },
        },
        _ => SourceModel {
            directory: ShaderDirectory::Renderer,
            file: if module == ShaderModule::EmojiRasterization {
                "src/color_text_raster.hlsl"@
            } else {
                "src/shaders.hlsl"@
            },
            entry_point: module.prefix() + target.suffix() + "\0"@,
            profile: match target {
                ShaderTarget::Vertex => "vs_4_1\0"@,
                ShaderTarget::Fragment => "ps_4_1\0"@,
            },
        },
    }
}

/// Where a stage of a shader is compiled from, and how.
pub fn build_shader_blob(module: ShaderModule, target: ShaderTarget) -> (result: ShaderSource)
    ensures
        result@ == shader_source(module, target),
{
    match module {
        ShaderModule::Effect(effect) => match target {
            ShaderTarget::Vertex => ShaderSource {
                directory: ShaderDirectory::Renderer,
                file: String::from_str("src/effects.hlsl"),
                entry_point: String::from_str("effect_vertex\0"),
                profile: String::from_str("vs_5_0\0"),
            },
            ShaderTarget::Fragment => {
                let mut file = String::from_str(effect.name());
                file.append(".hlsl");
                ShaderSource {
                    directory: ShaderDirectory::GeneratedEffects,
                    file,
                    entry_point: String::from_str("effect_fragment\0"),
                    profile: String::from_str("ps_5_0\0"),
                }
            },
        },
        _ => {
            let file = if module == ShaderModule::EmojiRasterization {
                "src/color_text_raster.hlsl"
            } else {
                "src/shaders.hlsl"
            };
            let mut entry_point = String::from_str(module.as_str());
            match target {
                ShaderTarget::Vertex => entry_point.append("_vertex"),
                ShaderTarget::Fragment => entry_point.append("_fragment"),
            }
            entry_point.append("\0");
            let profile = match target {
                ShaderTarget::Vertex => "vs_4_1\0",
                ShaderTarget::Fragment => "ps_4_1\0",
            };
            ShaderSource {
                directory: ShaderDirectory::Renderer,
                file: String::from_str(file),
                entry_point,
                profile: String::from_str(profile),
            }
        },
    }
}

/// The constant that holds a stage of a shader compiled ahead of time.
pub open spec fn binary_name(module: ShaderModule, target: ShaderTarget) -> Seq<char> {
    match (module, target) {
        (ShaderModule::Quad, ShaderTarget::Vertex) => "QUAD_VERTEX_BYTES"@,
        (ShaderModule::Quad, ShaderTarget::Fragment) => "QUAD_FRAGMENT_BYTES"@,
        (ShaderModule::Shadow, ShaderTarget::Vertex) => "SHADOW_VERTEX_BYTES"@,
        (ShaderModule::Shadow, ShaderTarget::Fragment) => "SHADOW_FRAGMENT_BYTES"@,
        (ShaderModule::BlurDownsample, ShaderTarget::Vertex) => "BLUR_DOWNSAMPLE_VERTEX_BYTES"@,
        (ShaderModule::BlurDownsample, ShaderTarget::Fragment) => "BLUR_DOWNSAMPLE_FRAGMENT_BYTES"@,
        (ShaderModule::BlurUpsample, ShaderTarget::Vertex) => "BLUR_UPSAMPLE_VERTEX_BYTES"@,
        (ShaderModule::BlurUpsample, ShaderTarget::Fragment) => "BLUR_UPSAMPLE_FRAGMENT_BYTES"@,
        (ShaderModule::BlurRect, ShaderTarget::Vertex) => "BLUR_RECT_VERTEX_BYTES"@,
        (ShaderModule::BlurRect, ShaderTarget::Fragment) => "BLUR_RECT_FRAGMENT_BYTES"@,
        (ShaderModule::Underline, ShaderTarget::Vertex) => "UNDERLINE_VERTEX_BYTES"@,
        (ShaderModule::Underline, ShaderTarget::Fragment) => "UNDERLINE_FRAGMENT_BYTES"@,
        (ShaderModule::PathRasterization, ShaderTarget::Vertex) =>
            "PATH_RASTERIZATION_VERTEX_BYTES"@,
        (ShaderModule::PathRasterization, ShaderTarget::Fragment) =>
            "PATH_RASTERIZATION_FRAGMENT_BYTES"@,
        (ShaderModule::PathSprite, ShaderTarget::Vertex) => "PATH_SPRITE_VERTEX_BYTES"@,
        (ShaderModule::PathSprite, ShaderTarget::Fragment) => "PATH_SPRITE_FRAGMENT_BYTES"@,
        (ShaderModule::MonochromeSprite, ShaderTarget::Vertex) => "MONOCHROME_SPRITE_VERTEX_BYTES"@,
        (ShaderModule::MonochromeSprite, ShaderTarget::Fragment) =>
            "MONOCHROME_SPRITE_FRAGMENT_BYTES"@,
        (ShaderModule::SubpixelSprite, ShaderTarget::Vertex) => "SUBPIXEL_SPRITE_VERTEX_BYTES"@,
        (ShaderModule::SubpixelSprite, ShaderTarget::Fragment) => "SUBPIXEL_SPRITE_FRAGMENT_BYTES"@,
        (ShaderModule::PolychromeSprite, ShaderTarget::Vertex) => "POLYCHROME_SPRITE_VERTEX_BYTES"@,
        (ShaderModule::PolychromeSprite, ShaderTarget::Fragment) =>
            "POLYCHROME_SPRITE_FRAGMENT_BYTES"@,
        (ShaderModule::EmojiRasterization, ShaderTarget::Vertex) =>
            "EMOJI_RASTERIZATION_VERTEX_BYTES"@,
        (ShaderModule::EmojiRasterization, ShaderTarget::Fragment) =>
            "EMOJI_RASTERIZATION_FRAGMENT_BYTES"@,
        (ShaderModule::Effect(_), ShaderTarget::Vertex) => "EFFECT_VERTEX_BYTES"@,
        (ShaderModule::Effect(EffectShader::Frost), ShaderTarget::Fragment) =>
            "EFFECT_FROST_FRAGMENT_BYTES"@,
        (ShaderModule::Effect(EffectShader::Noise), ShaderTarget::Fragment) =>
            "EFFECT_NOISE_FRAGMENT_BYTES"@,
        (ShaderModule::Effect(EffectShader::Glow), ShaderTarget::Fragment) =>
            "EFFECT_GLOW_FRAGMENT_BYTES"@,
    }
}

/// The constant that holds a stage of a shader compiled ahead of time. One
/// vertex shader serves every effect.
pub fn from_bytes(module: ShaderModule, target: ShaderTarget) -> (result: &'static str)
    ensures
        result@ == binary_name(module, target),
{
    match (module, target) {
        (ShaderModule::Quad, ShaderTarget::Vertex) => "QUAD_VERTEX_BYTES",
        (ShaderModule::Quad, ShaderTarget::Fragment) => "QUAD_FRAGMENT_BYTES",
        (ShaderModule::Shadow, ShaderTarget::Vertex) => "SHADOW_VERTEX_BYTES",
        (ShaderModule::Shadow, ShaderTarget::Fragment) => "SHADOW_FRAGMENT_BYTES",
        (ShaderModule::BlurDownsample, ShaderTarget::Vertex) => "BLUR_DOWNSAMPLE_VERTEX_BYTES",
        (ShaderModule::BlurDownsample, ShaderTarget::Fragment) => "BLUR_DOWNSAMPLE_FRAGMENT_BYTES",
        (ShaderModule::BlurUpsample, ShaderTarget::Vertex) => "BLUR_UPSAMPLE_VERTEX_BYTES",
        (ShaderModule::BlurUpsample, ShaderTarget::Fragment) => "BLUR_UPSAMPLE_FRAGMENT_BYTES",
        (ShaderModule::BlurRect, ShaderTarget::Vertex) => "BLUR_RECT_VERTEX_BYTES",
        (ShaderModule::BlurRect, ShaderTarget::Fragment) => "BLUR_RECT_FRAGMENT_BYTES",
        (ShaderModule::Underline, ShaderTarget::Vertex) => "UNDERLINE_VERTEX_BYTES",
        (ShaderModule::Underline, ShaderTarget::Fragment) => "UNDERLINE_FRAGMENT_BYTES",
        (ShaderModule::PathRasterization, ShaderTarget::Vertex) =>
            "PATH_RASTERIZATION_VERTEX_BYTES",
        (ShaderModule::PathRasterization, ShaderTarget::Fragment) =>
            "PATH_RASTERIZATION_FRAGMENT_BYTES",
        (ShaderModule::PathSprite, ShaderTarget::Vertex) => "PATH_SPRITE_VERTEX_BYTES",
        (ShaderModule::PathSprite, ShaderTarget::Fragment) => "PATH_SPRITE_FRAGMENT_BYTES",
        (ShaderModule::MonochromeSprite, ShaderTarget::Vertex) => "MONOCHROME_SPRITE_VERTEX_BYTES",
        (ShaderModule::MonochromeSprite, ShaderTarget::Fragment) =>
            "MONOCHROME_SPRITE_FRAGMENT_BYTES",
        (ShaderModule::SubpixelSprite, ShaderTarget::Vertex) => "SUBPIXEL_SPRITE_VERTEX_BYTES",
        (ShaderModule::SubpixelSprite, ShaderTarget::Fragment) => "SUBPIXEL_SPRITE_FRAGMENT_BYTES",
        (ShaderModule::PolychromeSprite, ShaderTarget::Vertex) => "POLYCHROME_SPRITE_VERTEX_BYTES",
        (ShaderModule::PolychromeSprite, ShaderTarget::Fragment) =>
            "POLYCHROME_SPRITE_FRAGMENT_BYTES",
        (ShaderModule::EmojiRasterization, ShaderTarget::Vertex) =>
            "EMOJI_RASTERIZATION_VERTEX_BYTES",
        (ShaderModule::EmojiRasterization, ShaderTarget::Fragment) =>
            "EMOJI_RASTERIZATION_FRAGMENT_BYTES",
        (ShaderModule::Effect(_), ShaderTarget::Vertex) => "EFFECT_VERTEX_BYTES",
        (ShaderModule::Effect(EffectShader::Frost), ShaderTarget::Fragment) =>
            "EFFECT_FROST_FRAGMENT_BYTES",
        (ShaderModule::Effect(EffectShader::Noise), ShaderTarget::Fragment) =>
            "EFFECT_NOISE_FRAGMENT_BYTES",
        (ShaderModule::Effect(EffectShader::Glow), ShaderTarget::Fragment) =>
            "EFFECT_GLOW_FRAGMENT_BYTES",
    }
}

/// A pipeline to create.
#[derive(Clone, Copy, Debug)]
pub struct PipelineDesc {
    pub label: &'static str,
    pub module: ShaderModule,
    /// How many instances the first buffer holds.
    pub buffer_size: usize,
    pub blend: BlendMode,
}

/// A pipeline that the renderer cannot do without.
#[derive(Clone, Copy, Debug, PartialEq, Eq, Structural)]
pub enum CorePipeline {
    Shadow,
    Quad,
    BlurDownsample,
    BlurUpsample,
    BlurRect,
    PathRasterization,
    PathSprite,
    Underline,
    MonochromeSprite,
    SubpixelSprite,
    PolychromeSprite,
}

/// The pipelines that the renderer cannot do without, in the order in which
/// they are created.
pub open spec fn core_pipelines() -> Seq<CorePipeline> {
    seq![
        CorePipeline::Shadow,
        CorePipeline::Quad,
        CorePipeline::BlurDownsample,
        CorePipeline::BlurUpsample,
        CorePipeline::BlurRect,
        CorePipeline::PathRasterization,
        CorePipeline::PathSprite,
        CorePipeline::Underline,
        CorePipeline::MonochromeSprite,
        CorePipeline::SubpixelSprite,
        CorePipeline::PolychromeSprite,
    ]
}

impl CorePipeline {
    /// The pipelines that the renderer cannot do without, in the order in which
    /// they are created.
    pub fn all() -> (result: Vec<CorePipeline>)
        ensures
            result@ == core_pipelines(),
    {
        let mut all: Vec<CorePipeline> = Vec::new();
        all.push(CorePipeline::Shadow);
        all.push(CorePipeline::Quad);
        all.push(CorePipeline::BlurDownsample);
        all.push(CorePipeline::BlurUpsample);
        all.push(CorePipeline::BlurRect);
        all.push(CorePipeline::PathRasterization);
        all.push(CorePipeline::PathSprite);
        all.push(CorePipeline::Underline);
        all.push(CorePipeline::MonochromeSprite);
        all.push(CorePipeline::SubpixelSprite);
        all.push(CorePipeline::PolychromeSprite);
        all
    }

    /// The pipeline's shaders.
    pub open spec fn module(self) -> ShaderModule {
        match self {
            CorePipeline::Shadow => ShaderModule::Shadow,
            CorePipeline::Quad => ShaderModule::Quad,
            CorePipeline::BlurDownsample => ShaderModule::BlurDownsample,
            CorePipeline::BlurUpsample => ShaderModule::BlurUpsample,
            CorePipeline::BlurRect => ShaderModule::BlurRect,
            CorePipeline::PathRasterization => ShaderModule::PathRasterization,
            CorePipeline::PathSprite => ShaderModule::PathSprite,
            CorePipeline::Underline => ShaderModule::Underline,
            CorePipeline::MonochromeSprite => ShaderModule::MonochromeSprite,
            CorePipeline::SubpixelSprite => ShaderModule::SubpixelSprite,
            CorePipeline::PolychromeSprite => ShaderModule::PolychromeSprite,
        }
    }

    /// How many instances the pipeline's first buffer holds.
    pub open spec fn first_buffer(self) -> usize {
        match self {
            CorePipeline::Shadow => 4,
            CorePipeline::Quad => 64,
            CorePipeline::BlurDownsample => 1,
            CorePipeline::BlurUpsample => 1,
            CorePipeline::BlurRect => 8,
            CorePipeline::PathRasterization => 32,
            CorePipeline::PathSprite => 4,
            CorePipeline::Underline => 4,
            CorePipeline::MonochromeSprite => 512,
            CorePipeline::SubpixelSprite => 512,
            CorePipeline::PolychromeSprite => 16,
        }
    }

    /// How the pipeline's output meets what is there. The passes of a backdrop
    /// blur write every pixel of their target anew.
    pub open spec fn blending(self) -> BlendMode {
        match self {
            CorePipeline::BlurDownsample => BlendMode::Replace,
            CorePipeline::BlurUpsample => BlendMode::Replace,
            CorePipeline::BlurRect => BlendMode::Replace,
            CorePipeline::PathRasterization => BlendMode::Premultiplied,
            CorePipeline::PathSprite => BlendMode::Premultiplied,
            CorePipeline::SubpixelSprite => BlendMode::Subpixel,
            _ => BlendMode::Over,
        }
    }

    /// The pipeline's label.
    pub open spec fn label(self) -> Seq<char> {
        match self {
            CorePipeline::Shadow => "shadow_pipeline"@,
            CorePipeline::Quad => "quad_pipeline"@,
            CorePipeline::BlurDownsample => "blur_downsample_pipeline"@,
            CorePipeline::BlurUpsample => "blur_upsample_pipeline"@,
            CorePipeline::BlurRect => "blur_rect_pipeline"@,
            CorePipeline::PathRasterization => "path_rasterization_pipeline"@,
            CorePipeline::PathSprite => "path_sprite_pipeline"@,
            CorePipeline::Underline => "underline_pipeline"@,
            CorePipeline::MonochromeSprite => "monochrome_sprite_pipeline"@,
            CorePipeline::SubpixelSprite => "subpixel_sprite_pipeline"@,
            CorePipeline::PolychromeSprite => "polychrome_sprite_pipeline"@,
        }
    }

    /// The pipeline to create.
    pub fn desc(self) -> (result: PipelineDesc)
        ensures
            result.label@ == self.label(),
            result.module == self.module(),
            result.buffer_size == self.first_buffer(),
            result.blend == self.blending(),
    {
        match self {
            CorePipeline::Shadow => PipelineDesc {
                label: "shadow_pipeline",
                module: ShaderModule::Shadow,
                buffer_size: 4,
                blend: BlendMode::Over,
            },
            CorePipeline::Quad => PipelineDesc {
                label: "quad_pipeline",
                module: ShaderModule::Quad,
                buffer_size: 64,
                blend: BlendMode::Over,
            },
            CorePipeline::BlurDownsample => PipelineDesc {
                label: "blur_downsample_pipeline",
                module: ShaderModule::BlurDownsample,
                buffer_size: 1,
                blend: BlendMode::Replace,
            },
            CorePipeline::BlurUpsample => PipelineDesc {
                label: "blur_upsample_pipeline",
                module: ShaderModule::BlurUpsample,
                buffer_size: 1,
                blend: BlendMode::Replace,
            },
            CorePipeline::BlurRect => PipelineDesc {
                label: "blur_rect_pipeline",
                module: ShaderModule::BlurRect,
                buffer_size: 8,
                blend: BlendMode::Replace,
            },
            CorePipeline::PathRasterization => PipelineDesc {
                label: "path_rasterization_pipeline",
                module: ShaderModule::PathRasterization,
                buffer_size: 32,
                blend: BlendMode::Premultiplied,
            },
            CorePipeline::PathSprite => PipelineDesc {
                label: "path_sprite_pipeline",
                module: ShaderModule::PathSprite,
                buffer_size: 4,
                blend: BlendMode::Premultiplied,
            },
            CorePipeline::Underline => PipelineDesc {
                label: "underline_pipeline",
                module: ShaderModule::Underline,
                buffer_size: 4,
                blend: BlendMode::Over,
            },
            CorePipeline::MonochromeSprite => PipelineDesc {
                label: "monochrome_sprite_pipeline",
                module: ShaderModule::MonochromeSprite,
                buffer_size: 512,
                blend: BlendMode::Over,
            },
            CorePipeline::SubpixelSprite => PipelineDesc {
                label: "subpixel_sprite_pipeline",
                module: ShaderModule::SubpixelSprite,
                buffer_size: 512,
                blend: BlendMode::Subpixel,
            },
            CorePipeline::PolychromeSprite => PipelineDesc {
                label: "polychrome_sprite_pipeline",
                module: ShaderModule::PolychromeSprite,
                buffer_size: 16,
                blend: BlendMode::Over,
            },
        }
    }
}

/// How one render target is blended, in the numbers of Direct3D.
#[derive(Clone, Copy, Debug, PartialEq, Eq, Structural)]
pub struct BlendDesc {
    pub enable: bool,
    pub src_blend: u32,
    pub dest_blend: u32,
    pub blend_op: u32,
    pub src_blend_alpha: u32,
    pub dest_blend_alpha: u32,
    pub blend_op_alpha: u32,
    pub write_mask: u8,
}

/// `D3D11_BLEND_ZERO`.
pub const BLEND_ZERO: u32 = 1;

/// `D3D11_BLEND_ONE`.
pub const BLEND_ONE: u32 = 2;

/// `D3D11_BLEND_SRC_ALPHA`.
pub const BLEND_SRC_ALPHA: u32 = 5;

/// `D3D11_BLEND_INV_SRC_ALPHA`.
pub const BLEND_INV_SRC_ALPHA: u32 = 6;

/// `D3D11_BLEND_SRC1_COLOR`.
pub const BLEND_SRC1_COLOR: u32 = 16;

/// `D3D11_BLEND_INV_SRC1_COLOR`.
pub const BLEND_INV_SRC1_COLOR: u32 = 17;

/// `D3D11_BLEND_OP_ADD`.
pub const BLEND_OP_ADD: u32 = 1;

/// `D3D11_COLOR_WRITE_ENABLE_ALL`.
pub const WRITE_ALL: u8 = 15;

/// All of `D3D11_COLOR_WRITE_ENABLE_ALL` but `D3D11_COLOR_WRITE_ENABLE_ALPHA`.
pub const WRITE_COLOR: u8 = 7;

/// How a mode blends. Alpha is blended source over destination too, so that
/// translucent surfaces on top of one another do not add up to opaque. Text
/// with coverage per channel leaves alpha alone.
pub open spec fn blend_desc(mode: BlendMode) -> BlendDesc {
    match mode {
        BlendMode::Over => BlendDesc {
            enable: true,
            src_blend: BLEND_SRC_ALPHA,
            dest_blend: BLEND_INV_SRC_ALPHA,
            blend_op: BLEND_OP_ADD,
            src_blend_alpha: BLEND_ONE,
            dest_blend_alpha: BLEND_INV_SRC_ALPHA,
            blend_op_alpha: BLEND_OP_ADD,
            write_mask: WRITE_ALL,
        },
        BlendMode::Replace => BlendDesc {
            enable: false,
            src_blend: 0,
            dest_blend: 0,
            blend_op: 0,
            src_blend_alpha: 0,
            dest_blend_alpha: 0,
            blend_op_alpha: 0,
            write_mask: WRITE_ALL,
        },
        BlendMode::Subpixel => BlendDesc {
            enable: true,
            src_blend: BLEND_SRC1_COLOR,
            dest_blend: BLEND_INV_SRC1_COLOR,
            blend_op: BLEND_OP_ADD,
            src_blend_alpha: BLEND_ONE,
            dest_blend_alpha: BLEND_ZERO,
            blend_op_alpha: BLEND_OP_ADD,
            write_mask: WRITE_COLOR,
        },
        BlendMode::Premultiplied => BlendDesc {
            enable: true,
            src_blend: BLEND_ONE,
            dest_blend: BLEND_INV_SRC_ALPHA,
            blend_op: BLEND_OP_ADD,
            src_blend_alpha: BLEND_ONE,
            dest_blend_alpha: BLEND_INV_SRC_ALPHA,
            blend_op_alpha: BLEND_OP_ADD,
            write_mask: WRITE_ALL,
        },
    }
}

/// How a mode blends.
pub fn create_blend_state(mode: BlendMode) -> (result: BlendDesc)
    ensures
        result == blend_desc(mode),
{
    match mode {
        BlendMode::Over => BlendDesc {
            enable: true,
            src_blend: BLEND_SRC_ALPHA,
            dest_blend: BLEND_INV_SRC_ALPHA,
            blend_op: BLEND_OP_ADD,
            src_blend_alpha: BLEND_ONE,
            dest_blend_alpha: BLEND_INV_SRC_ALPHA,
            blend_op_alpha: BLEND_OP_ADD,
            write_mask: WRITE_ALL,
        },
        BlendMode::Replace => BlendDesc {
            enable: false,
            src_blend: 0,
            dest_blend: 0,
            blend_op: 0,
            src_blend_alpha: 0,
            dest_blend_alpha: 0,
            blend_op_alpha: 0,
            write_mask: WRITE_ALL,
        },
        BlendMode::Subpixel => BlendDesc {
            enable: true,
            src_blend: BLEND_SRC1_COLOR,
            dest_blend: BLEND_INV_SRC1_COLOR,
            blend_op: BLEND_OP_ADD,
            src_blend_alpha: BLEND_ONE,
            dest_blend_alpha: BLEND_ZERO,
            blend_op_alpha: BLEND_OP_ADD,
            write_mask: WRITE_COLOR,
        },
        BlendMode::Premultiplied => BlendDesc {
            enable: true,
            src_blend: BLEND_ONE,
            dest_blend: BLEND_INV_SRC_ALPHA,
            blend_op: BLEND_OP_ADD,
            src_blend_alpha: BLEND_ONE,
            dest_blend_alpha: BLEND_INV_SRC_ALPHA,
            blend_op_alpha: BLEND_OP_ADD,
            write_mask: WRITE_ALL,
        },
    }
}

/// What a blend factor for alpha stands for, where `full` is opaque.
pub open spec fn alpha_factor(blend: u32, source: int, full: int) -> int {
    if blend == BLEND_ONE {
        full
    } else if blend == BLEND_SRC_ALPHA {
        source
    } else if blend == BLEND_INV_SRC_ALPHA {
        full - source
    } else {
        0
    }
}

/// The alpha that is written, times `full`, which is opaque.
pub open spec fn blended_alpha(
    blend: BlendDesc,
    source: int,
    destination: int,
    full: int,
) -> int {
    if blend.enable {
        source * alpha_factor(blend.src_blend_alpha, source, full) + destination * alpha_factor(
            blend.dest_blend_alpha,
            source,
            full,
        )
    } else {
        source * full
    }
}

/// Law: where blending is on and alpha is written, alpha is blended source over
/// destination. Translucent surfaces on top of one another never add up to more
/// than opaque, nor to opaque unless one of them is; an opaque destination
/// stays opaque, and none gets more transparent.
pub proof fn lemma_alpha_is_never_added_up(
    mode: BlendMode,
    source: int,
    destination: int,
    full: int,
)
    requires
        blend_desc(mode).enable,
        blend_desc(mode).write_mask == WRITE_ALL,
        0 <= source <= full,
        0 <= destination <= full,
    ensures
        blended_alpha(blend_desc(mode), source, destination, full) == source * full + destination
            * (full - source),
        destination * full <= blended_alpha(blend_desc(mode), source, destination, full) <= full
            * full,
        destination == full ==> blended_alpha(blend_desc(mode), source, destination, full) == full
            * full,
        source < full && destination < full ==> blended_alpha(
            blend_desc(mode),
            source,
            destination,
            full,
        ) < full * full,
{
    let blended = source * full + destination * (full - source);
    assert(full * full - blended == (full - source) * (full - destination)) by (nonlinear_arith)
        requires
            blended == source * full + destination * (full - source),
    ;
    assert(blended - destination * full == source * (full - destination)) by (nonlinear_arith)
        requires
            blended == source * full + destination * (full - source),
    ;
    assert((full - source) * (full - destination) >= 0) by (nonlinear_arith)
        requires
            source <= full,
            destination <= full,
    ;
    assert(source * (full - destination) >= 0) by (nonlinear_arith)
        requires
            0 <= source,
            destination <= full,
    ;
    if source < full && destination < full {
        assert((full - source) * (full - destination) > 0) by (nonlinear_arith)
            requires
                source < full,
                destination < full,
        ;
    }
}

} // verus!
