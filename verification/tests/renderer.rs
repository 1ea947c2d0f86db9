use gpui_scene::backdrop::{
    create_blur_textures, draw_backdrop_blur_rects, BackdropStep, BLUR_TEXTURE_LEVELS,
};
use gpui_scene::batch::PrimitiveBatch;
use gpui_scene::draw_plan::{
    draw_batch, draw_effect_quads, draw_frame, scene_too_large, upload_scene_buffers, BatchPlan,
    BufferUpload, EffectPlan, InstancePipeline,
};
use gpui_scene::effect::{BackdropBlurRect, EffectQuad, EFFECT_FLAG_NEEDS_BACKDROP};
use gpui_scene::effect_id;
use gpui_scene::frame::{
    AdvisoryLog, ClearColor, FramePlan, RendererState, WindowBackgroundAppearance,
};
use gpui_scene::geometry::{Bounds, ContentMask, DevicePixels, Point, Size};
use gpui_scene::instance_buffer::{
    buffer_too_large, create_constant_buffer, range_too_large, BufferGrowth, InstanceBuffer,
    MAX_INSTANCE_BUFFER_SIZE,
};
use gpui_scene::path::{Path, PathId, PathVertex};
use gpui_scene::path_sprites::{draw_paths_from_intermediate, draw_paths_to_intermediate};
use gpui_scene::pipelines::{
    build_shader_blob, create_blend_state, effect_unavailable, effects_to_build,
    effects_unsupported, from_bytes, BlendMode, CorePipeline, EffectShader, ShaderDirectory,
    ShaderModule, ShaderTarget,
};
use gpui_scene::primitives::Quad;
use gpui_scene::scalar::{Scalar, ScaledPixels};
use gpui_scene::scene::Scene;
use gpui_scene::targets;

fn scaled(value: f32) -> ScaledPixels {
    ScaledPixels(Scalar::from_bits(value.to_bits()))
}

fn rect(left: f32, top: f32, right: f32, bottom: f32) -> Bounds<ScaledPixels> {
    Bounds {
        left: scaled(left),
        top: scaled(top),
        right: scaled(right),
        bottom: scaled(bottom),
        extent: None,
    }
}

fn everywhere() -> ContentMask<ScaledPixels> {
    ContentMask {
        bounds: rect(-10000., -10000., 10000., 10000.),
    }
}

fn blur(bounds: Bounds<ScaledPixels>, radius: f32) -> BackdropBlurRect {
    BackdropBlurRect {
        bounds,
        content_mask: everywhere(),
        blur_radius: scaled(radius),
        ..BackdropBlurRect::default()
    }
}

fn frost(bounds: Bounds<ScaledPixels>, radius: f32) -> EffectQuad {
    EffectQuad {
        bounds,
        content_mask: everywhere(),
        effect_id: effect_id::FROST,
        flags: EFFECT_FLAG_NEEDS_BACKDROP,
        backdrop_blur_radius: scaled(radius),
        ..EffectQuad::default()
    }
}

fn composites(steps: &[BackdropStep]) -> Vec<(usize, usize, bool)> {
    let mut found = Vec::new();
    for step in steps {
        if let BackdropStep::Composite {
            first,
            count,
            blurred,
        } = step
        {
            found.push((*first, *count, *blurred));
        }
    }
    found
}

#[test]
fn disjoint_blurs_share_a_snapshot_and_overlapping_ones_do_not() {
    let rects = vec![
        blur(rect(0., 0., 10., 10.), 3.),
        blur(rect(20., 0., 30., 10.), 4.),
        blur(rect(25., 0., 35., 10.), 5.),
        blur(rect(100., 0., 110., 10.), 6.),
        blur(rect(200., 0., 210., 10.), 0.),
    ];
    let steps = draw_backdrop_blur_rects(&rects, 7);
    assert_eq!(steps[0], BackdropStep::EnsureResources);
    assert_eq!(
        composites(&steps),
        vec![(7, 2, true), (9, 1, true), (10, 1, true), (11, 1, false)]
    );
    let snapshots = steps
        .iter()
        .filter(|step| **step == BackdropStep::CopySnapshot)
        .count();
    assert_eq!(snapshots, 4);
    assert!(draw_backdrop_blur_rects(&[], 3).is_empty());
}

#[test]
fn a_deep_blur_goes_down_the_pyramid_and_up_again() {
    let steps = draw_backdrop_blur_rects(&[blur(rect(0., 0., 10., 10.), 12.)], 0);
    assert_eq!(
        steps,
        vec![
            BackdropStep::EnsureResources,
            BackdropStep::CopySnapshot,
            BackdropStep::DownsampleSnapshot { target: 0 },
            BackdropStep::Downsample {
                source: 0,
                target: 1
            },
            BackdropStep::Downsample {
                source: 1,
                target: 2
            },
            BackdropStep::Upsample {
                source: 2,
                target: 1
            },
            BackdropStep::Upsample {
                source: 1,
                target: 0
            },
            BackdropStep::Composite {
                first: 0,
                count: 1,
                blurred: true
            },
        ]
    );
}

#[test]
fn the_pyramid_halves_down_to_one_texel() {
    let sizes: Vec<(u32, u32)> = create_blur_textures(1000, 7)
        .iter()
        .map(|size| (size.width, size.height))
        .collect();
    assert_eq!(sizes.len(), BLUR_TEXTURE_LEVELS);
    assert_eq!(sizes, vec![(500, 3), (250, 1), (125, 1), (62, 1), (31, 1)]);
}

#[test]
fn effects_are_skipped_blended_or_composited() {
    let built = vec![true, false, true];
    let quads = vec![
        frost(rect(0., 0., 10., 10.), 8.),
        frost(rect(5., 5., 15., 15.), 8.),
    ];
    match draw_effect_quads(0, &quads, 4, &built) {
        EffectPlan::Backdrop(steps) => {
            assert_eq!(composites(&steps), vec![(4, 1, true), (5, 1, true)]);
        }
        other => panic!("{other:?}"),
    }
    assert!(matches!(
        draw_effect_quads(1, &quads, 4, &built),
        EffectPlan::Skip
    ));
    assert!(matches!(
        draw_effect_quads(3, &quads, 4, &built),
        EffectPlan::Skip
    ));
    assert!(matches!(
        draw_effect_quads(0, &[], 4, &built),
        EffectPlan::Skip
    ));
    let plain = vec![EffectQuad {
        effect_id: effect_id::GLOW,
        flags: 0,
        ..quads[0]
    }];
    assert!(matches!(
        draw_effect_quads(2, &plain, 4, &built),
        EffectPlan::Blend { first: 4, count: 1 }
    ));
}

#[test]
fn every_batch_has_its_draw() {
    let mut scene = Scene::default();
    scene.insert_primitive(Quad {
        bounds: rect(0., 0., 10., 10.),
        content_mask: everywhere(),
        ..Quad::default()
    });
    scene.insert_primitive(blur(rect(0., 0., 10., 10.), 8.));
    scene.insert_primitive(frost(rect(0., 0., 10., 10.), 8.));
    scene.finish();
    let built = vec![true, true, true];
    assert_eq!(
        upload_scene_buffers(&scene, &built),
        vec![
            BufferUpload::Quads,
            BufferUpload::BackdropBlurRects,
            BufferUpload::EffectQuads(0),
        ]
    );
    assert!(upload_scene_buffers(&Scene::default(), &built).is_empty());
    let mut batches = scene.batches();
    let mut kinds = Vec::new();
    while let Some(batch) = batches.next() {
        kinds.push(match draw_batch(&scene, &batch, &built) {
            BatchPlan::Instances {
                pipeline,
                texture,
                first,
                count,
            } => {
                assert_eq!(pipeline, InstancePipeline::Quads);
                assert_eq!((texture, first, count), (None, 0, 1));
                "instances"
            }
            BatchPlan::Blur(steps) => {
                assert_eq!(composites(&steps), vec![(0, 1, true)]);
                "blur"
            }
            BatchPlan::Effect { effect_id, plan } => {
                assert_eq!(effect_id, effect_id::FROST);
                assert!(matches!(plan, EffectPlan::Backdrop(_)));
                "effect"
            }
            BatchPlan::Paths { .. } => "paths",
            BatchPlan::Skip => "skip",
        });
    }
    assert_eq!(kinds, vec!["instances", "blur", "effect"]);
    assert!(matches!(
        draw_batch(&scene, &PrimitiveBatch::Surfaces(0..0), &built),
        BatchPlan::Skip
    ));
    assert_eq!(
        scene_too_large(&scene),
        "scene too large:0 paths, 0 shadows, 1 quads, 1 backdrop blur rects, 1 effect quads, \
         0 underlines, 0 mono, 0 subpixel, 0 poly, 0 surfaces"
    );
}

#[test]
fn buffers_grow_by_powers_of_two_up_to_the_limit() {
    let buffer = InstanceBuffer {
        element_size: 184,
        buffer_size: 64,
    };
    assert_eq!(buffer.update_buffer(64), BufferGrowth::Enough);
    assert_eq!(
        buffer.update_buffer(65),
        BufferGrowth::Grow { buffer_size: 128 }
    );
    let most = MAX_INSTANCE_BUFFER_SIZE / 184;
    assert_eq!(
        buffer.update_buffer(most),
        BufferGrowth::Grow { buffer_size: most }
    );
    assert_eq!(
        buffer.update_buffer(most + 1),
        BufferGrowth::TooLarge {
            required_size: (most as u128 + 1) * 184
        }
    );
    let bytes = InstanceBuffer {
        element_size: 1,
        buffer_size: 0,
    };
    assert_eq!(
        bytes.update_buffer(1),
        BufferGrowth::Grow { buffer_size: 1 }
    );
    assert_eq!(
        bytes.update_buffer(MAX_INSTANCE_BUFFER_SIZE),
        BufferGrowth::Grow {
            buffer_size: MAX_INSTANCE_BUFFER_SIZE
        }
    );
    assert!(buffer.draw_range(60, 4));
    assert!(!buffer.draw_range(60, 5));
    assert!(!buffer.draw_range(u32::MAX, u32::MAX));
    let desc = buffer.create_buffer();
    assert_eq!(desc.byte_width, 184 * 64);
    assert_eq!(desc.structure_byte_stride, 184);
    assert_eq!((desc.usage, desc.bind_flags), (2, 8));
    assert_eq!((desc.cpu_access_flags, desc.misc_flags), (0x10000, 64));
    let constants = create_constant_buffer(48);
    assert_eq!((constants.byte_width, constants.bind_flags), (48, 4));
    assert_eq!(
        buffer_too_large("quad_pipeline", 268435457),
        "quad_pipeline buffer needs 268435457 bytes, above the maximum of 268435456"
    );
    assert_eq!(
        range_too_large("quad_pipeline"),
        "DirectX instance range exceeds the quad_pipeline buffer"
    );
}

fn path(order: u32, bounds: Bounds<ScaledPixels>, vertices: usize) -> Path<ScaledPixels> {
    let at = Point {
        x: bounds.left,
        y: bounds.top,
    };
    Path {
        id: PathId(0),
        order,
        bounds,
        content_mask: everywhere(),
        vertices: vec![
            PathVertex {
                xy_position: at,
                st_position: Point {
                    x: Scalar(0),
                    y: Scalar(0)
                },
                content_mask: everywhere(),
            };
            vertices
        ],
        color: Default::default(),
        start: at,
        current: at,
        contour_count: 0,
    }
}

#[test]
fn paths_of_one_order_are_copied_one_by_one() {
    let paths = vec![
        path(3, rect(0., 0., 10., 10.), 3),
        path(3, rect(20., 0., 30., 10.), 6),
    ];
    let corners = draw_paths_to_intermediate(&paths);
    assert_eq!(corners.len(), 9);
    assert_eq!(corners[2].bounds, rect(0., 0., 10., 10.));
    assert_eq!(corners[3].bounds, rect(20., 0., 30., 10.));
    let sprites = draw_paths_from_intermediate(&paths);
    assert_eq!(sprites.len(), 2);
    assert_eq!(sprites[1].bounds, rect(20., 0., 30., 10.));
    assert!(draw_paths_from_intermediate(&[]).is_empty());
    assert!(draw_paths_to_intermediate(&[]).is_empty());
}

#[test]
fn paths_of_one_order_that_overlap_are_copied_at_once() {
    let paths = vec![
        path(3, rect(0., 0., 10., 10.), 0),
        path(3, rect(50., 0., 60., 10.), 0),
        path(3, rect(9., 9., 20., 20.), 0),
    ];
    let sprites = draw_paths_from_intermediate(&paths);
    assert_eq!(sprites.len(), 1);
    assert_eq!(sprites[0].bounds, rect(0., 0., 60., 20.));
    // Touching is not overlapping.
    let paths = vec![
        path(3, rect(0., 0., 10., 10.), 0),
        path(3, rect(10., 0., 20., 10.), 0),
    ];
    assert_eq!(draw_paths_from_intermediate(&paths).len(), 2);
}

#[test]
fn paths_of_several_orders_are_copied_at_once() {
    let paths = vec![
        path(3, rect(0., 0., 10., 10.), 0),
        path(4, rect(5., 5., 30., 12.), 0),
        path(5, rect(-7., 1., 2., 3.), 0),
    ];
    let sprites = draw_paths_from_intermediate(&paths);
    assert_eq!(sprites.len(), 1);
    assert_eq!(sprites[0].bounds, rect(-7., 0., 30., 12.));
}

#[test]
fn a_window_never_loses_its_extent() {
    let mut state = RendererState::new(false);
    let size = |width: i32, height: i32| Size {
        width: DevicePixels(width),
        height: DevicePixels(height),
    };
    assert!(!state.resize(size(0, -5)));
    assert!(state.resize(size(640, 480)));
    assert_eq!((state.width, state.height), (640, 480));
    assert!(!state.resize(size(640, 480)));
    assert!(state.resize(size(640, 0)));
    assert_eq!((state.width, state.height), (640, 1));
}

#[test]
fn the_frame_after_a_lost_device_is_skipped() {
    let mut state = RendererState::new(false);
    assert_eq!(
        state.draw(WindowBackgroundAppearance::Opaque),
        FramePlan::Draw(ClearColor::Full)
    );
    assert_eq!(
        state.draw(WindowBackgroundAppearance::Blurred),
        FramePlan::Draw(ClearColor::Empty)
    );
    let disable = state.begin_recovery();
    assert!(!disable);
    assert!(!state.has_devices && !state.has_resources && !state.has_composition);
    state.finish_recovery(disable);
    assert!(state.has_composition);
    assert_eq!(
        state.draw(WindowBackgroundAppearance::Opaque),
        FramePlan::Skip
    );
    state.mark_drawable();
    assert_eq!(
        state.draw(WindowBackgroundAppearance::Transparent),
        FramePlan::Draw(ClearColor::Empty)
    );
}

#[test]
fn a_failed_recovery_goes_on_without_composition() {
    let mut state = RendererState::new(false);
    assert!(!state.begin_recovery());
    assert!(state.begin_recovery());
}

#[test]
fn each_advisory_is_given_once() {
    let mut log = AdvisoryLog::new();
    assert!(log.effects_advisory("a"));
    assert!(log.effects_advisory("b"));
    assert!(!log.effects_advisory("a"));
    assert!(!log.effects_advisory("b"));
    assert!(log.effects_advisory(""));
    assert_eq!(log.seen.len(), 3);
}

#[test]
fn shaders_come_from_their_files() {
    let quad = build_shader_blob(ShaderModule::Quad, ShaderTarget::Vertex);
    assert_eq!(quad.directory, ShaderDirectory::Renderer);
    assert_eq!(quad.file, "src/shaders.hlsl");
    assert_eq!(quad.entry_point, "quad_vertex\0");
    assert_eq!(quad.profile, "vs_4_1\0");
    let emoji = build_shader_blob(ShaderModule::EmojiRasterization, ShaderTarget::Fragment);
    assert_eq!(emoji.file, "src/color_text_raster.hlsl");
    assert_eq!(emoji.entry_point, "emoji_rasterization_fragment\0");
    assert_eq!(emoji.profile, "ps_4_1\0");
    let noise = ShaderModule::Effect(EffectShader::Noise);
    let vertex = build_shader_blob(noise, ShaderTarget::Vertex);
    assert_eq!(vertex.file, "src/effects.hlsl");
    assert_eq!(vertex.entry_point, "effect_vertex\0");
    assert_eq!(vertex.profile, "vs_5_0\0");
    let fragment = build_shader_blob(noise, ShaderTarget::Fragment);
    assert_eq!(fragment.directory, ShaderDirectory::GeneratedEffects);
    assert_eq!(fragment.file, "noise.hlsl");
    assert_eq!(fragment.entry_point, "effect_fragment\0");
    assert_eq!(fragment.profile, "ps_5_0\0");
    assert_eq!(
        from_bytes(ShaderModule::BlurRect, ShaderTarget::Vertex),
        "BLUR_RECT_VERTEX_BYTES"
    );
    assert_eq!(from_bytes(noise, ShaderTarget::Vertex), "EFFECT_VERTEX_BYTES");
    assert_eq!(
        from_bytes(noise, ShaderTarget::Fragment),
        "EFFECT_NOISE_FRAGMENT_BYTES"
    );
}

#[test]
fn pipelines_blend_as_they_should() {
    let quad = CorePipeline::Quad.desc();
    assert_eq!((quad.label, quad.buffer_size), ("quad_pipeline", 64));
    assert_eq!(quad.blend, BlendMode::Over);
    assert_eq!(CorePipeline::BlurRect.desc().blend, BlendMode::Replace);
    assert_eq!(CorePipeline::BlurRect.desc().buffer_size, 8);
    assert_eq!(
        CorePipeline::SubpixelSprite.desc().module,
        ShaderModule::SubpixelSprite
    );
    let over = create_blend_state(BlendMode::Over);
    assert!(over.enable);
    assert_eq!((over.src_blend, over.dest_blend), (5, 6));
    assert_eq!((over.src_blend_alpha, over.dest_blend_alpha), (2, 6));
    assert_eq!(over.write_mask, 15);
    assert!(!create_blend_state(BlendMode::Replace).enable);
    let subpixel = create_blend_state(BlendMode::Subpixel);
    assert_eq!((subpixel.src_blend, subpixel.dest_blend), (16, 17));
    assert_eq!(subpixel.write_mask, 7);
    assert_eq!(create_blend_state(BlendMode::Premultiplied).src_blend, 2);
}

#[test]
fn effects_need_feature_level_eleven() {
    assert!(effects_to_build(0xA100).is_empty());
    assert_eq!(
        effects_to_build(0xB000),
        vec![EffectShader::Frost, EffectShader::Noise, EffectShader::Glow]
    );
    assert_eq!(EffectShader::Frost.blend(), BlendMode::Replace);
    assert_eq!(EffectShader::Glow.blend(), BlendMode::Over);
    assert_eq!(EffectShader::Glow.pipeline_label(), "effect_glow_pipeline");
    assert!(effects_unsupported().contains("feature level 11_0"));
    assert_eq!(
        effect_unavailable(EffectShader::Frost, "no file"),
        "`--shading: frost(…)` is unavailable — its pipeline failed to build: no file"
    );
}

#[test]
fn targets_have_the_format_of_the_colour_atlas() {
    let msaa = targets::create_path_intermediate_msaa_texture(640, 480);
    assert_eq!((msaa.width, msaa.height, msaa.format), (640, 480, 87));
    assert_eq!((msaa.sample_count, msaa.sample_quality), (4, u32::MAX));
    assert_eq!(msaa.bind_flags, 32);
    assert_eq!(
        targets::create_path_intermediate_texture(2, 3).bind_flags,
        40
    );
    assert_eq!(targets::create_blur_snapshot_texture(2, 3).bind_flags, 8);
    assert_eq!(targets::create_blur_texture(2, 3).bind_flags, 40);
    let composed = targets::create_swap_chain_for_composition(2, 3);
    assert_eq!((composed.scaling, composed.alpha_mode), (0, 1));
    assert_eq!((composed.buffer_count, composed.swap_effect), (3, 3));
    let plain = targets::create_swap_chain(2, 3);
    assert_eq!((plain.scaling, plain.alpha_mode), (1, 3));
}

#[test]
fn a_frame_draws_every_batch_in_order() {
    let built = vec![true, true, true];
    let mut scene = Scene::default();
    for place in [0., 5., 100.] {
        scene.insert_primitive(Quad {
            bounds: rect(place, 0., place + 10., 10.),
            content_mask: everywhere(),
            ..Quad::default()
        });
        scene.insert_primitive(blur(rect(place, 0., place + 10., 10.), 8.));
    }
    scene.finish();
    let mut state = RendererState::new(false);
    let frame = draw_frame(&state, &scene, WindowBackgroundAppearance::Opaque, &built).unwrap();
    assert_eq!(frame.clear, ClearColor::Full);
    assert_eq!(
        frame.uploads,
        vec![BufferUpload::Quads, BufferUpload::BackdropBlurRects]
    );
    let labels: Vec<String> = frame.draws.iter().map(|draw| draw.batch.label()).collect();
    assert_eq!(
        labels,
        vec![
            "quads (2)",
            "backdrop blur rects (2)",
            "quads (1)",
            "backdrop blur rects (1)",
        ]
    );
    assert!(matches!(
        frame.draws[0].plan,
        BatchPlan::Instances {
            pipeline: InstancePipeline::Quads,
            texture: None,
            first: 0,
            count: 2,
        }
    ));
    assert!(matches!(&frame.draws[3].plan, BatchPlan::Blur(steps)
        if composites(steps) == vec![(2, 1, true)]));
    let frame = draw_frame(&state, &scene, WindowBackgroundAppearance::Blurred, &built).unwrap();
    assert_eq!(frame.clear, ClearColor::Empty);
    state.finish_recovery(false);
    assert!(draw_frame(&state, &scene, WindowBackgroundAppearance::Opaque, &built).is_none());
}

#[test]
fn the_pipelines_are_created_in_order() {
    let labels: Vec<&str> = CorePipeline::all()
        .into_iter()
        .map(|pipeline| pipeline.desc().label)
        .collect();
    assert_eq!(
        labels,
        vec![
            "shadow_pipeline",
            "quad_pipeline",
            "blur_downsample_pipeline",
            "blur_upsample_pipeline",
            "blur_rect_pipeline",
            "path_rasterization_pipeline",
            "path_sprite_pipeline",
            "underline_pipeline",
            "monochrome_sprite_pipeline",
            "subpixel_sprite_pipeline",
            "polychrome_sprite_pipeline",
        ]
    );
}
