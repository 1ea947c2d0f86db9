use gpui_scene::batch::PrimitiveBatch;
use gpui_scene::effect::{BackdropBlurRect, EffectQuad, EFFECT_FLAG_NEEDS_BACKDROP};
use gpui_scene::effect_id;
use gpui_scene::geometry::{Bounds, ContentMask, DeviceBounds, DevicePixels, Point, Size};
use gpui_scene::paint::Hsla;
use gpui_scene::path::Path;
use gpui_scene::primitives::{MonochromeSprite, PaintSurface, Primitive, Quad, Underline};
use gpui_scene::scalar::{Pixels, Scalar, ScaledPixels};
use gpui_scene::scene::Scene;
use gpui_scene::tile::{AtlasTextureId, AtlasTextureKind, AtlasTile, TileId};
use gpui_scene::transform::TransformationMatrix;

fn scaled(value: f32) -> ScaledPixels {
    ScaledPixels(Scalar::from_bits(value.to_bits()))
}

fn pixels(value: f32) -> Pixels {
    Pixels(Scalar::from_bits(value.to_bits()))
}

fn rect(left: f32, top: f32, right: f32, bottom: f32) -> Bounds<ScaledPixels> {
    Bounds {
        left: scaled(left),
        top: scaled(top),
        right: scaled(right),
        bottom: scaled(bottom),
        extent: None,
    }
}

fn everywhere() -> ContentMask<ScaledPixels> {
    ContentMask {
        bounds: rect(-10000., -10000., 10000., 10000.),
    }
}

fn quad(bounds: Bounds<ScaledPixels>) -> Quad {
    Quad {
        bounds,
        content_mask: everywhere(),
        ..Quad::default()
    }
}

fn blur(bounds: Bounds<ScaledPixels>) -> BackdropBlurRect {
    BackdropBlurRect {
        bounds,
        content_mask: everywhere(),
        blur_radius: scaled(8.),
        ..BackdropBlurRect::default()
    }
}

fn effect(bounds: Bounds<ScaledPixels>, effect_id: u32, flags: u32) -> EffectQuad {
    EffectQuad {
        bounds,
        content_mask: everywhere(),
        effect_id,
        flags,
        ..EffectQuad::default()
    }
}

fn sprite(bounds: Bounds<ScaledPixels>, texture: u32, tile: u32) -> MonochromeSprite {
    MonochromeSprite {
        order: 0,
        pad: 0,
        bounds,
        content_mask: everywhere(),
        color: Hsla::default(),
        tile: AtlasTile {
            texture_id: AtlasTextureId {
                index: texture,
                kind: AtlasTextureKind::Monochrome,
            },
            tile_id: TileId(tile),
            padding: 0,
            bounds: DeviceBounds {
                origin: Point {
                    x: DevicePixels(0),
                    y: DevicePixels(0),
                },
                size: Size {
                    width: DevicePixels(1),
                    height: DevicePixels(1),
                },
            },
        },
        transformation: TransformationMatrix::unit(),
    }
}

fn labels(scene: &Scene) -> Vec<String> {
    let mut batches = scene.batches();
    let mut labels = Vec::new();
    while let Some(batch) = batches.next() {
        labels.push(batch.label());
    }
    assert!(batches.next().is_none());
    labels
}

#[test]
fn overlapping_quads_stack_and_disjoint_ones_share_an_order() {
    let mut scene = Scene::default();
    scene.insert_primitive(quad(rect(0., 0., 10., 10.)));
    scene.insert_primitive(quad(rect(5., 5., 15., 15.)));
    scene.insert_primitive(quad(rect(100., 100., 110., 110.)));
    scene.insert_primitive(quad(rect(8., 8., 9., 9.)));
    let orders: Vec<u32> = scene.quads.iter().map(|q| q.order).collect();
    assert_eq!(orders, vec![1, 2, 1, 3]);
    assert_eq!(scene.len(), 4);
}

#[test]
fn touching_quads_do_not_overlap() {
    let mut scene = Scene::default();
    scene.insert_primitive(quad(rect(0., 0., 10., 10.)));
    scene.insert_primitive(quad(rect(10., 0., 20., 10.)));
    assert_eq!(scene.quads[1].order, 1);
}

#[test]
fn what_is_clipped_away_is_not_recorded() {
    let mut scene = Scene::default();
    scene.insert_primitive(quad(rect(0., 0., 0., 10.)));
    scene.insert_primitive(Quad {
        content_mask: ContentMask {
            bounds: rect(20., 20., 30., 30.),
        },
        ..quad(rect(0., 0., 10., 10.))
    });
    assert_eq!(scene.len(), 0);
    assert!(scene.quads.is_empty());
}

#[test]
fn primitives_in_a_layer_take_its_order() {
    let mut scene = Scene::default();
    scene.insert_primitive(quad(rect(0., 0., 10., 10.)));
    scene.push_layer(rect(0., 0., 100., 100.));
    scene.insert_primitive(quad(rect(0., 0., 10., 10.)));
    scene.insert_primitive(quad(rect(0., 0., 10., 10.)));
    scene.pop_layer();
    scene.insert_primitive(quad(rect(0., 0., 10., 10.)));
    let orders: Vec<u32> = scene.quads.iter().map(|q| q.order).collect();
    assert_eq!(orders, vec![1, 2, 2, 3]);
    assert_eq!(scene.len(), 6);
}

#[test]
fn a_blur_lifts_every_open_layer() {
    let mut scene = Scene::default();
    scene.push_layer(rect(0., 0., 100., 100.));
    scene.push_layer(rect(10., 10., 20., 20.));
    scene.insert_primitive(quad(rect(10., 10., 20., 20.)));
    scene.insert_primitive(blur(rect(10., 10., 20., 20.)));
    scene.insert_primitive(quad(rect(10., 10., 20., 20.)));
    scene.pop_layer();
    scene.insert_primitive(quad(rect(10., 10., 20., 20.)));
    scene.pop_layer();
    let blur_order = scene.backdrop_blur_rects[0].order;
    assert_eq!(blur_order, 3);
    let orders: Vec<u32> = scene.quads.iter().map(|q| q.order).collect();
    assert_eq!(orders, vec![2, 4, 4]);
}

#[test]
fn a_layer_opened_after_a_blur_never_sinks_below_it() {
    let mut scene = Scene::default();
    scene.insert_primitive(blur(rect(0., 0., 10., 10.)));
    // The layer does not overlap the blur, but one of its children does.
    scene.push_layer(rect(500., 500., 510., 510.));
    scene.insert_primitive(quad(rect(0., 0., 10., 10.)));
    scene.pop_layer();
    assert_eq!(scene.backdrop_blur_rects[0].order, 1);
    assert_eq!(scene.quads[0].order, 2);
}

#[test]
fn only_effects_that_read_the_backdrop_lift_layers() {
    let mut scene = Scene::default();
    scene.push_layer(rect(0., 0., 100., 100.));
    scene.insert_primitive(effect(rect(0., 0., 10., 10.), effect_id::NOISE, 0));
    scene.insert_primitive(quad(rect(0., 0., 10., 10.)));
    scene.insert_primitive(effect(
        rect(0., 0., 10., 10.),
        effect_id::FROST,
        EFFECT_FLAG_NEEDS_BACKDROP,
    ));
    scene.insert_primitive(quad(rect(0., 0., 10., 10.)));
    assert_eq!(scene.effect_quads[0].order, 1);
    assert_eq!(scene.effect_quads[1].order, 2);
    assert_eq!(scene.quads[0].order, 1);
    assert_eq!(scene.quads[1].order, 3);
}

#[test]
fn closing_a_layer_that_is_not_open_is_recorded() {
    let mut scene = Scene::default();
    scene.pop_layer();
    assert_eq!(scene.len(), 1);
    scene.clear();
    assert_eq!(scene.len(), 0);
}

fn paint_something(scene: &mut Scene) {
    scene.insert_primitive(quad(rect(0., 0., 10., 10.)));
    scene.push_layer(rect(0., 0., 50., 50.));
    scene.insert_primitive(sprite(rect(1., 1., 9., 9.), 0, 7));
    scene.insert_primitive(blur(rect(2., 2., 8., 8.)));
    let mut path = Path::new(Point {
        x: pixels(0.),
        y: pixels(0.),
    });
    path.line_to(Point {
        x: pixels(5.),
        y: pixels(0.),
    });
    path.line_to(Point {
        x: pixels(5.),
        y: pixels(5.),
    });
    scene.insert_primitive(sprite(rect(3., 3., 4., 4.), 0, 2));
    scene.pop_layer();
    scene.insert_primitive(effect(rect(0., 0., 5., 5.), effect_id::GLOW, 0));
    scene.insert_primitive(PaintSurface {
        order: 99,
        bounds: rect(0., 0., 3., 3.),
        content_mask: everywhere(),
    });
}

#[test]
fn replaying_a_finished_scene_rebuilds_it() {
    let mut first = Scene::default();
    paint_something(&mut first);
    first.finish();

    let mut second = Scene::default();
    second.insert_primitive(quad(rect(7., 7., 9., 9.)));
    second.clear();
    second.replay(0..first.len(), &first);
    second.finish();

    assert_eq!(second.len(), first.len());
    assert_eq!(labels(&second), labels(&first));
    let orders = |scene: &Scene| -> Vec<(u32, u32)> {
        scene
            .monochrome_sprites
            .iter()
            .map(|s| (s.order, s.tile.tile_id.0))
            .collect()
    };
    assert_eq!(orders(&second), orders(&first));
    assert_eq!(second.surfaces[0].order, first.surfaces[0].order);
    assert_eq!(second.effect_quads[0].order, first.effect_quads[0].order);
}

#[test]
fn replaying_in_parts_is_replaying_whole() {
    let mut first = Scene::default();
    paint_something(&mut first);
    let mut whole = Scene::default();
    whole.replay(0..first.len(), &first);
    let mut parts = Scene::default();
    parts.replay(0..3, &first);
    parts.replay(3..3, &first);
    parts.replay(3..first.len(), &first);
    whole.finish();
    parts.finish();
    assert_eq!(labels(&parts), labels(&whole));
}

#[test]
fn batches_follow_the_draw_order_and_then_the_kind() {
    let mut scene = Scene::default();
    scene.insert_primitive(quad(rect(0., 0., 10., 10.)));
    scene.insert_primitive(sprite(rect(0., 0., 10., 10.), 0, 1));
    scene.insert_primitive(quad(rect(0., 0., 10., 10.)));
    scene.insert_primitive(quad(rect(100., 0., 110., 10.)));
    scene.insert_primitive(Underline {
        order: 0,
        pad: 0,
        bounds: rect(200., 0., 210., 10.),
        content_mask: everywhere(),
        color: Hsla::default(),
        thickness: scaled(1.),
        wavy: false.into(),
        transformation: TransformationMatrix::unit(),
    });
    scene.finish();
    assert_eq!(
        labels(&scene),
        vec![
            "quads (2)",
            "underlines (1)",
            "monochrome sprites (1) on atlas 0",
            "quads (1)",
        ]
    );
}

#[test]
fn one_kind_after_another_needs_no_break_in_between() {
    let mut scene = Scene::default();
    for i in 0..5 {
        let x = 20. * i as f32;
        scene.insert_primitive(quad(rect(x, 0., x + 10., 10.)));
        scene.insert_primitive(quad(rect(x, 0., x + 10., 10.)));
    }
    scene.finish();
    assert_eq!(labels(&scene), vec!["quads (10)"]);
}

#[test]
fn sprites_break_on_the_texture_and_effects_on_the_effect() {
    let mut scene = Scene::default();
    for (i, texture) in [0u32, 1, 0, 1].iter().enumerate() {
        let x = 20. * i as f32;
        scene.insert_primitive(sprite(rect(x, 0., x + 10., 10.), *texture, i as u32));
    }
    for (i, id) in [2u32, 1, 2, 1].iter().enumerate() {
        let x = 20. * i as f32;
        scene.insert_primitive(effect(rect(x, 50., x + 10., 60.), *id, 0));
    }
    scene.finish();
    assert_eq!(
        labels(&scene),
        vec![
            "effect quads (2) with effect 1",
            "effect quads (2) with effect 2",
            "monochrome sprites (1) on atlas 0",
            "monochrome sprites (1) on atlas 1",
            "monochrome sprites (1) on atlas 0",
            "monochrome sprites (1) on atlas 1",
        ]
    );
}

#[test]
fn batches_cover_every_primitive_once() {
    let mut scene = Scene::default();
    paint_something(&mut scene);
    for i in 0..30 {
        let x = 3. * i as f32;
        scene.insert_primitive(quad(rect(x, 0., x + 7., 10.)));
        scene.insert_primitive(sprite(rect(x, 0., x + 5., 5.), i % 3, i));
    }
    scene.finish();
    let mut quads = 0;
    let mut sprites = 0;
    let mut last = (0u32, 0u32);
    let mut batches = scene.batches();
    while let Some(batch) = batches.next() {
        match batch {
            PrimitiveBatch::Quads(range) => {
                assert_eq!(range.start, quads);
                quads = range.end;
                for q in &scene.quads[range] {
                    assert!(last <= (q.order, 1));
                    last = (q.order, 1);
                }
            }
            PrimitiveBatch::MonochromeSprites { texture_id, range } => {
                assert_eq!(range.start, sprites);
                sprites = range.end;
                for s in &scene.monochrome_sprites[range] {
                    assert_eq!(s.tile.texture_id, texture_id);
                    assert!(last <= (s.order, 6));
                    last = (s.order, 6);
                }
            }
            _ => {}
        }
    }
    assert_eq!(quads, scene.quads.len());
    assert_eq!(sprites, scene.monochrome_sprites.len());
}

#[test]
fn labels_name_the_batch() {
    let texture_id = AtlasTextureId {
        index: 4294967295,
        kind: AtlasTextureKind::Subpixel,
    };
    assert_eq!(PrimitiveBatch::Shadows(0..0).label(), "shadows (0)");
    assert_eq!(PrimitiveBatch::Quads(5..3).label(), "quads (0)");
    assert_eq!(
        PrimitiveBatch::BackdropBlurRects(1..11).label(),
        "backdrop blur rects (10)"
    );
    assert_eq!(
        PrimitiveBatch::EffectQuads {
            effect_id: 2,
            range: 0..100
        }
        .label(),
        "effect quads (100) with effect 2"
    );
    assert_eq!(PrimitiveBatch::Paths(0..7).label(), "paths (7)");
    assert_eq!(PrimitiveBatch::Underlines(3..5).label(), "underlines (2)");
    assert_eq!(
        PrimitiveBatch::SubpixelSprites {
            texture_id,
            range: 0..1
        }
        .label(),
        "subpixel sprites (1) on atlas 4294967295"
    );
    assert_eq!(
        PrimitiveBatch::PolychromeSprites {
            texture_id,
            range: 0..9
        }
        .label(),
        "polychrome sprites (9) on atlas 4294967295"
    );
    assert_eq!(PrimitiveBatch::Surfaces(0..3).label(), "surfaces (3)");
}

#[test]
fn a_path_takes_its_place_as_its_name() {
    let path = |x: f32| Path {
        id: gpui_scene::path::PathId(77),
        order: 0,
        bounds: rect(x, 0., x + 5., 5.),
        content_mask: everywhere(),
        vertices: Vec::new(),
        color: Default::default(),
        start: Point {
            x: scaled(x),
            y: scaled(0.),
        },
        current: Point {
            x: scaled(x),
            y: scaled(0.),
        },
        contour_count: 1,
    };
    let mut scene = Scene::default();
    scene.insert_primitive(path(0.));
    scene.insert_primitive(path(2.));
    scene.insert(Primitive::Path(path(100.)));
    let seen: Vec<(usize, u32)> = scene.paths.iter().map(|p| (p.id.0, p.order)).collect();
    assert_eq!(seen, vec![(0, 1), (1, 2), (2, 1)]);
}

#[test]
fn finishing_keeps_the_painting_order_of_equals() {
    let mut scene = Scene::default();
    scene.insert_primitive(sprite(rect(0., 0., 1., 1.), 3, 9));
    scene.insert_primitive(sprite(rect(2., 0., 3., 1.), 1, 4));
    scene.insert_primitive(sprite(rect(4., 0., 5., 1.), 2, 9));
    scene.insert_primitive(sprite(rect(6., 0., 7., 1.), 0, 4));
    scene.finish();
    let seen: Vec<(u32, u32)> = scene
        .monochrome_sprites
        .iter()
        .map(|s| (s.tile.tile_id.0, s.tile.texture_id.index))
        .collect();
    assert_eq!(seen, vec![(4, 1), (4, 0), (9, 3), (9, 2)]);
}

#[test]
fn painting_over_a_closed_layer_goes_above_it() {
    let mut scene = Scene::default();
    scene.insert_primitive(quad(rect(0., 0., 10., 10.)));
    scene.push_layer(rect(0., 0., 100., 100.));
    scene.insert_primitive(quad(rect(90., 90., 95., 95.)));
    scene.pop_layer();
    // It overlaps the layer, though nothing that was painted in it.
    scene.insert_primitive(quad(rect(50., 50., 60., 60.)));
    scene.push_layer(rect(40., 40., 45., 45.));
    scene.insert_primitive(quad(rect(0., 0., 5., 5.)));
    scene.pop_layer();
    let orders: Vec<u32> = scene.quads.iter().map(|q| q.order).collect();
    assert_eq!(orders, vec![1, 2, 3, 3]);
}

#[test]
fn a_layer_that_a_blur_lifted_is_covered_at_its_new_order() {
    let mut scene = Scene::default();
    scene.push_layer(rect(0., 0., 100., 100.));
    scene.insert_primitive(blur(rect(200., 200., 210., 210.)));
    scene.insert_primitive(quad(rect(0., 0., 5., 5.)));
    scene.pop_layer();
    scene.insert_primitive(quad(rect(50., 50., 60., 60.)));
    assert_eq!(scene.backdrop_blur_rects[0].order, 2);
    assert_eq!(scene.quads[0].order, 3);
    assert_eq!(scene.quads[1].order, 4);
}

#[test]
fn a_blur_draws_after_what_a_closed_layer_holds() {
    let mut scene = Scene::default();
    scene.push_layer(rect(0., 0., 100., 100.));
    scene.push_layer(rect(0., 0., 100., 100.));
    scene.push_layer(rect(0., 0., 100., 100.));
    scene.insert_primitive(quad(rect(0., 0., 10., 10.)));
    scene.pop_layer();
    scene.pop_layer();
    scene.insert_primitive(blur(rect(0., 0., 10., 10.)));
    assert_eq!(scene.quads[0].order, 3);
    assert_eq!(scene.backdrop_blur_rects[0].order, 4);
    scene.insert_primitive(quad(rect(0., 0., 10., 10.)));
    assert_eq!(scene.quads[1].order, 5);
    scene.finish();
    assert_eq!(
        labels(&scene),
        vec!["quads (1)", "backdrop blur rects (1)", "quads (1)"]
    );
}

#[test]
fn a_backdrop_effect_in_a_layer_draws_after_everything_before_it() {
    let mut scene = Scene::default();
    for _ in 0..4 {
        scene.insert_primitive(sprite(rect(0., 0., 10., 10.), 0, 1));
    }
    // It is far from all of them, in a layer of its own.
    scene.push_layer(rect(500., 500., 510., 510.));
    scene.insert_primitive(effect(
        rect(500., 500., 510., 510.),
        effect_id::FROST,
        EFFECT_FLAG_NEEDS_BACKDROP,
    ));
    scene.pop_layer();
    assert_eq!(scene.monochrome_sprites[3].order, 4);
    assert_eq!(scene.effect_quads[0].order, 5);
    scene.clear();
    scene.push_layer(rect(0., 0., 10., 10.));
    scene.insert_primitive(blur(rect(0., 0., 10., 10.)));
    assert_eq!(scene.backdrop_blur_rects[0].order, 2);
}

#[test]
fn a_blur_outside_layers_goes_above_what_it_overlaps() {
    let mut scene = Scene::default();
    scene.insert_primitive(quad(rect(0., 0., 10., 10.)));
    scene.insert_primitive(quad(rect(0., 0., 10., 10.)));
    // Beside the two, and over them.
    scene.insert_primitive(blur(rect(50., 0., 60., 10.)));
    scene.insert_primitive(blur(rect(5., 5., 15., 15.)));
    let orders: Vec<u32> = scene.backdrop_blur_rects.iter().map(|b| b.order).collect();
    assert_eq!(orders, vec![1, 3]);
}

#[test]
fn a_blur_goes_above_what_hangs_out_of_a_closed_layer() {
    let mut scene = Scene::default();
    scene.push_layer(rect(0., 0., 10., 10.));
    scene.insert_primitive(sprite(rect(100., 100., 110., 110.), 0, 1));
    scene.pop_layer();
    // The blur is not over the layer, but over the sprite.
    scene.insert_primitive(blur(rect(100., 100., 110., 110.)));
    assert_eq!(scene.monochrome_sprites[0].order, 1);
    assert_eq!(scene.backdrop_blur_rects[0].order, 2);
    scene.finish();
    assert_eq!(
        labels(&scene),
        vec![
            "monochrome sprites (1) on atlas 0",
            "backdrop blur rects (1)"
        ]
    );
    scene.clear();
    scene.insert_primitive(blur(rect(100., 100., 110., 110.)));
    assert_eq!(scene.backdrop_blur_rects[0].order, 1);
}

#[test]
fn a_scene_that_was_not_finished_is_drawn_once_too() {
    let mut scene = Scene::default();
    scene.insert_primitive(quad(rect(0., 0., 10., 10.)));
    scene.insert_primitive(quad(rect(0., 0., 10., 10.)));
    scene.insert_primitive(sprite(rect(0., 0., 10., 10.), 1, 1));
    scene.insert_primitive(quad(rect(50., 0., 60., 10.)));
    scene.insert_primitive(sprite(rect(50., 0., 60., 10.), 1, 1));
    assert_eq!(
        labels(&scene),
        vec!["quads (3)", "monochrome sprites (2) on atlas 1"]
    );
}
