use gpui_scene::effect::{
    BackdropBlurRect, EffectQuad, EffectSpec, EFFECT_FLAG_NEEDS_BACKDROP,
};
use gpui_scene::effect_id;
use gpui_scene::geometry::{Bounds, Point};
use gpui_scene::path::Path;
use gpui_scene::primitives::{BorderStyle, PaddedBool32, Quad};
use gpui_scene::scalar::{Pixels, Scalar, ScaledPixels};
use gpui_scene::transform::{
    Interpolation, TransformLength, TransformSpec, TransformationMatrix,
};

fn scalar(value: f32) -> Scalar {
    Scalar::from_bits(value.to_bits())
}

fn float(value: Scalar) -> f32 {
    f32::from_bits(value.to_bits())
}

fn point(x: f32, y: f32) -> Point<Pixels> {
    Point {
        x: Pixels(scalar(x)),
        y: Pixels(scalar(y)),
    }
}

#[test]
fn scalars_keep_their_bits_and_their_order() {
    let values = [
        f32::NEG_INFINITY,
        f32::MIN,
        -1.5,
        -1.0,
        -f32::MIN_POSITIVE,
        -1e-45,
        0.0,
        1e-45,
        0.5,
        1.0,
        20.0,
        f32::MAX,
        f32::INFINITY,
    ];
    for (i, a) in values.iter().enumerate() {
        assert_eq!(float(scalar(*a)), *a);
        assert!(!scalar(*a).is_nan());
        for b in &values[i + 1..] {
            assert!(scalar(*a).0 < scalar(*b).0);
        }
    }
    assert_eq!(scalar(-0.0).0, 0);
    assert!(scalar(f32::NAN).is_nan());
    assert!(scalar(-f32::NAN).is_nan());
    assert_eq!(float(scalar(-3.0).max_zero()), 0.0);
    assert_eq!(float(scalar(3.0).max_zero()), 3.0);
    assert_eq!(float(scalar(f32::NAN).max_zero()), 0.0);
}

fn levels(radius: f32) -> u32 {
    if radius <= 0. {
        0
    } else {
        ((radius / 5.).ceil().max(1.) as u32).min(5)
    }
}

#[test]
fn kernel_levels_are_one_for_five_pixels() {
    let mut radii = vec![
        f32::NAN,
        -f32::NAN,
        f32::INFINITY,
        f32::NEG_INFINITY,
        -1.0,
        -0.0,
        0.0,
        1e-45,
        3.0,
        f32::MAX,
    ];
    for whole in 1..=30 {
        let bits = (whole as f32).to_bits();
        for offset in 0..9u32 {
            radii.push(f32::from_bits(bits + offset - 4));
        }
    }
    for radius in radii {
        let rect = BackdropBlurRect {
            blur_radius: ScaledPixels(scalar(radius)),
            ..BackdropBlurRect::default()
        };
        assert_eq!(rect.effective_kernel_levels(), levels(radius), "{radius}");
        let mut quad = EffectQuad {
            backdrop_blur_radius: ScaledPixels(scalar(radius)),
            flags: EFFECT_FLAG_NEEDS_BACKDROP | 6,
            ..EffectQuad::default()
        };
        assert!(quad.needs_backdrop());
        assert_eq!(quad.effective_kernel_levels(), levels(radius), "{radius}");
        quad.flags = 6;
        assert!(!quad.needs_backdrop());
        assert_eq!(quad.effective_kernel_levels(), 0);
    }
}

#[test]
fn defaults_are_blank() {
    let rect = BackdropBlurRect::default();
    assert_eq!(float(rect.opacity), 1.0);
    assert_eq!(rect.order, 0);
    let quad = Quad::default();
    assert_eq!(quad.border_style, BorderStyle::Solid);
    assert!(quad.transformation.is_unit());
    assert_eq!(quad.background.words, [0; 18]);
    assert_eq!(EffectQuad::default().flags, 0);
    assert_eq!(BorderStyle::default().to_word(), 0);
    assert_eq!(BorderStyle::Dashed.to_word(), 1);
}

#[test]
fn a_padded_bool_is_a_word() {
    assert_eq!(PaddedBool32::from(true).to_word(), 1);
    assert_eq!(PaddedBool32::from(false).to_word(), 0);
    assert_eq!(PaddedBool32::default().to_word(), 0);
}

#[test]
fn equal_values_compare_equal() {
    assert_eq!(PaddedBool32::from(true), PaddedBool32::from(true));
    assert_ne!(PaddedBool32::from(true), PaddedBool32::default());
    let mut matrix = TransformationMatrix::unit();
    assert_eq!(matrix, TransformationMatrix::unit());
    matrix.rotation_scale[1][0] = scalar(0.5);
    assert_ne!(matrix, TransformationMatrix::unit());
    let mut spec = EffectSpec::none();
    assert_eq!(spec, EffectSpec::none());
    spec.params[7] = scalar(1.);
    assert_ne!(spec, EffectSpec::none());
}

#[test]
fn effect_parameters_are_picked_and_clamped() {
    let none = EffectSpec::none();
    assert!(!none.is_some());
    assert_eq!(float(none.bleed()), 0.0);
    let mut spec = EffectSpec::none();
    spec.id = effect_id::GLOW;
    spec.params[3] = scalar(12.5);
    spec.params[7] = scalar(-4.0);
    spec.bleed_param = Some(3);
    spec.backdrop_radius_param = Some(7);
    assert!(spec.is_some());
    assert_eq!(float(spec.bleed()), 12.5);
    assert_eq!(float(spec.backdrop_blur_radius()), 0.0);
    spec.bleed_param = Some(8);
    assert_eq!(float(spec.bleed()), 0.0);
    spec.bleed_param = None;
    assert_eq!(float(spec.bleed()), 0.0);
    spec.params[0] = scalar(f32::NAN);
    spec.bleed_param = Some(0);
    assert_eq!(float(spec.bleed()), 0.0);
}

#[test]
fn transforms_know_their_identity() {
    let mut spec = TransformSpec::default();
    assert!(spec.is_identity());
    spec.origin = (
        TransformLength::Pixels(scalar(3.0)),
        TransformLength::zero(),
    );
    assert!(spec.is_identity());
    spec.translate.1 = TransformLength::Fraction(scalar(-0.0));
    assert!(spec.is_identity());
    spec.translate.1 = TransformLength::Fraction(scalar(0.25));
    assert!(!spec.is_identity());
    let mut scaled = TransformSpec::identity();
    scaled.scale.1 = scalar(2.0);
    assert!(!scaled.is_identity());
    let mut turned = TransformSpec::identity();
    turned.rotate = scalar(f32::NAN);
    assert!(!turned.is_identity());
    assert_eq!(
        TransformSpec::centre_origin().0,
        TransformLength::Fraction(scalar(0.5))
    );
}

#[test]
fn interpolation_snaps_only_between_units() {
    let px = |v: f32| TransformLength::Pixels(scalar(v));
    let fr = |v: f32| TransformLength::Fraction(scalar(v));
    let half = scalar(0.5);
    let early = scalar(0.49);
    assert_eq!(
        px(1.).interpolate(px(3.), half),
        Interpolation::Pixels(scalar(1.), scalar(3.))
    );
    assert_eq!(
        fr(1.).interpolate(fr(3.), half),
        Interpolation::Fraction(scalar(1.), scalar(3.))
    );
    assert_eq!(
        px(0.).interpolate(fr(3.), half),
        Interpolation::Fraction(scalar(0.), scalar(3.))
    );
    assert_eq!(
        px(2.).interpolate(fr(0.), half),
        Interpolation::Pixels(scalar(2.), scalar(0.))
    );
    assert_eq!(
        fr(0.).interpolate(px(3.), half),
        Interpolation::Pixels(scalar(0.), scalar(3.))
    );
    assert_eq!(
        px(2.).interpolate(fr(3.), early),
        Interpolation::Snap(px(2.))
    );
    assert_eq!(px(2.).interpolate(fr(3.), half), Interpolation::Snap(fr(3.)));
    assert_eq!(
        px(2.).interpolate(fr(3.), scalar(-f32::NAN)),
        Interpolation::Snap(fr(3.))
    );
    let plan = TransformSpec::identity().interpolate(
        TransformSpec {
            rotate: scalar(2.),
            ..TransformSpec::identity()
        },
        half,
    );
    assert_eq!(plan.rotate, (scalar(0.), scalar(2.)));
    assert_eq!(plan.scale.0, (scalar(1.), scalar(1.)));
    assert_eq!(
        plan.origin.0,
        Interpolation::Fraction(scalar(0.5), scalar(0.5))
    );
}

#[test]
fn only_the_unit_matrix_is_unit() {
    let mut matrix = TransformationMatrix::default();
    assert!(matrix.is_unit());
    matrix.rotation_scale[0][1] = scalar(-0.0);
    assert!(matrix.is_unit());
    matrix.translation[1] = scalar(1e-30);
    assert!(!matrix.is_unit());
}

#[test]
fn a_path_fans_out_from_its_start() {
    let mut path = Path::new(point(0., 0.));
    assert_eq!(path.bounds.left, path.bounds.right);
    path.line_to(point(10., 0.));
    assert!(path.vertices.is_empty());
    path.line_to(point(10., 10.));
    assert_eq!(path.vertices.len(), 3);
    assert_eq!(path.vertices[0].xy_position, point(0., 0.));
    assert_eq!(path.vertices[1].xy_position, point(10., 0.));
    assert_eq!(path.vertices[2].xy_position, point(10., 10.));
    assert_eq!(float(path.vertices[0].st_position.x), 0.0);
    assert_eq!(float(path.vertices[0].st_position.y), 1.0);
    path.curve_to(point(-5., 3.), point(20., 30.));
    assert_eq!(path.vertices.len(), 9);
    assert_eq!(float(path.vertices[7].st_position.x), 0.5);
    assert_eq!(float(path.vertices[7].st_position.y), 0.0);
    assert_eq!(float(path.vertices[8].st_position.x), 1.0);
    assert_eq!(float(path.vertices[8].st_position.y), 1.0);
    assert_eq!(float(path.bounds.left.0), -5.0);
    assert_eq!(float(path.bounds.right.0), 20.0);
    assert_eq!(float(path.bounds.top.0), 0.0);
    assert_eq!(float(path.bounds.bottom.0), 30.0);
    path.move_to(point(100., 100.));
    assert_eq!(path.contour_count, 4);
    assert_eq!(path.start, point(100., 100.));
    assert_eq!(path.vertices.len(), 9);
    let copy = path.clone();
    assert_eq!(copy.vertices.len(), 9);
    assert_eq!(copy.current, path.current);
}

#[test]
fn clipping_is_intersecting() {
    let bounds = |l: f32, t: f32, r: f32, b: f32| Bounds {
        left: Pixels(scalar(l)),
        top: Pixels(scalar(t)),
        right: Pixels(scalar(r)),
        bottom: Pixels(scalar(b)),
        extent: None,
    };
    let mut path = Path::new(point(0., 0.));
    path.push_triangle(
        (point(0., 0.), point(10., 0.), point(0., 10.)),
        (
            Point {
                x: scalar(0.),
                y: scalar(0.),
            },
            Point {
                x: scalar(0.),
                y: scalar(0.),
            },
            Point {
                x: scalar(0.),
                y: scalar(0.),
            },
        ),
    );
    path.content_mask.bounds = bounds(5., 2., 50., 8.);
    assert_eq!(path.clipped_bounds(), bounds(5., 2., 10., 8.));
    path.content_mask.bounds = bounds(20., 2., 50., 8.);
    assert!(path.clipped_bounds().is_empty());
    let a = bounds(0., 0., 10., 10.);
    assert!(a.intersects(&bounds(9., 9., 20., 20.)));
    assert!(!a.intersects(&bounds(10., 0., 20., 10.)));
    assert_eq!(a.union(&bounds(-1., 5., 3., 12.)), bounds(-1., 0., 10., 12.));
}
