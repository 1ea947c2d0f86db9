//! What the renderer does to draw a scene: the buffers it uploads, and the
//! draws of each batch.

use crate::backdrop::{
    backdrop_steps, blur_items, draw_backdrop_blur_rects, effect_items, list_effect_items,
    plan_backdrop_items, BackdropStep,
};
use crate::batch::{first_positions, lane, lanes, BatchRun, PrimitiveBatch};
use crate::batch_laws::{lemma_batch_takes_some, lemma_left_is_natural, left, runs, within};
use crate::effect::{reads_backdrop, EffectQuad};
use crate::frame::{ClearColor, FramePlan, RendererState, WindowBackgroundAppearance};
use crate::scene::{Scene, SceneModel};
use crate::text::{decimal, push_decimal};
use crate::tile::AtlasTextureId;
use std::ops::Range;
use vstd::prelude::*;
use vstd::string::StringExecFns;

verus! {

/// A pipeline whose instances come straight from a list of the scene.
#[derive(Clone, Copy, Debug, PartialEq, Eq, Structural)]
pub enum InstancePipeline {
    Shadows,
    Quads,
    Underlines,
    MonochromeSprites,
    SubpixelSprites,
    PolychromeSprites,
}

/// A list of the scene to upload, and the buffer it goes to.
#[derive(Clone, Copy, Debug, PartialEq, Eq, Structural)]
pub enum BufferUpload {
    Shadows,
    Quads,
    BackdropBlurRects,
    /// The effect quads, to the buffer of the effect of this number.
    EffectQuads(usize),
    Underlines,
    MonochromeSprites,
    SubpixelSprites,
    PolychromeSprites,
}

/// How a run of effect quads is drawn.
#[derive(Debug)]
pub enum EffectPlan {
    /// Not at all: there are none, or their pipeline is missing.
    Skip,
    /// With one blended draw.
    Blend { first: usize, count: usize },
    /// Group by group, each over a snapshot.
    Backdrop(Vec<BackdropStep>),
}

/// How a batch is drawn.
#[derive(Debug)]
pub enum BatchPlan {
    /// Not at all.
    Skip,
    /// With one draw of instances, sampled from a texture or not.
    Instances {
        pipeline: InstancePipeline,
        texture: Option<AtlasTextureId>,
        first: usize,
        count: usize,
    },
    /// As backdrop blur rectangles.
    Blur(Vec<BackdropStep>),
    /// As quads of one effect.
    Effect { effect_id: u32, plan: EffectPlan },
    /// As paths: rasterised, then copied.
    Paths { start: usize, end: usize },
}

/// What an [`EffectPlan`] holds.
#[verifier::ext_equal]
pub enum EffectPlanModel {
    Skip,
    Blend { first: usize, count: usize },
    Backdrop(Seq<BackdropStep>),
}

/// What a [`BatchPlan`] holds.
#[verifier::ext_equal]
pub enum BatchPlanModel {
    Skip,
    Instances {
        pipeline: InstancePipeline,
        texture: Option<AtlasTextureId>,
        first: usize,
        count: usize,
    },
    Blur(Seq<BackdropStep>),
    Effect { effect_id: u32, plan: EffectPlanModel },
    Paths { start: usize, end: usize },
}

impl View for EffectPlan {
    type V = EffectPlanModel;

    open spec fn view(&self) -> EffectPlanModel {
        match *self {
            EffectPlan::Skip => EffectPlanModel::Skip,
            EffectPlan::Blend { first, count } => EffectPlanModel::Blend { first, count },
            EffectPlan::Backdrop(steps) => EffectPlanModel::Backdrop(steps@),
        }
    }
}

impl View for BatchPlan {
    type V = BatchPlanModel;

    open spec fn view(&self) -> BatchPlanModel {
        match *self {
            BatchPlan::Skip => BatchPlanModel::Skip,
            BatchPlan::Instances { pipeline, texture, first, count } => BatchPlanModel::Instances {
                pipeline,
                texture,
                first,
                count,
            },
            BatchPlan::Blur(steps) => BatchPlanModel::Blur(steps@),
            BatchPlan::Effect { effect_id, plan } => BatchPlanModel::Effect {
                effect_id,
                plan: plan@,
            },
            BatchPlan::Paths { start, end } => BatchPlanModel::Paths { start, end },
        }
    }
}

/// How effect quads of one effect are drawn, the first of which is instance
/// `first`, if `built` says which effects have a pipeline. Whether the first
/// one reads the backdrop decides for all.
pub open spec fn effect_plan(
    effect_id: u32,
    quads: Seq<EffectQuad>,
    first: int,
    built: Seq<bool>,
) -> EffectPlanModel {
    if quads.len() == 0 || effect_id >= built.len() || !built[effect_id as int] {
        EffectPlanModel::Skip
    } else if reads_backdrop(quads[0].flags) {
        EffectPlanModel::Backdrop(backdrop_steps(effect_items(quads), first))
    } else {
        EffectPlanModel::Blend { first: first as usize, count: quads.len() as usize }
    }
}

/// How effect quads of one effect are drawn, the first of which is instance
/// `first`. An effect without a pipeline is left out: everything else still
/// renders.
pub fn draw_effect_quads(
    effect_id: u32,
    quads: &[EffectQuad],
    first: usize,
    built: &Vec<bool>,
) -> (result: EffectPlan)
    requires
        first + quads.len() <= usize::MAX,
    ensures
        result@ == effect_plan(effect_id, quads@, first as int, built@),
{
    if quads.len() == 0 {
        return EffectPlan::Skip;
    }
    let place: usize = effect_id as usize;
    if place >= built.len() || !built[place] {
        return EffectPlan::Skip;
    }
    if !quads[0].needs_backdrop() {
        return EffectPlan::Blend { first, count: quads.len() };
    }
    let items = list_effect_items(quads);
    EffectPlan::Backdrop(plan_backdrop_items(&items, first))
}

/// The batch of a scene that lies within the scene's lists.
pub open spec fn batch_in_scene(scene: SceneModel, batch: PrimitiveBatch) -> bool {
    let run = batch.run();
    run.start <= run.end <= lane(scene, run.kind).len()
}

/// One draw of instances, and none for no instances.
pub open spec fn instances_plan(
    pipeline: InstancePipeline,
    texture: Option<AtlasTextureId>,
    range: Range<usize>,
) -> BatchPlanModel {
    if range.start >= range.end {
        BatchPlanModel::Skip
    } else {
        BatchPlanModel::Instances {
            pipeline,
            texture,
            first: range.start,
            count: (range.end - range.start) as usize,
        }
    }
}

/// How a batch of a scene is drawn. Surfaces are not painted here.
pub open spec fn batch_plan(
    scene: SceneModel,
    batch: PrimitiveBatch,
    built: Seq<bool>,
) -> BatchPlanModel {
    match batch {
        PrimitiveBatch::Shadows(range) => instances_plan(InstancePipeline::Shadows, None, range),
        PrimitiveBatch::Quads(range) => instances_plan(InstancePipeline::Quads, None, range),
        PrimitiveBatch::BackdropBlurRects(range) => BatchPlanModel::Blur(
            backdrop_steps(
                blur_items(
                    scene.backdrop_blur_rects.subrange(range.start as int, range.end as int),
                ),
                range.start as int,
            ),
        ),
        PrimitiveBatch::EffectQuads { effect_id, range } => BatchPlanModel::Effect {
            effect_id,
            plan: effect_plan(
                effect_id,
                scene.effect_quads.subrange(range.start as int, range.end as int),
                range.start as int,
                built,
            ),
        },
        PrimitiveBatch::Paths(range) => BatchPlanModel::Paths {
            start: range.start,
            end: range.end,
        },
        PrimitiveBatch::Underlines(range) => instances_plan(
            InstancePipeline::Underlines,
            None,
            range,
        ),
        PrimitiveBatch::MonochromeSprites { texture_id, range } => instances_plan(
            InstancePipeline::MonochromeSprites,
            Some(texture_id),
            range,
        ),
        PrimitiveBatch::SubpixelSprites { texture_id, range } => instances_plan(
            InstancePipeline::SubpixelSprites,
            Some(texture_id),
            range,
        ),
        PrimitiveBatch::PolychromeSprites { texture_id, range } => instances_plan(
            InstancePipeline::PolychromeSprites,
            Some(texture_id),
            range,
        ),
        PrimitiveBatch::Surfaces(range) => BatchPlanModel::Skip,
    }
}

fn plan_instances(
    pipeline: InstancePipeline,
    texture: Option<AtlasTextureId>,
    range: &Range<usize>,
) -> (result: BatchPlan)
    ensures
        result@ == instances_plan(pipeline, texture, *range),
{
    if range.start >= range.end {
        BatchPlan::Skip
    } else {
        BatchPlan::Instances {
            pipeline,
            texture,
            first: range.start,
            count: range.end - range.start,
        }
    }
}

/// How a batch of a scene is drawn, if `built` says which effects have a
/// pipeline.
pub fn draw_batch(scene: &Scene, batch: &PrimitiveBatch, built: &Vec<bool>) -> (result: BatchPlan)
    requires
        batch_in_scene(scene@, *batch),
    ensures
        result@ == batch_plan(scene@, *batch, built@),
{
    match batch {
        PrimitiveBatch::Shadows(range) => plan_instances(InstancePipeline::Shadows, None, range),
        PrimitiveBatch::Quads(range) => plan_instances(InstancePipeline::Quads, None, range),
        PrimitiveBatch::BackdropBlurRects(range) => {
            let rects = vstd::slice::slice_subrange(
                scene.backdrop_blur_rects.as_slice(),
                range.start,
                range.end,
            );
            BatchPlan::Blur(draw_backdrop_blur_rects(rects, range.start))
        },
        PrimitiveBatch::EffectQuads { effect_id, range } => {
            let quads = vstd::slice::slice_subrange(
                scene.effect_quads.as_slice(),
                range.start,
                range.end,
            );
            BatchPlan::Effect {
                effect_id: *effect_id,
                plan: draw_effect_quads(*effect_id, quads, range.start, built),
            }
        },
        PrimitiveBatch::Paths(range) => BatchPlan::Paths { start: range.start, end: range.end },
        PrimitiveBatch::Underlines(range) => plan_instances(
            InstancePipeline::Underlines,
            None,
            range,
        ),
        PrimitiveBatch::MonochromeSprites { texture_id, range } => plan_instances(
            InstancePipeline::MonochromeSprites,
            Some(*texture_id),
            range,
        ),
        PrimitiveBatch::SubpixelSprites { texture_id, range } => plan_instances(
            InstancePipeline::SubpixelSprites,
            Some(*texture_id),
            range,
        ),
        PrimitiveBatch::PolychromeSprites { texture_id, range } => plan_instances(
            InstancePipeline::PolychromeSprites,
            Some(*texture_id),
            range,
        ),
        PrimitiveBatch::Surfaces(_) => BatchPlan::Skip,
    }
}

/// Whether some quad has an effect.
pub open spec fn effect_used(quads: Seq<EffectQuad>, effect: int) -> bool {
    exists|i: int| 0 <= i < quads.len() && (#[trigger] quads[i]).effect_id == effect
}

/// The uploads of the effect quads for the first `count` effects: one to each
/// effect that has a pipeline and is used.
pub open spec fn effect_uploads(
    quads: Seq<EffectQuad>,
    built: Seq<bool>,
    count: nat,
) -> Seq<BufferUpload>
    decreases count,
{
    if count == 0 {
        Seq::empty()
    } else {
        let before = effect_uploads(quads, built, (count - 1) as nat);
        if built[count - 1] && effect_used(quads, count - 1) {
            before.push(BufferUpload::EffectQuads((count - 1) as usize))
        } else {
            before
        }
    }
}

/// An upload, if there is anything to upload.
pub open spec fn upload_if(needed: bool, upload: BufferUpload) -> Seq<BufferUpload> {
    if needed {
        seq![upload]
    } else {
        Seq::empty()
    }
}

/// The uploads that a scene takes, in order.
pub open spec fn scene_uploads(scene: SceneModel, built: Seq<bool>) -> Seq<BufferUpload> {
    upload_if(scene.shadows.len() > 0, BufferUpload::Shadows) + upload_if(
        scene.quads.len() > 0,
        BufferUpload::Quads,
    ) + upload_if(scene.backdrop_blur_rects.len() > 0, BufferUpload::BackdropBlurRects)
        + effect_uploads(scene.effect_quads, built, built.len()) + upload_if(
        scene.underlines.len() > 0,
        BufferUpload::Underlines,
    ) + upload_if(scene.monochrome_sprites.len() > 0, BufferUpload::MonochromeSprites) + upload_if(
        scene.subpixel_sprites.len() > 0,
        BufferUpload::SubpixelSprites,
    ) + upload_if(scene.polychrome_sprites.len() > 0, BufferUpload::PolychromeSprites)
}

fn uses_effect(quads: &Vec<EffectQuad>, effect: usize) -> (result: bool)
    ensures
        result == effect_used(quads@, effect as int),
{
    let mut index: usize = 0;
    while index < quads.len()
        invariant
            index <= quads.len(),
            forall|i: int| 0 <= i < index ==> (#[trigger] quads@[i]).effect_id != effect,
        decreases quads.len() - index,
    {
        if quads[index].effect_id as usize == effect {
            assert(quads@[index as int].effect_id == effect);
            return true;
        }
        index = index + 1;
    }
    false
}

fn push_if(uploads: &mut Vec<BufferUpload>, needed: bool, upload: BufferUpload)
    ensures
        final(uploads)@ == old(uploads)@ + upload_if(needed, upload),
{
    if needed {
        uploads.push(upload);
    }
    assert(uploads@ =~= old(uploads)@ + upload_if(needed, upload));
}

/// The uploads that a scene takes, if `built` says which effects have a
/// pipeline. All effects draw from one list, but each has a buffer of its own,
/// so the list goes to the effects in use and to no other.
pub fn upload_scene_buffers(scene: &Scene, built: &Vec<bool>) -> (result: Vec<BufferUpload>)
    ensures
        result@ == scene_uploads(scene@, built@),
{
    let mut uploads: Vec<BufferUpload> = Vec::new();
    push_if(&mut uploads, scene.shadows.len() > 0, BufferUpload::Shadows);
    push_if(&mut uploads, scene.quads.len() > 0, BufferUpload::Quads);
    push_if(
        &mut uploads,
        scene.backdrop_blur_rects.len() > 0,
        BufferUpload::BackdropBlurRects,
    );
    let ghost before = uploads@;
    let mut effect: usize = 0;
    assert(before + effect_uploads(scene@.effect_quads, built@, 0) =~= before);
    while effect < built.len()
        invariant
            effect <= built.len(),
            uploads@ == before + effect_uploads(scene@.effect_quads, built@, effect as nat),
        decreases built.len() - effect,
    {
        let needed = built[effect] && uses_effect(&scene.effect_quads, effect);
        if needed {
            uploads.push(BufferUpload::EffectQuads(effect));
        }
        effect = effect + 1;
        assert(uploads@ =~= before + effect_uploads(scene@.effect_quads, built@, effect as nat));
    }
    push_if(&mut uploads, scene.underlines.len() > 0, BufferUpload::Underlines);
    push_if(&mut uploads, scene.monochrome_sprites.len() > 0, BufferUpload::MonochromeSprites);
    push_if(&mut uploads, scene.subpixel_sprites.len() > 0, BufferUpload::SubpixelSprites);
    push_if(&mut uploads, scene.polychrome_sprites.len() > 0, BufferUpload::PolychromeSprites);
    assert(uploads@ =~= scene_uploads(scene@, built@));
    uploads
}

/// A batch of a scene, and how it is drawn.
#[derive(Debug)]
pub struct BatchDraw {
    pub batch: PrimitiveBatch,
    pub plan: BatchPlan,
}

/// All that is drawn in a frame.
#[derive(Debug)]
pub struct FrameDraw {
    /// The colour that the frame starts from.
    pub clear: ClearColor,
    /// What is uploaded before anything is drawn.
    pub uploads: Vec<BufferUpload>,
    /// What is drawn, in order.
    pub draws: Vec<BatchDraw>,
}

/// Whether these are the draws of some runs of a scene, one for each.
pub open spec fn draws_runs(
    scene: SceneModel,
    built: Seq<bool>,
    draws: Seq<BatchDraw>,
    runs: Seq<BatchRun>,
) -> bool {
    &&& draws.len() == runs.len()
    &&& forall|i: int|
        0 <= i < draws.len() ==> (#[trigger] draws[i]).batch.run() == runs[i] && draws[i].plan@
            == batch_plan(scene, draws[i].batch, built)
}

/// The draws of a scene, batch by batch, if `built` says which effects have a
/// pipeline.
pub fn draw_batches(scene: &Scene, built: &Vec<bool>) -> (result: Vec<BatchDraw>)
    ensures
        draws_runs(scene@, built@, result@, runs(lanes(scene@), first_positions())),
{
    let ghost lanes = lanes(scene@);
    let mut batches = scene.batches();
    let mut draws: Vec<BatchDraw> = Vec::new();
    let ghost mut done: Seq<BatchRun> = Seq::empty();
    let mut running = true;
    proof {
        assert(done + runs(lanes, first_positions()) =~= runs(lanes, first_positions()));
        lemma_left_is_natural(lanes, first_positions(), lanes.len());
    }
    while running
        invariant
            lanes == crate::batch::lanes(scene@),
            batches.scene() == scene@,
            within(lanes, batches.positions()),
            draws_runs(scene@, built@, draws@, done),
            running ==> done + runs(lanes, batches.positions()) == runs(lanes, first_positions()),
            !running ==> done == runs(lanes, first_positions()),
            left(lanes, batches.positions(), lanes.len()) >= 0,
        decreases
            left(lanes, batches.positions(), lanes.len()),
            (if running {
                1int
            } else {
                0int
            }),
    {
        let ghost before = batches.positions();
        proof {
            lemma_batch_takes_some(lanes, before);
        }
        match batches.next() {
            Some(batch) => {
                let plan = draw_batch(scene, &batch, built);
                proof {
                    let run = batch.run();
                    assert(runs(lanes, before) == seq![run] + runs(lanes, batches.positions()));
                    assert(done.push(run) + runs(lanes, batches.positions()) =~= done + runs(
                        lanes,
                        before,
                    ));
                    done = done.push(run);
                }
                draws.push(BatchDraw { batch, plan });
            },
            None => {
                assert(done + runs(lanes, before) =~= done);
                running = false;
            },
        }
    }
    draws
}

/// All that a renderer draws in a frame, or nothing where the frame is skipped:
/// the uploads of the scene's lists, and then its batches one after the other.
pub fn draw_frame(
    state: &RendererState,
    scene: &Scene,
    background_appearance: WindowBackgroundAppearance,
    built: &Vec<bool>,
) -> (result: Option<FrameDraw>)
    ensures
        result is None <==> state.skip_draws,
        result matches Some(frame) ==> {
            &&& frame.clear == (if background_appearance == WindowBackgroundAppearance::Opaque {
                ClearColor::Full
            } else {
                ClearColor::Empty
            })
            &&& frame.uploads@ == scene_uploads(scene@, built@)
            &&& draws_runs(
                scene@,
                built@,
                frame.draws@,
                runs(lanes(scene@), first_positions()),
            )
        },
{
    match state.draw(background_appearance) {
        FramePlan::Skip => None,
        FramePlan::Draw(clear) => Some(
            FrameDraw {
                clear,
                uploads: upload_scene_buffers(scene, built),
                draws: draw_batches(scene, built),
            },
        ),
    }
}

/// What is said of a scene that could not be drawn.
pub open spec fn scene_summary(scene: SceneModel) -> Seq<char> {
    "scene too large:"@ + decimal(scene.paths.len()) + " paths, "@ + decimal(scene.shadows.len())
        + " shadows, "@ + decimal(scene.quads.len()) + " quads, "@ + decimal(
        scene.backdrop_blur_rects.len(),
    ) + " backdrop blur rects, "@ + decimal(scene.effect_quads.len()) + " effect quads, "@
        + decimal(scene.underlines.len()) + " underlines, "@ + decimal(
        scene.monochrome_sprites.len(),
    ) + " mono, "@ + decimal(scene.subpixel_sprites.len()) + " subpixel, "@ + decimal(
        scene.polychrome_sprites.len(),
    ) + " poly, "@ + decimal(scene.surfaces.len()) + " surfaces"@
}

/// What is said of a scene that could not be drawn.
pub fn scene_too_large(scene: &Scene) -> (result: String)
    ensures
        result@ == scene_summary(scene@),
{
    let mut text = String::from_str("scene too large:");
    push_decimal(&mut text, scene.paths.len() as u64);
    text.append(" paths, ");
    push_decimal(&mut text, scene.shadows.len() as u64);
    text.append(" shadows, ");
    push_decimal(&mut text, scene.quads.len() as u64);
    text.append(" quads, ");
    push_decimal(&mut text, scene.backdrop_blur_rects.len() as u64);
    text.append(" backdrop blur rects, ");
    push_decimal(&mut text, scene.effect_quads.len() as u64);
    text.append(" effect quads, ");
    push_decimal(&mut text, scene.underlines.len() as u64);
    text.append(" underlines, ");
    push_decimal(&mut text, scene.monochrome_sprites.len() as u64);
    text.append(" mono, ");
    push_decimal(&mut text, scene.subpixel_sprites.len() as u64);
    text.append(" subpixel, ");
    push_decimal(&mut text, scene.polychrome_sprites.len() as u64);
    text.append(" poly, ");
    push_decimal(&mut text, scene.surfaces.len() as u64);
    text.append(" surfaces");
    text
}

/// Law: the effect quads are uploaded for an effect exactly if it has a
/// pipeline and some quad uses it.
pub proof fn lemma_effect_uploaded_iff_used(
    quads: Seq<EffectQuad>,
    built: Seq<bool>,
    count: nat,
    effect: usize,
)
    requires
        count <= built.len() <= usize::MAX,
    ensures
        effect_uploads(quads, built, count).contains(BufferUpload::EffectQuads(effect)) <==> effect
            < count && built[effect as int] && effect_used(quads, effect as int),
    decreases count,
{
    if count > 0 {
        let less = (count - 1) as nat;
        lemma_effect_uploaded_iff_used(quads, built, less, effect);
        let before = effect_uploads(quads, built, less);
        let after = effect_uploads(quads, built, count);
        let upload = BufferUpload::EffectQuads(effect);
        if before.contains(upload) {
            let n = choose|n: int| 0 <= n < before.len() && before[n] == upload;
            assert(after[n] == upload);
        }
        if effect == less && built[effect as int] && effect_used(quads, effect as int) {
            assert(after[before.len() as int] == upload);
        }
        if after.contains(upload) && !before.contains(upload) {
            let n = choose|n: int| 0 <= n < after.len() && after[n] == upload;
            assert(n == before.len());
        }
    }
}

} // verus!
