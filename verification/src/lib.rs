//! The drawing scene of a GPU user-interface toolkit, with the decisions its
//! Direct3D renderer takes about atlas space, adapters, batches and passes.
//!
//! Everything here computes on plain values. Floating-point quantities enter
//! as [`scalar::Scalar`]s; GPU objects never enter at all.

pub mod atlas;
pub mod atlas_laws;
pub mod atlas_state;
pub mod backdrop;
pub mod batch;
pub mod batch_laws;
pub mod bounds_tree;
pub mod bucket_counts;
pub mod devices;
pub mod draw_plan;
pub mod drawing_laws;
pub mod effect;
pub mod effect_id;
pub mod frame;
pub mod geometry;
pub mod gpu;
pub mod gpu_specs;
pub mod instance_buffer;
pub mod packing;
pub mod paint;
pub mod painting_laws;
pub mod path;
pub mod path_sprites;
pub mod pipeline_laws;
pub mod pipelines;
pub mod primitives;
pub mod refusals;
pub mod scalar;
pub mod scene;
pub mod scene_laws;
pub mod sort;
pub mod targets;
pub mod text;
pub mod tile;
pub mod tracing;
pub mod transform;
