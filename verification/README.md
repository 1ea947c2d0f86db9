# gpui_scene

The drawing scene of a GPU user-interface toolkit, and the decisions that its
Direct3D 11 renderer takes, verified with Verus.

- `src/` computes on plain values. It holds the scene (layers, draw orders,
  recording and replay, batches), paths, effects and transforms, the sprite
  atlas, and what the renderer decides: which adapter to use, how to recover a
  lost device, what to upload, how each batch is drawn, and which GPU objects to
  create. Floating-point numbers are held by rank (`scalar.rs`).
- `tests/` runs the library.
- `app/` is ordinary Rust around it: floating-point arithmetic, serialised
  forms, and the calls into Direct3D. Its Direct3D modules compile on Windows
  only.

What holds of the library as a whole is proved in functions named `lemma_*`
whose comments begin with "Law"; those about scenes and batches are in
`src/scene_laws.rs` and `src/batch_laws.rs`. What the proofs take on trust is
marked `external_body`: the rectangle packer of the crate `etagere`
(`src/packing.rs`), and a few functions of the standard library on text and
sorting (`src/text.rs`, `src/devices.rs`, `src/sort.rs`).
