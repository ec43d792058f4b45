# aethervk_device

The device layer of a Vulkan renderer and particle simulator, split in two:

- `src/` is a Verus library holding the layer's decisions and bookkeeping:
  command pool rotation, descriptor pools, the pipeline cache and its keys,
  render pass descriptions, the per-engine render pass bundles and the
  pipeline render passes, archetype pipelines and their
  retargeting on resize, the two-state particle system and its cross-queue
  synchronisation, the frame's trajectory batch, snapshots, downloads, timeline polling, submission plans,
  the per-frame staging arena, lock bookkeeping, and more. Handles, formats
  and flags are plain integers there; every public function has a contract
  and the cross-function laws are public proof functions.
- `app/` is ordinary Rust around part of the library: queue submission,
  transient command buffers, render pass bundles, the frame's trajectory
  plan, particle system creation, snapshots and the emitter upload, the
  lock wrappers, debug labels and entry-point hooks. It performs those
  driver calls through `ash` and `vk-mem` and does the floating-point
  arithmetic of the sun's gravity, handing plain values to the library.
  It does not cover the whole device: swapchains, shader loading, the sun
  and sky passes and the draw paths are not part of it.

`tests/` exercises the library on concrete values.
