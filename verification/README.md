# jb_gfx

The decision-making core of a small Vulkan game engine, written in Verus:
what the renderer records and in which order, proved against contracts.

- `src/` is the verified library.
  - Render graph (`rendergraph`, `graph_layouts`): passes and textures declared
    by name, baked into per-pass images, render areas and image barriers; the
    laws show that a baked graph, run in order, leaves every texture in the
    layout its next use needs, for any graph that meets the laws'
    conditions. `frame_graph` declares the renderer's deferred frame; its
    contract states what each pass renders to and samples, each texture's
    format and size, and the laws' conditions on the declared graph (passes
    recorded by their textures, no pass sampling what it renders to).
  - Render passes without a graph (`pass_builder`, `usage_tracker`,
    `barrier`): barriers and load operations from the last usage of each
    image in the frame.
  - Resources (`mesh_pool`, `bindless`, `buffer`, `targets`, `upload`,
    `descriptor`, `pipeline`): packing meshes into shared buffers, bindless
    texture slots, buffer views, render targets, image uploads with their mip
    chains and the per-frame upload queue, descriptor pools and layout caches,
    pipeline reloads, and texture decoding through the `image` crate
    (`texture`).
  - Frame and device (`device`, `swapchain`, `vkflags`): frame counters,
    timestamps, swapchain and device choices, and the Vulkan flag values the
    decisions produce.
  - Scene and assets (`scene`, `draw`, `asset`, `engine_asset`, `names`):
    render models and materials, the capped light store (`light`), draw data, texture caches, index and path
    handling of model files, the index list of the built-in meshes (`mesh`).
  - Game rules (`input`, `game`, `particle`): keyboard state, editor keys,
    tracer rounds, bullet clean-up, particle slots.
- `tests/` runs the library on concrete values.
- `app/` is the program around it: the window and event loop, frame timing,
  camera, light, mesh-vertex, particle and collision arithmetic in floating
  point, and the Vulkan calls
  that carry out the library's decisions.

Slot maps from the `slotmap` crate hold the engine's handles, and the
`image` crate decodes textures; the library reaches both through small
trusted wrappers whose contracts describe what they give.
