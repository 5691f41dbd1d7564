//! The decision-making core of a Vulkan game engine: render graphs and
//! passes, barriers, resource pools, frames, scenes, assets and game rules.

pub mod handles;
pub mod vkflags;
pub mod barrier;
pub mod usage_tracker;
pub mod pass_builder;
pub mod names;
pub mod rendergraph;
pub mod mesh_pool;
pub mod bindless;
pub mod buffer;
pub mod draw;
pub mod targets;
pub mod descriptor;
pub mod pipeline;
pub mod input;
pub mod game;
pub mod asset_file;
pub mod asset;
pub mod engine_asset;
pub mod device;
pub mod particle;
pub mod scene;
pub mod upload;
pub mod swapchain;
pub mod graph_layouts;
pub mod mesh;
pub mod frame_graph;
pub mod light;
pub mod texture;
