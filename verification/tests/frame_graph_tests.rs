use jb_gfx::barrier::AttachmentHandle;
use jb_gfx::handles::ImageHandle;
use jb_gfx::rendergraph::{AttachmentInfo, RenderList, RenderPassLayout, SizeClass};
use jb_gfx::vkflags::{
    FORMAT_D32_SFLOAT, FORMAT_R16G16B16A16_SFLOAT, FORMAT_R32G32B32A32_SFLOAT, FORMAT_R8G8B8A8_SRGB,
    FORMAT_R8G8B8A8_UNORM, LAYOUT_ATTACHMENT_OPTIMAL, LAYOUT_SHADER_READ_ONLY_OPTIMAL,
    LAYOUT_UNDEFINED,
};

fn info(format: i32) -> AttachmentInfo {
    AttachmentInfo { size: SizeClass::SwapchainRelative, format }
}

/// The engine's deferred frame: shadow, G-buffer, lighting, bloom
/// ping-pong, combine and UI.
fn engine_frame() -> (RenderList, Vec<jb_gfx::handles::VirtualRenderPassHandle>) {
    let mut list = RenderList::new((1920, 1080));
    let mut passes = Vec::new();
    passes.push(list.add_pass(
        "shadow",
        RenderPassLayout::new().set_depth_stencil_attachment("scene_shadow", &info(FORMAT_D32_SFLOAT)),
    ));
    passes.push(list.add_pass(
        "gbuffer",
        RenderPassLayout::new()
            .add_color_attachment("emissive", &info(FORMAT_R16G16B16A16_SFLOAT))
            .add_color_attachment("normal", &info(FORMAT_R32G32B32A32_SFLOAT))
            .add_color_attachment("color", &info(FORMAT_R8G8B8A8_UNORM))
            .set_depth_stencil_attachment("depth", &info(FORMAT_D32_SFLOAT)),
    ));
    passes.push(list.add_pass(
        "deferred",
        RenderPassLayout::new()
            .add_color_attachment("forward", &info(FORMAT_R8G8B8A8_SRGB))
            .add_color_attachment("bright", &info(FORMAT_R8G8B8A8_SRGB))
            .add_texture_input("emissive")
            .add_texture_input("normal")
            .add_texture_input("color")
            .add_texture_input("depth")
            .add_texture_input("scene_shadow"),
    ));
    passes.push(list.add_pass(
        "bloom_initial_pass",
        RenderPassLayout::new()
            .add_texture_input("bright")
            .add_texture_input("bloom_vertical")
            .add_color_attachment("bloom_horizontal", &info(FORMAT_R8G8B8A8_SRGB)),
    ));
    passes.push(list.add_pass(
        "bloom_horizontal_pass",
        RenderPassLayout::new()
            .add_texture_input("bloom_horizontal")
            .add_color_attachment("bloom_vertical", &info(FORMAT_R8G8B8A8_SRGB)),
    ));
    passes.push(list.add_pass(
        "bloom_vertical_pass",
        RenderPassLayout::new()
            .add_texture_input("bloom_vertical")
            .add_color_attachment("bloom_horizontal", &info(FORMAT_R8G8B8A8_SRGB)),
    ));
    passes.push(list.add_pass(
        "combine",
        RenderPassLayout::new()
            .add_color_attachment("output", &info(FORMAT_R8G8B8A8_SRGB))
            .add_texture_input("forward")
            .add_texture_input("bloom_vertical"),
    ));
    passes.push(list.add_pass(
        "ui",
        RenderPassLayout::new()
            .add_color_attachment("output", &info(FORMAT_R8G8B8A8_SRGB))
            .set_depth_stencil_attachment("depth", &info(FORMAT_D32_SFLOAT)),
    ));
    (list, passes)
}

fn baked() -> (RenderList, Vec<jb_gfx::handles::VirtualRenderPassHandle>) {
    let (mut list, passes) = engine_frame();
    let mut key = 0x1_0000_0001u64;
    for request in list.image_requests().iter() {
        list.set_physical_image(request.resource, ImageHandle { key });
        key += 1;
    }
    list.bake_passes();
    (list, passes)
}

#[test]
fn engine_frame_declares_ten_textures() {
    let (list, passes) = engine_frame();
    assert_eq!(passes.len(), 8);
    let requests = list.image_requests();
    assert_eq!(requests.len(), 10);
    assert!(requests.iter().all(|r| (r.width, r.height) == (1920, 1080)));
}

#[test]
fn engine_frame_lighting_samples_the_gbuffer() {
    let (list, passes) = baked();
    let lighting = list.get_physical_pass(passes[2]);
    assert_eq!(lighting.colour_images.len(), 2);
    assert_eq!(lighting.barriers.len(), 7);
    // The two new colour targets start from nothing.
    assert_eq!(lighting.barriers[0].old_layout, LAYOUT_UNDEFINED);
    assert_eq!(lighting.barriers[1].old_layout, LAYOUT_UNDEFINED);
    // The G-buffer and shadow map were written: they go to shader reads.
    for b in lighting.barriers[2..].iter() {
        assert_eq!(b.old_layout, LAYOUT_ATTACHMENT_OPTIMAL);
        assert_eq!(b.new_layout, LAYOUT_SHADER_READ_ONLY_OPTIMAL);
    }
    let shadow_map = list.get_physical_resource("scene_shadow");
    assert_eq!(lighting.barriers[6].image, AttachmentHandle::Image(shadow_map));
}

#[test]
fn engine_frame_bloom_ping_pong() {
    let (list, passes) = baked();
    let initial = list.get_physical_pass(passes[3]);
    // "bright" was written by lighting; "bloom_vertical" has not been used.
    assert_eq!(initial.barriers.len(), 3);
    assert_eq!(initial.barriers[0].old_layout, LAYOUT_UNDEFINED);
    assert_eq!(initial.barriers[1].old_layout, LAYOUT_ATTACHMENT_OPTIMAL);
    assert_eq!(initial.barriers[2].old_layout, LAYOUT_UNDEFINED);
    assert_eq!(initial.barriers[2].new_layout, LAYOUT_SHADER_READ_ONLY_OPTIMAL);
    let horizontal = list.get_physical_pass(passes[4]);
    assert_eq!(horizontal.colour_images, vec![list.get_physical_resource("bloom_vertical")]);
    let vertical = list.get_physical_pass(passes[5]);
    // "bloom_horizontal" was last sampled, so rendering to it transitions
    // it back from shader reads.
    assert_eq!(vertical.barriers.len(), 2);
    assert_eq!(vertical.barriers[0].old_layout, LAYOUT_SHADER_READ_ONLY_OPTIMAL);
    assert_eq!(vertical.barriers[0].new_layout, LAYOUT_ATTACHMENT_OPTIMAL);
}

#[test]
fn engine_frame_ui_draws_over_combined_output() {
    let (list, passes) = baked();
    let ui = list.get_physical_pass(passes[7]);
    assert_eq!(ui.colour_images, vec![list.get_physical_resource("output")]);
    assert_eq!(ui.depth_image, Some(list.get_physical_resource("depth")));
    assert_eq!(ui.extent, Some((1920, 1080)));
    // The output was just written by combine; the depth was last sampled.
    assert_eq!(ui.barriers.len(), 1);
    assert_eq!(ui.barriers[0].image, AttachmentHandle::Image(list.get_physical_resource("depth")));
    assert_eq!(ui.barriers[0].old_layout, LAYOUT_SHADER_READ_ONLY_OPTIMAL);
    assert_eq!(ui.barriers[0].new_layout, LAYOUT_ATTACHMENT_OPTIMAL);
}

#[test]
fn declared_frame_graph_has_eight_distinct_passes_and_ten_textures() {
    let graph = jb_gfx::frame_graph::declare((1920, 1080));
    let passes = vec![
        graph.shadow,
        graph.gbuffer,
        graph.deferred_lighting,
        graph.bloom_initial,
        graph.bloom_horizontal,
        graph.bloom_vertical,
        graph.combine,
        graph.ui,
    ];
    for i in 0..passes.len() {
        for j in i + 1..passes.len() {
            assert_ne!(passes[i], passes[j]);
        }
    }
    let requests = graph.list.image_requests();
    assert_eq!(requests.len(), 10);
    let mut names: Vec<String> = requests.iter().map(|r| r.name.clone()).collect();
    names.sort();
    assert_eq!(
        names,
        vec![
            "bloom_horizontal", "bloom_vertical", "bright", "color", "depth", "emissive", "forward", "normal",
            "output", "scene_shadow",
        ]
    );
    assert!(requests.iter().all(|r| (r.width, r.height) == (1920, 1080)));
}

#[test]
fn declared_frame_graph_textures_have_their_formats() {
    let graph = jb_gfx::frame_graph::declare((800, 600));
    let requests = graph.list.image_requests();
    let format_of = |name: &str| requests.iter().find(|r| r.name == name).unwrap().format;
    assert_eq!(format_of("scene_shadow"), FORMAT_D32_SFLOAT);
    assert_eq!(format_of("depth"), FORMAT_D32_SFLOAT);
    assert_eq!(format_of("emissive"), FORMAT_R16G16B16A16_SFLOAT);
    assert_eq!(format_of("normal"), FORMAT_R32G32B32A32_SFLOAT);
    assert_eq!(format_of("color"), FORMAT_R8G8B8A8_UNORM);
    for name in ["forward", "bright", "bloom_horizontal", "bloom_vertical", "output"] {
        assert_eq!(format_of(name), FORMAT_R8G8B8A8_SRGB);
    }
    assert!(requests.iter().all(|r| (r.width, r.height) == (800, 600)));
}
