use jb_gfx::bindless::{BindlessImage, BindlessManager};
use jb_gfx::draw::{
    build_draw_data, draw_command, material_texture_slots, ui_draw_calls, DrawData,
    MaterialTextures, UIDrawCall, UI_INDEX_GAP,
};
use jb_gfx::handles::{BufferHandle, ImageHandle, MaterialInstanceHandle, MeshHandle};
use jb_gfx::mesh_pool::MeshPool;
use jb_gfx::targets::{
    render_target_image_info, RenderImageType, RenderTarget, RenderTargetSize, RenderTargets,
};
use jb_gfx::vkflags::{
    FORMAT_D32_SFLOAT, FORMAT_R16G16B16A16_SFLOAT, USAGE_COLOR_ATTACHMENT,
    USAGE_DEPTH_STENCIL_ATTACHMENT, USAGE_SAMPLED, USAGE_TRANSFER_SRC,
};

fn material(key: u64) -> MaterialInstanceHandle {
    MaterialInstanceHandle { key }
}

#[test]
fn draw_data_skips_unpooled_meshes() {
    let mut pool = MeshPool::new(BufferHandle { key: 0x1_0000_0001 }, BufferHandle { key: 0x1_0000_0002 });
    let (cube, _) = pool.add_mesh(24, Some(36));
    let (quad, _) = pool.add_mesh(4, Some(6));
    let missing = MeshHandle { key: 0x1_0000_0009 };
    let materials = vec![material(0x1_0000_0001), material(0x1_0000_0002)];
    let models = vec![
        (quad, material(0x1_0000_0002)),
        (missing, material(0x1_0000_0001)),
        (cube, material(0x1_0000_0001)),
    ];
    let draws = build_draw_data(&models, &pool, &materials);
    assert_eq!(
        draws,
        vec![
            DrawData {
                vertex_offset: 24,
                vertex_count: 4,
                index_offset: 36,
                index_count: 6,
                transform_index: 0,
                material_index: 1,
            },
            DrawData {
                vertex_offset: 0,
                vertex_count: 24,
                index_offset: 0,
                index_count: 36,
                transform_index: 2,
                material_index: 0,
            },
        ]
    );
}

#[test]
fn draw_command_counts() {
    let indexed = DrawData {
        vertex_offset: 24,
        vertex_count: 4,
        index_offset: 36,
        index_count: 6,
        transform_index: 3,
        material_index: 1,
    };
    let c = draw_command(&indexed);
    assert_eq!(c.push_constants, [3, 1, 0, 0]);
    assert_eq!(c.index_count, 6);
    assert_eq!(c.first_index, 36);
    assert_eq!(c.vertex_offset, 24);
    let unindexed = DrawData { index_count: 0, index_offset: 0, ..indexed };
    assert_eq!(draw_command(&unindexed).index_count, 4);
}

#[test]
fn ui_draw_calls_leave_gap_after_indices() {
    let calls = ui_draw_calls(&vec![4, 8, 3], &vec![6, 12, 3]);
    assert_eq!(
        calls,
        vec![
            UIDrawCall { vertex_offset: 0, index_offset: 0, amount: 6 },
            UIDrawCall { vertex_offset: 4, index_offset: 6 + UI_INDEX_GAP, amount: 12 },
            UIDrawCall { vertex_offset: 12, index_offset: 18 + 2 * UI_INDEX_GAP, amount: 3 },
        ]
    );
    assert!(ui_draw_calls(&Vec::new(), &Vec::new()).is_empty());
}

#[test]
fn material_slots_use_bindless_indices() {
    let mut bindless = BindlessManager::new();
    let diffuse = ImageHandle { key: 0x1_0000_0001 };
    let normal = ImageHandle { key: 0x1_0000_0002 };
    bindless.add_image_to_bindless(&BindlessImage::Image(diffuse));
    bindless.add_image_to_bindless(&BindlessImage::Image(normal));
    let textures = MaterialTextures {
        diffuse: Some(diffuse),
        normal: Some(normal),
        metallic_roughness: None,
        emissive: Some(diffuse),
        occlusion: None,
    };
    assert_eq!(material_texture_slots(&bindless, &textures), [1, 2, 0, 0, 1, 0, 0, 0]);
}

#[test]
fn target_extent_and_usage() {
    assert_eq!(RenderTargetSize::Static(512, 256).extent((1280, 720)), (512, 256));
    assert_eq!(RenderTargetSize::Fullscreen.extent((1280, 720)), (1280, 720));
    assert_eq!(
        RenderImageType::Colour.usage(),
        USAGE_SAMPLED | USAGE_COLOR_ATTACHMENT | USAGE_TRANSFER_SRC
    );
    assert_eq!(
        RenderImageType::Depth.usage(),
        USAGE_SAMPLED | USAGE_DEPTH_STENCIL_ATTACHMENT | USAGE_TRANSFER_SRC
    );
    let info = render_target_image_info(FORMAT_D32_SFLOAT, (64, 32), RenderImageType::Depth);
    assert_eq!(info.width, 64);
    assert_eq!(info.height, 32);
    assert_eq!(info.depth, 1);
    assert_eq!(info.array_layers, 1);
    assert_eq!(info.mip_levels, 1);
    assert_eq!(info.usage, RenderImageType::Depth.usage());
}

#[test]
fn render_targets_track_images_and_resize_set() {
    let mut targets = RenderTargets::new();
    let hdr = targets.insert(RenderTarget {
        image: ImageHandle { key: 0x1_0000_0001 },
        size: RenderTargetSize::Fullscreen,
        format: FORMAT_R16G16B16A16_SFLOAT,
        image_type: RenderImageType::Colour,
    });
    let shadow = targets.insert(RenderTarget {
        image: ImageHandle { key: 0x1_0000_0002 },
        size: RenderTargetSize::Static(4096, 4096),
        format: FORMAT_D32_SFLOAT,
        image_type: RenderImageType::Depth,
    });
    assert_eq!(targets.get(hdr), Some(ImageHandle { key: 0x1_0000_0001 }));
    assert_eq!(targets.get_render_target(shadow).unwrap().size, RenderTargetSize::Static(4096, 4096));
    let fullscreen = targets.fullscreen_targets();
    assert_eq!(fullscreen.len(), 1);
    assert_eq!(fullscreen[0].0, hdr);
    targets.set_image(hdr, ImageHandle { key: 0x1_0000_0007 });
    assert_eq!(targets.get(hdr), Some(ImageHandle { key: 0x1_0000_0007 }));
    assert_eq!(targets.get(shadow), Some(ImageHandle { key: 0x1_0000_0002 }));
}
