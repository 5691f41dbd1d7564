use jb_gfx::asset::{AssetManager as ModelAssets, Texture};
use jb_gfx::device::{FrameClock, TimeStampIndex, FRAMES_IN_FLIGHT, QUERY_COUNT, SHADOWMAP_SIZE};
use jb_gfx::draw::MaterialTextures;
use jb_gfx::engine_asset::{
    asset_path, faces_from_indices, indices_or_none, split_asset_path, AssetLoadError,
    AssetManager, Mesh, SubMesh,
};
use jb_gfx::handles::{ImageHandle, MaterialInstanceHandle, MeshHandle, RenderModelHandle};
use jb_gfx::names::NameTable;
use jb_gfx::scene::{RenderModel, Scene, SceneError, MAX_MATERIAL_INSTANCES};

fn image(key: u64) -> ImageHandle {
    ImageHandle { key }
}

#[test]
fn texture_size_and_image() {
    let t = Texture::new(image(0x1_0000_0003), 640, 480);
    assert_eq!(t.width(), 640);
    assert_eq!(t.height(), 480);
    assert_eq!(ImageHandle::from(t), image(0x1_0000_0003));
}

#[test]
fn model_assets_resolve_material_textures() {
    let mut assets = ModelAssets::new();
    assets.record_image("albedo.png", Some(Texture::new(image(0x1_0000_0001), 4, 4)));
    assets.record_image("normal.png", Some(Texture::new(image(0x1_0000_0002), 4, 4)));
    assets.record_image("broken.png", None);
    assert!(assets.loaded_texture("broken.png").is_none());
    assert_eq!(assets.loaded_texture("albedo.png").unwrap().width(), 4);
    let textures = assets.material_textures(Some("albedo.png"), Some("normal.png"), None, Some("albedo.png"));
    assert_eq!(
        textures,
        MaterialTextures {
            diffuse: Some(image(0x1_0000_0001)),
            normal: Some(image(0x1_0000_0002)),
            metallic_roughness: None,
            emissive: Some(image(0x1_0000_0001)),
            occlusion: None,
        }
    );
    assets.record_image("albedo.png", Some(Texture::new(image(0x1_0000_0009), 8, 8)));
    assert_eq!(assets.loaded_texture("albedo.png").unwrap().height(), 8);
}

#[test]
fn texture_loaded_once_by_name() {
    let mut assets = AssetManager::new();
    assert_eq!(assets.cached_texture("a.png"), None);
    assert_eq!(assets.load_texture("a.png", Some(image(0x1_0000_0001))), Ok(image(0x1_0000_0001)));
    assert_eq!(assets.cached_texture("a.png"), Some(image(0x1_0000_0001)));
    // A second load hands back the first image, whatever the new attempt gave.
    assert_eq!(assets.load_texture("a.png", Some(image(0x1_0000_0002))), Ok(image(0x1_0000_0001)));
    assert_eq!(assets.load_texture("a.png", None), Ok(image(0x1_0000_0001)));
}

#[test]
fn texture_that_cannot_load_is_an_error() {
    let mut assets = AssetManager::default();
    assert_eq!(assets.load_texture("missing.png", None), Err(AssetLoadError::TextureUnavailable));
    assert_eq!(assets.cached_texture("missing.png"), None);
}

#[test]
fn faces_group_indices_in_threes() {
    let faces = faces_from_indices(&vec![0, 1, 2, 2, 3, 0, 7]);
    assert_eq!(faces, vec![[0, 1, 2], [2, 3, 0]]);
    assert!(faces_from_indices(&vec![0, 1]).is_empty());
}

#[test]
fn empty_index_list_means_no_indices() {
    assert_eq!(indices_or_none(Vec::new()), None);
    assert_eq!(indices_or_none(vec![0, 1, 2]), Some(vec![0, 1, 2]));
}

#[test]
fn asset_paths_split_and_join() {
    assert_eq!(asset_path("assets/models", "albedo.png"), "assets/models/albedo.png");
    let (folder, name) = split_asset_path("assets/models/Sponza.gltf");
    assert_eq!(folder, "assets/models");
    assert_eq!(name, "Sponza.gltf");
    let (folder, name) = split_asset_path("/x");
    assert_eq!(folder, "");
    assert_eq!(name, "x");
    let (folder, name) = split_asset_path("a/b/");
    assert_eq!(folder, "a/b");
    assert_eq!(name, "");
}

#[test]
fn mesh_holds_submeshes() {
    let sub = SubMesh {
        mesh: MeshHandle { key: 0x1_0000_0001 },
        material_instance: MaterialInstanceHandle { key: 0x1_0000_0002 },
    };
    let mesh = Mesh { submeshes: vec![sub, sub] };
    assert_eq!(mesh.clone().submeshes.len(), 2);
}

#[test]
fn frame_clock_timestamps() {
    assert_eq!(FRAMES_IN_FLIGHT, 2);
    assert_eq!(QUERY_COUNT, 10);
    assert_eq!(SHADOWMAP_SIZE, 4096);
    let mut clock = FrameClock::new();
    assert_eq!(clock.buffered_resource_number(), 0);
    clock.start_frame();
    let a = clock.write_timestamp();
    let b = clock.write_timestamp();
    assert_eq!(a, TimeStampIndex(0));
    assert_eq!(b, TimeStampIndex(1));
    assert_eq!(clock.timestamp_count(), 2);
    assert_eq!(clock.timestamp_ticks(a, b), None);
    clock.end_frame(Some(vec![100, 250, 0, 0, 0, 0, 0, 0, 0, 0]));
    assert_eq!(clock.frame_number(), 1);
    assert_eq!(clock.buffered_resource_number(), 1);
    assert_eq!(clock.timestamp_ticks(a, b), Some(150));
    assert_eq!(clock.timestamp_ticks(a, TimeStampIndex(10)), None);
    clock.start_frame();
    assert_eq!(clock.write_timestamp(), TimeStampIndex(0));
    clock.end_frame(None);
    assert_eq!(clock.frame_number(), 2);
    assert_eq!(clock.buffered_resource_number(), 0);
    assert_eq!(clock.timestamp_ticks(a, b), Some(150));
}

#[test]
fn name_table_insert_replaces() {
    let mut table: NameTable<u32> = NameTable::new();
    table.insert_new("a", 1);
    table.insert("b", 2);
    table.insert("a", 3);
    assert_eq!(table.get("a"), Some(3));
    assert_eq!(table.get("b"), Some(2));
    assert_eq!(table.get("c"), None);
}

fn material(n: u64) -> MaterialTextures {
    MaterialTextures {
        diffuse: Some(image(n)),
        normal: None,
        metallic_roughness: None,
        emissive: None,
        occlusion: None,
    }
}

#[test]
fn scene_models_add_remove() {
    let mut scene = Scene::new();
    let mat = scene.add_material_instance(material(0x1_0000_0001));
    let mesh = MeshHandle { key: 0x1_0000_0005 };
    let a = scene.add_render_model(mesh, mat);
    let b = scene.add_render_model(mesh, mat);
    assert_ne!(a, b);
    assert_eq!(scene.render_model(a), Some(RenderModel { mesh_handle: mesh, material_instance: mat }));
    assert_eq!(scene.render_models_in_order().len(), 2);
    scene.remove_render_model(a);
    assert_eq!(scene.render_model(a), None);
    let order = scene.render_models_in_order();
    assert_eq!(order.len(), 1);
    assert_eq!(order[0].0, b);
    // The freed slot is reused under a new key, so the stale handle stays dead.
    let c = scene.add_render_model(mesh, mat);
    assert_ne!(c, a);
    assert_eq!(scene.render_model(a), None);
    let order: Vec<RenderModelHandle> = scene.render_models_in_order().iter().map(|e| e.0).collect();
    assert_eq!(order, vec![c, b]);
}

#[test]
fn scene_material_change_stops_at_unknown_model() {
    let mut scene = Scene::new();
    let m1 = scene.add_material_instance(material(0x1_0000_0001));
    let m2 = scene.add_material_instance(material(0x1_0000_0002));
    let mesh = MeshHandle { key: 0x1_0000_0005 };
    let a = scene.add_render_model(mesh, m1);
    let b = scene.add_render_model(mesh, m1);
    scene.remove_render_model(b);
    let c = scene.add_render_model(mesh, m1);
    assert_eq!(scene.set_render_model_material(&[a, c], m2), Ok(()));
    assert_eq!(scene.render_model(a).unwrap().material_instance, m2);
    assert_eq!(scene.render_model(c).unwrap().material_instance, m2);
    assert_eq!(
        scene.set_render_model_material(&[a, b, c], m1),
        Err(SceneError::UnknownRenderModel)
    );
    assert_eq!(scene.render_model(a).unwrap().material_instance, m1);
    assert_eq!(scene.render_model(c).unwrap().material_instance, m2);
    assert_eq!(scene.check_render_models(&[a, c]), Ok(()));
    assert_eq!(scene.check_render_models(&[c, b, a]), Err(1));
}

#[test]
fn scene_materials_are_replaced_in_place() {
    let mut scene = Scene::new();
    assert_eq!(MAX_MATERIAL_INSTANCES, 128);
    let m1 = scene.add_material_instance(material(0x1_0000_0001));
    let m2 = scene.add_material_instance(material(0x1_0000_0002));
    assert_eq!(scene.material_count(), 2);
    assert_eq!(scene.material_order(), vec![m1, m2]);
    assert_eq!(scene.set_material_instance(m1, material(0x1_0000_0009)), Ok(()));
    assert_eq!(scene.material_instance(m1), Some(material(0x1_0000_0009)));
    let unknown = MaterialInstanceHandle { key: 0x1_0000_0077 };
    assert_eq!(scene.set_material_instance(unknown, material(1)), Err(SceneError::UnknownMaterial));
    assert_eq!(scene.material_instance(unknown), None);
    assert_eq!(scene.material_count(), 2);
}

#[test]
fn scene_counts_grow_by_one() {
    let mut scene = Scene::new();
    assert_eq!(scene.material_count(), 0);
    let m = scene.add_material_instance(material(0x1_0000_0001));
    assert_eq!(scene.material_count(), 1);
    let _ = scene.add_material_instance(material(0x1_0000_0002));
    assert_eq!(scene.material_count(), 2);
    let mesh = MeshHandle { key: 0x1_0000_0005 };
    let a = scene.add_render_model(mesh, m);
    let _ = scene.add_render_model(mesh, m);
    assert_eq!(scene.render_models_in_order().len(), 2);
    scene.remove_render_model(a);
    scene.remove_render_model(a);
    assert_eq!(scene.render_models_in_order().len(), 1);
}

#[test]
fn frame_timestamps_take_consecutive_slots() {
    let mut clock = FrameClock::new();
    clock.start_frame();
    for i in 0..QUERY_COUNT as usize {
        assert_eq!(clock.write_timestamp(), TimeStampIndex(i));
    }
    assert_eq!(clock.timestamp_count(), QUERY_COUNT);
}
