use jb_gfx::bindless::{BindlessImage, BindlessManager};
use jb_gfx::buffer::{mapped_element_count, view_range, whole_view, BufferRange, ViewError};
use jb_gfx::handles::{BufferHandle, ImageHandle, MeshHandle, RenderTargetHandle};
use jb_gfx::mesh_pool::{MeshPool, PooledMesh, INDEX_SIZE, LARGE_BUFFER_SIZE, VERTEX_SIZE};

#[allow(dead_code)]
struct Vertex {
    position: [f32; 3],
    tex_coords: [f32; 2],
    normal: [f32; 3],
    color: [f32; 3],
    tangent: [f32; 4],
}

#[test]
fn vertex_and_index_sizes_match_layout() {
    assert_eq!(VERTEX_SIZE, std::mem::size_of::<Vertex>());
    assert_eq!(INDEX_SIZE, std::mem::size_of::<u32>());
    assert_eq!(LARGE_BUFFER_SIZE, 16_000_000);
}

fn pool() -> MeshPool {
    MeshPool::new(BufferHandle { key: 0x1_0000_0001 }, BufferHandle { key: 0x1_0000_0002 })
}

#[test]
fn meshes_are_packed_one_after_another() {
    let mut pool = pool();
    assert_eq!(pool.vertex_buffer(), BufferHandle { key: 0x1_0000_0001 });
    assert_eq!(pool.index_buffer(), BufferHandle { key: 0x1_0000_0002 });
    let (h1, m1) = pool.add_mesh(24, Some(36));
    assert_eq!(m1, PooledMesh { vertex_offset: 0, vertex_count: 24, index_offset: 0, index_count: 36 });
    let (h2, m2) = pool.add_mesh(4, None);
    assert_eq!(m2, PooledMesh { vertex_offset: 24, vertex_count: 4, index_offset: 0, index_count: 0 });
    let (h3, m3) = pool.add_mesh(10, Some(6));
    assert_eq!(m3, PooledMesh { vertex_offset: 28, vertex_count: 10, index_offset: 36, index_count: 6 });
    assert_eq!(pool.vertex_total(), 38);
    assert_eq!(pool.index_total(), 42);
    assert_eq!(pool.get(h1), Some(m1));
    assert_eq!(pool.get(h2), Some(m2));
    assert_eq!(pool.get(h3), Some(m3));
    assert_ne!(h1, h2);
}

#[test]
fn unknown_mesh_is_not_found() {
    let pool = pool();
    assert_eq!(pool.get(MeshHandle { key: 0x1_0000_0003 }), None);
}

#[test]
fn fits_checks_both_buffers() {
    let mut pool = pool();
    let max_vertices = LARGE_BUFFER_SIZE as usize / VERTEX_SIZE;
    let max_indices = LARGE_BUFFER_SIZE as usize / INDEX_SIZE;
    assert!(pool.fits(max_vertices, Some(max_indices)));
    assert!(!pool.fits(max_vertices + 1, None));
    assert!(!pool.fits(1, Some(max_indices + 1)));
    pool.add_mesh(max_vertices - 1, Some(10));
    assert!(pool.fits(1, None));
    assert!(!pool.fits(2, None));
    assert!(!pool.fits(1, Some(max_indices - 9)));
    assert!(pool.fits(1, Some(max_indices - 10)));
}

#[test]
fn bindless_indices_start_at_one() {
    let mut manager = BindlessManager::new();
    let a = BindlessImage::Image(ImageHandle { key: 0x1_0000_0001 });
    let b = BindlessImage::RenderTarget(RenderTargetHandle { key: 0x1_0000_0001 });
    assert_eq!(manager.get_bindless_index(&a), None);
    assert_eq!(manager.add_image_to_bindless(&a), 0);
    assert_eq!(manager.add_image_to_bindless(&b), 1);
    assert_eq!(manager.get_bindless_index(&a), Some(1));
    assert_eq!(manager.get_bindless_index(&b), Some(2));
}

#[test]
fn bindless_reregistration_moves_image_to_new_slot() {
    let mut manager = BindlessManager::new();
    let a = BindlessImage::Image(ImageHandle { key: 0x1_0000_0001 });
    let b = BindlessImage::Image(ImageHandle { key: 0x1_0000_0002 });
    manager.add_image_to_bindless(&a);
    manager.add_image_to_bindless(&b);
    assert_eq!(manager.add_image_to_bindless(&a), 2);
    assert_eq!(manager.get_bindless_index(&a), Some(3));
    assert_eq!(manager.get_bindless_index(&b), Some(2));
}

#[test]
fn whole_view_covers_buffer() {
    assert_eq!(whole_view(256), BufferRange { offset: 0, size: 256 });
}

#[test]
fn view_range_in_bounds() {
    assert_eq!(view_range(1024, 64, 2, 4), Ok(BufferRange { offset: 128, size: 256 }));
    assert_eq!(view_range(1024, 64, 12, 4), Ok(BufferRange { offset: 768, size: 256 }));
}

#[test]
fn view_range_errors() {
    assert_eq!(
        view_range(100, 64, 0, 2),
        Err(ViewError::SizeExceeded { size: 128, buffer_size: 100 })
    );
    assert_eq!(
        view_range(100, 10, 11, 1),
        Err(ViewError::OffsetExceeded { offset: 110, buffer_size: 100 })
    );
    assert_eq!(
        view_range(100, 10, 8, 3),
        Err(ViewError::PastEnd { offset: 80, size: 30, buffer_size: 100 })
    );
}

#[test]
fn mapped_view_element_count() {
    let range = BufferRange { offset: 64, size: 200 };
    assert_eq!(mapped_element_count(true, range, 64), Ok(3));
    assert_eq!(mapped_element_count(false, range, 64), Err(ViewError::NotMapped));
}
