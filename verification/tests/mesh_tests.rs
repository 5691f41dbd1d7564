use jb_gfx::mesh::{box_indices, BOX_QUADS};

#[test]
fn box_indices_cover_six_quads() {
    let indices = box_indices();
    assert_eq!(BOX_QUADS, 6);
    assert_eq!(indices.len(), 36);
    assert_eq!(&indices[0..12], &[0, 1, 2, 1, 3, 2, 4, 5, 6, 5, 7, 6]);
    assert_eq!(&indices[30..36], &[20, 21, 22, 21, 23, 22]);
}

#[test]
fn box_indices_stay_within_twenty_four_vertices() {
    let indices = box_indices();
    assert!(indices.iter().all(|&i| i < 24));
    for quad in 0..6u32 {
        let base = quad * 4;
        let part = &indices[(quad as usize) * 6..(quad as usize) * 6 + 6];
        assert_eq!(part, &[base, base + 1, base + 2, base + 1, base + 3, base + 2]);
    }
}
