//! The index list of the built-in quad and cube meshes.
use vstd::prelude::*;

verus! {

/// The number of quads the built-in index list covers: the six faces of a cube.
pub const BOX_QUADS: u32 = 6u32;

/// Which of a quad's four corners the `j`-th index of its six names: the
/// quad is split into the triangles (0, 1, 2) and (1, 3, 2).
pub open spec fn quad_corner(j: int) -> int {
    if j == 0 {
        0
    } else if j == 1 {
        1
    } else if j == 2 {
        2
    } else if j == 3 {
        1
    } else if j == 4 {
        3
    } else {
        2
    }
}

/// The index list of `quads` quads whose corners lie four by four in the
/// vertex list: six indices per quad, offset by four vertices per quad.
pub open spec fn quad_indices(quads: nat) -> Seq<u32> {
    Seq::new(6 * quads, |j: int| (4 * (j / 6) + quad_corner(j % 6)) as u32)
}

/// The index list that the built-in quad and cube meshes carry: the six
/// faces of a box, each split into two triangles.
pub fn box_indices() -> (r: Vec<u32>)
    ensures
        r@ == quad_indices(BOX_QUADS as nat),
{
    let mut indices: Vec<u32> = Vec::new();
    let mut i: u32 = 0;
    while i < BOX_QUADS
        invariant
            i <= BOX_QUADS,
            indices@ == quad_indices(i as nat),
        decreases BOX_QUADS - i,
    {
        let base: u32 = i * 4;
        let ghost before = indices@;
        indices.push(base);
        indices.push(base + 1);
        indices.push(base + 2);
        indices.push(base + 1);
        indices.push(base + 3);
        indices.push(base + 2);
        proof {
            let next = quad_indices((i + 1) as nat);
            assert forall|j: int| 0 <= j < next.len() implies #[trigger] indices@[j] == next[j] by {
                if j < 6 * i {
                    assert(next[j] == before[j]);
                } else {
                    let k = j - 6 * i;
                    assert(0 <= k < 6);
                    assert(j / 6 == i) by (nonlinear_arith)
                        requires j == 6 * i + k, 0 <= k < 6;
                    assert(j % 6 == k) by (nonlinear_arith)
                        requires j == 6 * i + k, 0 <= k < 6;
                }
            }
            assert(indices@ =~= next);
        }
        i = i + 1;
    }
    indices
}

} // verus!
