//! The engine's asset manager: the textures loaded by name, the meshes a
//! model file is made of, and the index and path arithmetic of loading one.
use vstd::prelude::*;
use crate::handles::{ImageHandle, MaterialInstanceHandle, MeshHandle};
use crate::names::NameTable;

verus! {

/// One drawable part of a mesh: its geometry and its material.
#[derive(Clone, Copy, PartialEq, Eq, Structural, Debug)]
pub struct SubMesh {
    pub mesh: MeshHandle,
    pub material_instance: MaterialInstanceHandle,
}

/// A mesh of a model file, made of sub-meshes.
#[derive(Clone, Debug)]
pub struct Mesh {
    pub submeshes: Vec<SubMesh>,
}

/// Why a texture could not be had.
#[derive(Clone, Copy, PartialEq, Eq, Structural, Debug)]
pub enum AssetLoadError {
    /// The texture was neither loaded before nor could be loaded now.
    TextureUnavailable,
}

/// Keeps the image each texture name was loaded into, so that a texture is
/// loaded once.
pub struct AssetManager {
    loaded_textures: NameTable<ImageHandle>,
}

impl AssetManager {
    /// The loaded textures by name.
    pub closed spec fn textures(&self) -> Map<Seq<char>, ImageHandle> {
        self.loaded_textures.view()
    }

    /// Well-formedness: each name has one image.
    pub closed spec fn wf(&self) -> bool {
        self.loaded_textures.wf()
    }

    /// A manager with no texture loaded.
    pub fn new() -> (r: Self)
        ensures
            r.wf(),
            r.textures() =~= Map::empty(),
    {
        AssetManager { loaded_textures: NameTable::new() }
    }

    /// The image loaded before under `name`, if any.
    pub fn cached_texture(&self, name: &str) -> (r: Option<ImageHandle>)
        requires
            self.wf(),
        ensures
            r == (if self.textures().contains_key(name@) {
                Some(self.textures()[name@])
            } else {
                None::<ImageHandle>
            }),
    {
        self.loaded_textures.get(name)
    }

    /// The texture named `name`: the image loaded before under that name,
    /// else `loaded`, the outcome of loading it now, which is then kept.
    /// It is an error when it was neither loaded before nor now.
    pub fn load_texture(&mut self, name: &str, loaded: Option<ImageHandle>) -> (r: Result<ImageHandle, AssetLoadError>)
        requires
            old(self).wf(),
        ensures
            final(self).wf(),
            (r, final(self).textures()) == texture_load(old(self).textures(), name@, loaded),
    {
        match self.loaded_textures.get(name) {
            Some(h) => Ok(h),
            None => {
                match loaded {
                    Some(h) => {
                        self.loaded_textures.insert_new(name, h);
                        Ok(h)
                    },
                    None => Err(AssetLoadError::TextureUnavailable),
                }
            },
        }
    }
}

/// What loading the texture `name` gives, and the loaded textures after it,
/// when `loaded` is the outcome of loading it now: a texture loaded before
/// is handed back and nothing changes; else a texture loaded now is kept
/// and handed back; else it is an error and nothing changes.
pub open spec fn texture_load(
    textures: Map<Seq<char>, ImageHandle>,
    name: Seq<char>,
    loaded: Option<ImageHandle>,
) -> (Result<ImageHandle, AssetLoadError>, Map<Seq<char>, ImageHandle>) {
    if textures.contains_key(name) {
        (Ok(textures[name]), textures)
    } else {
        match loaded {
            Some(h) => (Ok(h), textures.insert(name, h)),
            None => (Err(AssetLoadError::TextureUnavailable), textures),
        }
    }
}

/// Law: a texture is loaded once. After its first successful load, every
/// later load of the same name gives the same image, whatever a new attempt
/// would give, and keeps the textures as they are.
pub proof fn lemma_texture_loaded_once(
    textures: Map<Seq<char>, ImageHandle>,
    name: Seq<char>,
    first: Option<ImageHandle>,
    later: Option<ImageHandle>,
)
    requires
        texture_load(textures, name, first).0 is Ok,
    ensures
        texture_load(texture_load(textures, name, first).1, name, later) == (
            texture_load(textures, name, first).0,
            texture_load(textures, name, first).1,
        ),
{
}

impl Default for AssetManager {
    fn default() -> (r: Self)
        ensures
            r.wf(),
            r.textures() =~= Map::empty(),
    {
        AssetManager::new()
    }
}

/// The triangles of an index list: each run of three indices, in order; a
/// trailing run of fewer than three is left out.
pub open spec fn faces_of(indices: Seq<u32>) -> Seq<[u32; 3]> {
    Seq::new(
        indices.len() / 3,
        |i: int| [indices[3 * i], indices[3 * i + 1], indices[3 * i + 2]],
    )
}

/// The triangles of an index list, three indices each.
pub fn faces_from_indices(indices: &Vec<u32>) -> (r: Vec<[u32; 3]>)
    ensures
        r@.len() == faces_of(indices@).len(),
        forall|i: int| 0 <= i < r@.len() ==> r@[i]@ == faces_of(indices@)[i]@,
{
    let len: usize = indices.len();
    let n: usize = len / 3;
    let mut faces: Vec<[u32; 3]> = Vec::new();
    let mut i: usize = 0;
    while i < n
        invariant
            len == indices@.len(),
            n == len / 3,
            i <= n,
            faces@.len() == i,
            forall|j: int| 0 <= j < i ==> faces@[j]@ == faces_of(indices@)[j]@,
        decreases n - i,
    {
        assert(3 * i + 2 < indices@.len()) by (nonlinear_arith)
            requires
                i < n,
                n == len / 3,
                len == indices@.len(),
        ;
        let index: usize = i * 3;
        let face = [indices[index], indices[index + 1], indices[index + 2]];
        proof {
            let want = faces_of(indices@)[i as int];
            assert(want == [indices@[3 * i], indices@[3 * i + 1], indices@[3 * i + 2]]);
            assert(face@ =~= want@);
        }
        faces.push(face);
        i = i + 1;
    }
    faces
}

/// An index list, or none when it is empty (the mesh is then drawn
/// without indices).
pub fn indices_or_none(indices: Vec<u32>) -> (r: Option<Vec<u32>>)
    ensures
        indices@.len() == 0 ==> r.is_none(),
        indices@.len() > 0 ==> r.is_some() && r.unwrap()@ == indices@,
{
    if indices.len() == 0 {
        None
    } else {
        Some(indices)
    }
}

/// The path of an asset that `uri` names, relative to `folder`.
pub fn asset_path(folder: &str, uri: &str) -> (r: String)
    ensures
        r@ == folder@ + seq!['/'] + uri@,
{
    let mut path = String::from_str(folder);
    let slash = "/";
    proof {
        reveal_strlit("/");
    }
    path.append(slash);
    path.append(uri);
    path
}

/// A path split at its last separator: the folder before it and the file
/// name after it.
pub fn split_asset_path(file: &str) -> (r: (String, String))
    requires
        file@.contains('/'),
    ensures
        file@ == r.0@ + seq!['/'] + r.1@,
        !r.1@.contains('/'),
{
    let len: usize = file.unicode_len();
    let mut i: usize = len;
    while i > 0
        invariant
            i <= len,
            len == file@.len(),
            file@.contains('/'),
            forall|j: int| i <= j < len ==> file@[j] != '/',
        decreases i,
    {
        if file.get_char(i - 1) == '/' {
            let folder = file.substring_char(0, i - 1);
            let name = file.substring_char(i, len);
            let r = (String::from_str(folder), String::from_str(name));
            proof {
                assert(file@ =~= r.0@ + seq!['/'] + r.1@);
                if r.1@.contains('/') {
                    let k = choose|k: int| 0 <= k < r.1@.len() && r.1@[k] == '/';
                    assert(file@[i + k] == '/');
                }
            }
            return r;
        }
        i = i - 1;
    }
    proof {
        let k = choose|k: int| 0 <= k < file@.len() && file@[k] == '/';
        assert(file@[k] != '/');
    }
    vstd::pervasive::unreached()
}

} // verus!
