//! Textures on the GPU, and the asset manager that keeps the textures a
//! model's images were loaded into.
use vstd::prelude::*;
use crate::handles::{ImageHandle, MeshHandle};
use crate::names::NameTable;
use crate::draw::MaterialTextures;

verus! {

/// Texture, stored on the GPU.
#[derive(Clone, Copy, Debug)]
pub struct Texture {
    image_handle: ImageHandle,
    width: u32,
    height: u32,
}

impl Texture {
    /// The image that holds the texture.
    pub closed spec fn handle(&self) -> ImageHandle {
        self.image_handle
    }

    /// The texture's width in pixels.
    pub closed spec fn spec_width(&self) -> u32 {
        self.width
    }

    /// The texture's height in pixels.
    pub closed spec fn spec_height(&self) -> u32 {
        self.height
    }

    /// A texture of the given size held by `image_handle`.
    pub fn new(image_handle: ImageHandle, width: u32, height: u32) -> (r: Self)
        ensures
            r.handle() == image_handle,
            r.spec_width() == width,
            r.spec_height() == height,
    {
        Texture { image_handle, width, height }
    }

    /// The texture's width in pixels.
    pub fn width(&self) -> (r: u32)
        ensures
            r == self.spec_width(),
    {
        self.width
    }

    /// The texture's height in pixels.
    pub fn height(&self) -> (r: u32)
        ensures
            r == self.spec_height(),
    {
        self.height
    }
}

impl From<Texture> for ImageHandle {
    fn from(tex: Texture) -> (r: ImageHandle) {
        tex.image_handle
    }
}

impl vstd::std_specs::convert::FromSpecImpl<Texture> for ImageHandle {
    open spec fn obeys_from_spec() -> bool {
        true
    }

    open spec fn from_spec(tex: Texture) -> ImageHandle {
        tex.handle()
    }
}

/// A model loaded from a file: its mesh and the textures of its material.
#[derive(Clone, Copy, Debug)]
pub struct Model {
    pub mesh: MeshHandle,
    pub textures: MaterialTextures,
}

/// Keeps the texture that each image of a model file was loaded into, by the
/// image's URI.
pub struct AssetManager {
    loaded_textures: NameTable<Texture>,
}

/// The image of the texture that `uri` names, when it names one.
pub open spec fn texture_slot(textures: Map<Seq<char>, Texture>, uri: Option<Seq<char>>) -> Option<ImageHandle> {
    match uri {
        Some(u) => Some(textures[u].handle()),
        None => None,
    }
}

/// A material texture is either absent or was loaded.
pub open spec fn uri_loaded(textures: Map<Seq<char>, Texture>, uri: Option<Seq<char>>) -> bool {
    match uri {
        Some(u) => textures.contains_key(u),
        None => true,
    }
}

/// The view of an optional URI.
pub open spec fn uri_view(uri: Option<&str>) -> Option<Seq<char>> {
    match uri {
        Some(u) => Some(u@),
        None => None,
    }
}

impl AssetManager {
    /// The loaded textures by URI.
    pub closed spec fn textures(&self) -> Map<Seq<char>, Texture> {
        self.loaded_textures.view()
    }

    /// Well-formedness: each URI has one texture.
    pub closed spec fn wf(&self) -> bool {
        self.loaded_textures.wf()
    }

    /// A manager with no texture loaded.
    pub fn new() -> (r: Self)
        ensures
            r.wf(),
            r.textures() =~= Map::empty(),
    {
        AssetManager { loaded_textures: NameTable::new() }
    }

    /// The texture loaded for `uri`, if any.
    pub fn loaded_texture(&self, uri: &str) -> (r: Option<Texture>)
        requires
            self.wf(),
        ensures
            r == (if self.textures().contains_key(uri@) {
                Some(self.textures()[uri@])
            } else {
                None::<Texture>
            }),
    {
        self.loaded_textures.get(uri)
    }

    /// Records the outcome of loading the image at `uri`: a texture that
    /// loaded replaces what `uri` had; a failed load changes nothing.
    pub fn record_image(&mut self, uri: &str, loaded: Option<Texture>)
        requires
            old(self).wf(),
        ensures
            final(self).wf(),
            final(self).textures() == (match loaded {
                Some(t) => old(self).textures().insert(uri@, t),
                None => old(self).textures(),
            }),
    {
        if let Some(t) = loaded {
            self.loaded_textures.insert(uri, t);
        }
    }

    /// The material textures of a primitive whose material names the images
    /// at the given URIs (or no image), each of which was loaded.
    pub fn material_textures(
        &self,
        diffuse: Option<&str>,
        normal: Option<&str>,
        metallic_roughness: Option<&str>,
        emissive: Option<&str>,
    ) -> (r: MaterialTextures)
        requires
            self.wf(),
            uri_loaded(self.textures(), uri_view(diffuse)),
            uri_loaded(self.textures(), uri_view(normal)),
            uri_loaded(self.textures(), uri_view(metallic_roughness)),
            uri_loaded(self.textures(), uri_view(emissive)),
        ensures
            r.diffuse == texture_slot(self.textures(), uri_view(diffuse)),
            r.normal == texture_slot(self.textures(), uri_view(normal)),
            r.metallic_roughness == texture_slot(self.textures(), uri_view(metallic_roughness)),
            r.emissive == texture_slot(self.textures(), uri_view(emissive)),
            r.occlusion.is_none(),
    {
        MaterialTextures {
            diffuse: self.loaded_image(diffuse),
            normal: self.loaded_image(normal),
            metallic_roughness: self.loaded_image(metallic_roughness),
            emissive: self.loaded_image(emissive),
            occlusion: None,
        }
    }

    fn loaded_image(&self, uri: Option<&str>) -> (r: Option<ImageHandle>)
        requires
            self.wf(),
            uri_loaded(self.textures(), uri_view(uri)),
        ensures
            r == texture_slot(self.textures(), uri_view(uri)),
    {
        match uri {
            Some(u) => {
                match self.loaded_texture(u) {
                    Some(t) => Some(ImageHandle::from(t)),
                    None => None,
                }
            },
            None => None,
        }
    }
}

} // verus!
