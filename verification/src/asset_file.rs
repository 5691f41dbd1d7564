//! The packed asset file and the texture description it carries.
//!
//! The file operations are declared but have no implementation yet: each one
//! stops the program. Their preconditions can therefore never be met, and no
//! verified caller can reach them.
use vstd::prelude::*;

verus! {

/// An asset as stored on disk: a four-character type tag, a format version,
/// a JSON header and a binary payload.
pub struct AssetFile {
    pub file_type: [char; 4],
    pub version: i32,
    pub json: String,
    pub binary_blob: Vec<char>,
}

/// The pixel format of a packed texture.
#[derive(Clone, Copy, PartialEq, Eq, Structural, Debug)]
pub enum TextureFormat {
    Unknown,
    RGBA8,
}

/// What the JSON header of a texture asset describes.
pub struct TextureInfo {
    pub size: u64,
    pub format: TextureFormat,
    pub pixel_size: [u32; 3],
    pub original_file: String,
}

/// Whether the asset file operations have an implementation. They have none
/// yet, so this holds of no state and the operations cannot be called.
pub open spec fn asset_operations_implemented() -> bool {
    false
}

/// The error an asset file operation reports.
#[derive(Clone, Copy, PartialEq, Eq, Structural, Debug)]
pub struct AssetError {}

impl AssetFile {
    /// Writes the asset to `path`. Not implemented: never returns.
    pub fn save_binary_file(&self, path: &str) -> (r: Result<(), AssetError>)
        requires
            asset_operations_implemented(),
    {
        vstd::pervasive::unreached()
    }

    /// Reads an asset from `path`. Not implemented: never returns.
    pub fn load_binary_file(path: &str) -> (r: Result<AssetFile, AssetError>)
        requires
            asset_operations_implemented(),
    {
        vstd::pervasive::unreached()
    }
}

impl TextureInfo {
    /// Reads the texture description from the header of `asset_file`.
    /// Not implemented: never returns.
    pub fn read_texture_info(asset_file: AssetFile) -> (r: TextureInfo)
        requires
            asset_operations_implemented(),
    {
        vstd::pervasive::unreached()
    }

    /// Unpacks the texture's pixels. Not implemented: never returns.
    pub fn unpack_texture(&self)
        requires
            asset_operations_implemented(),
    {
        vstd::pervasive::unreached()
    }

    /// Packs the texture into an asset file. Not implemented: never returns.
    pub fn pack_texture(&self) -> (r: AssetFile)
        requires
            asset_operations_implemented(),
    {
        vstd::pervasive::unreached()
    }
}

} // verus!
