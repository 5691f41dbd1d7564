//! Texture decoding: encoded image bytes (PNG or JPEG) turned into RGBA8
//! texels, with the mip levels the texture gets.
use vstd::prelude::*;
use crate::asset::Texture;
use crate::handles::ImageHandle;
use crate::upload::mip_level_count;

verus! {

/// What decoding `bytes` and converting the image to eight-bit RGBA gives:
/// its width, its height and its texels, row by row, four bytes each; no
/// value when the bytes are no image the decoder reads.
pub uninterp spec fn decoded_rgba8(bytes: Seq<u8>) -> Option<(u32, u32, Seq<u8>)>;

/// `image::load_from_memory`, then `DynamicImage::to_rgba8`: the decoded
/// image as eight-bit RGBA texels, or nothing when decoding fails. The
/// texel buffer is built for the image's width and height, four bytes per
/// texel. What the decoder gives for given bytes is named, not stated; the
/// JPEG decoder is built with its `platform_independent` feature, so that
/// its result depends on the bytes alone and not on the machine's SIMD
/// support.
#[verifier::external_body]
fn decode_rgba8(bytes: &[u8]) -> (r: Option<(u32, u32, Vec<u8>)>)
    ensures
        r matches Some(d) ==> decoded_rgba8(bytes@) == Some((d.0, d.1, d.2@)),
        r matches Some(d) ==> d.2@.len() == d.0 * d.1 * 4,
        r is None ==> decoded_rgba8(bytes@) is None,
{
    match image::load_from_memory(bytes) {
        Ok(img) => {
            let rgba = img.to_rgba8();
            Some((rgba.width(), rgba.height(), rgba.into_raw()))
        },
        Err(_) => None,
    }
}

/// A decoded texture: its extent, its RGBA8 texels and its mip levels.
pub struct TextureData {
    pub width: u32,
    pub height: u32,
    pub pixels: Vec<u8>,
    pub mip_levels: u32,
}

/// The texture made from decoded RGBA8 texels: the mip chain halves the
/// larger side down to one texel.
pub fn texture_from_rgba8(width: u32, height: u32, pixels: Vec<u8>) -> (r: TextureData)
    ensures
        r.width == width,
        r.height == height,
        r.pixels@ == pixels@,
        r.mip_levels == crate::upload::mip_level_count_spec(width, height),
{
    let mip_levels = mip_level_count(width, height);
    TextureData { width, height, pixels, mip_levels }
}

/// Decodes a texture from encoded image bytes: `None` when the bytes are
/// no image the decoder reads.
pub fn decode_texture(bytes: &[u8]) -> (r: Option<TextureData>)
    ensures
        decoded_rgba8(bytes@) is None ==> r is None,
        decoded_rgba8(bytes@) matches Some(d) ==> (r matches Some(t) && {
            &&& t.width == d.0
            &&& t.height == d.1
            &&& t.pixels@ == d.2
            &&& t.pixels@.len() == t.width * t.height * 4
            &&& t.mip_levels == crate::upload::mip_level_count_spec(d.0, d.1)
        }),
{
    match decode_rgba8(bytes) {
        Some((width, height, pixels)) => Some(texture_from_rgba8(width, height, pixels)),
        None => None,
    }
}

/// The texture that the GPU image `image`, loaded from `data`, stands
/// for: it reports the decoded width and height.
pub fn texture_for_image(image: ImageHandle, data: &TextureData) -> (r: Texture)
    ensures
        r.handle() == image,
        r.spec_width() == data.width,
        r.spec_height() == data.height,
{
    Texture::new(image, data.width, data.height)
}

/// The width of the image that `bytes` decode to (0 when they decode to
/// none).
pub open spec fn decoded_width(bytes: Seq<u8>) -> u32 {
    match decoded_rgba8(bytes) {
        Some(d) => d.0,
        None => 0,
    }
}

/// The height of the image that `bytes` decode to (0 when they decode to
/// none).
pub open spec fn decoded_height(bytes: Seq<u8>) -> u32 {
    match decoded_rgba8(bytes) {
        Some(d) => d.1,
        None => 0,
    }
}

/// Law: a texture made from decoded image bytes reports the width and the
/// height of the decoded image, the width as its width and the height as
/// its height.
pub proof fn lemma_texture_reports_decoded_size(bytes: Seq<u8>, data: TextureData, t: Texture)
    requires
        decoded_rgba8(bytes) is Some,
        data.width == decoded_width(bytes),
        data.height == decoded_height(bytes),
        t.spec_width() == data.width,
        t.spec_height() == data.height,
    ensures
        t.spec_width() == decoded_width(bytes),
        t.spec_height() == decoded_height(bytes),
{
}

} // verus!
