use std::io::Cursor;

use image::{ImageOutputFormat, Rgba, RgbaImage};
use jb_gfx::handles::ImageHandle;
use jb_gfx::texture::{decode_texture, texture_for_image, texture_from_rgba8};

fn png_bytes(width: u32, height: u32) -> (Vec<u8>, Vec<u8>) {
    let img = RgbaImage::from_fn(width, height, |x, y| Rgba([x as u8, y as u8, 7, 255]));
    let mut bytes = Vec::new();
    img.write_to(&mut Cursor::new(&mut bytes), ImageOutputFormat::Png).unwrap();
    (bytes, img.into_raw())
}

#[test]
fn decoding_a_png_gives_its_texels_and_mip_levels() {
    let (bytes, texels) = png_bytes(5, 3);
    let texture = decode_texture(&bytes).expect("a PNG decodes");
    assert_eq!((texture.width, texture.height), (5, 3));
    assert_eq!(texture.pixels, texels);
    assert_eq!(texture.pixels.len(), 5 * 3 * 4);
    assert_eq!(texture.mip_levels, 3);
}

#[test]
fn bytes_that_are_no_image_decode_to_nothing() {
    assert!(decode_texture(&[1, 2, 3, 4, 5]).is_none());
    assert!(decode_texture(&[]).is_none());
}

#[test]
fn decoded_texels_become_a_texture() {
    let texture = texture_from_rgba8(1024, 256, vec![0; 1024 * 256 * 4]);
    assert_eq!(texture.mip_levels, 11);
    assert_eq!(texture.pixels.len(), 1024 * 256 * 4);
}

#[test]
fn texture_reports_decoded_width_and_height() {
    let (bytes, _) = png_bytes(7, 2);
    let data = decode_texture(&bytes).unwrap();
    let image = ImageHandle { key: 0x1_0000_0009 };
    let texture = texture_for_image(image, &data);
    assert_eq!(texture.width(), 7);
    assert_eq!(texture.height(), 2);
    assert_eq!(texture.width(), texture.width());
    assert_eq!(ImageHandle::from(texture), image);
}
