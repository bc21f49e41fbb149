use vstd::prelude::*;

verus! {

/// The RGBA pixels (four bytes per pixel, row by row), width and height of
/// the image that the file bytes decode to, or `None` when the bytes are no
/// image the decoder knows.
pub uninterp spec fn decoded_rgba(bytes: Seq<u8>) -> Option<(Seq<u8>, u32, u32)>;

/// Decodes image file bytes with `image::load_from_memory` and converts the
/// picture to 8-bit RGBA with `DynamicImage::to_rgba8`.  The contract claims
/// only that the pixels and size returned are `decoded_rgba` of the bytes,
/// and `None` exactly when the decoder reports an error.
#[verifier::external_body]
fn decode_rgba(bytes: &[u8]) -> (r: Option<(Vec<u8>, u32, u32)>)
    ensures
        match r {
            Some((pixels, width, height)) => decoded_rgba(bytes@) == Some((pixels@, width, height)),
            None => decoded_rgba(bytes@) is None,
        },
{
    match image::load_from_memory(bytes) {
        Ok(picture) => {
            let rgba = picture.to_rgba8();
            let (width, height) = rgba.dimensions();
            Some((rgba.into_raw(), width, height))
        },
        Err(_) => None,
    }
}

/// A picture ready to be copied into a texture: its RGBA pixels, its size,
/// and the copy layout (bytes per row and rows per image).
pub struct TextureImage {
    pub pixels: Vec<u8>,
    pub width: u32,
    pub height: u32,
    pub bytes_per_row: u32,
    pub rows_per_image: u32,
}

/// Loads a texture picture from image file bytes: the decoded RGBA pixels
/// and size, with rows of four bytes per pixel and one image of `height`
/// rows.  `None` when the bytes do not decode or a row's byte count does not
/// fit in 32 bits.
pub fn texture_image(bytes: &[u8]) -> (r: Option<TextureImage>)
    ensures
        match decoded_rgba(bytes@) {
            Some((pixels, width, height)) => if 4 * width <= u32::MAX {
                r matches Some(t) && t.pixels@ == pixels && t.width == width && t.height == height
                    && t.bytes_per_row == 4 * width && t.rows_per_image == height
            } else {
                r is None
            },
            None => r is None,
        },
{
    match decode_rgba(bytes) {
        Some((pixels, width, height)) => {
            if width <= u32::MAX / 4 {
                Some(
                    TextureImage {
                        pixels,
                        width,
                        height,
                        bytes_per_row: 4 * width,
                        rows_per_image: height,
                    },
                )
            } else {
                None
            }
        },
        None => None,
    }
}

} // verus!
