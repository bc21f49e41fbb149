use dem_sim::texture::texture_image;
use std::io::Cursor;

fn png_bytes(width: u32, height: u32) -> (Vec<u8>, Vec<u8>) {
    let mut img = image::RgbaImage::new(width, height);
    for (x, y, p) in img.enumerate_pixels_mut() {
        *p = image::Rgba([x as u8, y as u8, (x + y) as u8, 255]);
    }
    let raw = img.clone().into_raw();
    let mut out = Cursor::new(Vec::new());
    image::DynamicImage::ImageRgba8(img)
        .write_to(&mut out, image::ImageOutputFormat::Png)
        .unwrap();
    (out.into_inner(), raw)
}

#[test]
fn decodes_png_into_rgba_rows() {
    let (file, raw) = png_bytes(2, 3);
    let t = texture_image(&file).unwrap();
    assert_eq!(t.width, 2);
    assert_eq!(t.height, 3);
    assert_eq!(t.bytes_per_row, 8);
    assert_eq!(t.rows_per_image, 3);
    assert_eq!(t.pixels, raw);
    assert_ne!(t.pixels, file);
}

#[test]
fn rejects_bytes_that_are_no_image() {
    assert!(texture_image(&[1, 2, 3, 4, 5]).is_none());
    assert!(texture_image(&[]).is_none());
}
