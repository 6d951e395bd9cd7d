use dream::image_loader::{dynamic_image_from_bytes, try_dynamic_image_from_bytes};
use image::{ImageFormat, RgbaImage};

fn encoded(format: ImageFormat) -> Vec<u8> {
    let mut img = RgbaImage::new(2, 3);
    img.put_pixel(1, 2, image::Rgba([10, 20, 30, 255]));
    let dynamic = image::DynamicImage::ImageRgba8(img);
    let dynamic = if format == ImageFormat::Jpeg { image::DynamicImage::ImageRgb8(dynamic.to_rgb8()) } else { dynamic };
    let mut bytes = std::io::Cursor::new(Vec::new());
    dynamic.write_to(&mut bytes, format).unwrap();
    bytes.into_inner()
}

#[test]
fn png_decodes_with_and_without_mime() {
    let png = encoded(ImageFormat::Png);
    let a = dynamic_image_from_bytes(&png, "tex", None);
    assert_eq!((a.width(), a.height()), (2, 3));
    let b = dynamic_image_from_bytes(&png, "tex", Some("image/png".to_string()));
    assert_eq!(b.to_rgba8().get_pixel(1, 2).0, [10, 20, 30, 255]);
}

#[test]
fn jpeg_decodes_as_jpeg() {
    let jpg = encoded(ImageFormat::Jpeg);
    let img = try_dynamic_image_from_bytes(&jpg, "tex", Some("image/jpeg".to_string())).unwrap();
    assert_eq!((img.width(), img.height()), (2, 3));
}

#[test]
fn wrong_or_unsupported_mime_gives_none() {
    let png = encoded(ImageFormat::Png);
    assert!(try_dynamic_image_from_bytes(&png, "tex", Some("image/jpeg".to_string())).is_none());
    assert!(try_dynamic_image_from_bytes(&png, "tex", Some("image/gif".to_string())).is_none());
    assert!(try_dynamic_image_from_bytes(&[1, 2, 3], "tex", None).is_none());
    assert!(try_dynamic_image_from_bytes(&png, "tex", Some("image/png".to_string())).is_some());
}

#[test]
fn decoded_image_is_what_the_decoder_gives() {
    let png = encoded(ImageFormat::Png);
    let expected = image::load_from_memory_with_format(&png, ImageFormat::Png).unwrap();
    assert_eq!(dynamic_image_from_bytes(&png, "tex", Some("image/png".to_string())), expected);
    assert_eq!(dynamic_image_from_bytes(&png, "tex", None), image::load_from_memory(&png).unwrap());
    let jpg = encoded(ImageFormat::Jpeg);
    let expected = image::load_from_memory_with_format(&jpg, ImageFormat::Jpeg).unwrap();
    assert_eq!(try_dynamic_image_from_bytes(&jpg, "tex", Some("image/jpeg".to_string())), Some(expected));
}
