use image::{DynamicImage, Rgb, RgbImage};
use poster_maker::paths::AppError;
use poster_maker::raster::{decode_image, encode_tile_jpeg, raster_for_items, read_image_size, Raster};

fn png_bytes(image: &RgbImage) -> Vec<u8> {
    let mut bytes = Vec::new();
    DynamicImage::ImageRgb8(image.clone())
        .write_to(&mut std::io::Cursor::new(&mut bytes), image::ImageFormat::Png)
        .unwrap();
    bytes
}

fn sample() -> RgbImage {
    RgbImage::from_fn(3, 2, |x, y| Rgb([x as u8 * 10, y as u8 * 100, 7]))
}

#[test]
fn image_size_comes_from_the_header() {
    let bytes = png_bytes(&RgbImage::from_pixel(200, 100, Rgb([240, 120, 40])));
    assert_eq!(read_image_size(&bytes, "/p/a.png").unwrap(), (200, 100));
    // The content decides when it shows a format, whatever the extension says.
    assert_eq!(read_image_size(&bytes, "/p/a.jpg").unwrap(), (200, 100));
    assert_eq!(read_image_size(&bytes, "/p/a").unwrap(), (200, 100));
    assert!(matches!(read_image_size(b"not an image", "/p/a"), Err(AppError::Image(_))));
    assert!(matches!(read_image_size(b"not an image", "/p/a.png"), Err(AppError::Image(_))));
    assert!(matches!(read_image_size(b"", "/p/a.bmp"), Err(AppError::Image(_))));
}

#[test]
fn decoding_by_extension() {
    let source = sample();
    let bytes = png_bytes(&source);
    let raster = decode_image(&bytes, "/pictures/photo.png").unwrap();
    assert_eq!((raster.width, raster.height), (3, 2));
    assert_eq!(raster.pixels, source.into_raw());
    assert!(matches!(decode_image(&bytes, "/pictures/photo"), Err(AppError::Image(_))));
    assert!(matches!(decode_image(&bytes, "/pictures/photo.jpg"), Err(AppError::Image(_))));
    assert!(matches!(decode_image(b"junk", "/pictures/photo.png"), Err(AppError::Image(_))));
}

#[test]
fn raster_needs_three_bytes_per_pixel() {
    assert!(Raster::new(2, 1, vec![0; 6]).is_some());
    assert!(Raster::new(2, 1, vec![0; 5]).is_none());
    assert!(Raster::new(0, 0, Vec::new()).is_some());
}

#[test]
fn turning_for_items() {
    let source = sample();
    let raster = Raster::new(3, 2, source.clone().into_raw()).unwrap();
    let same = raster_for_items(&raster, false);
    assert_eq!((same.width, same.height, &same.pixels), (3, 2, &raster.pixels));
    let turned = raster_for_items(&raster, true);
    assert_eq!((turned.width, turned.height), (2, 3));
    let expected = image::imageops::rotate90(&source);
    assert_eq!(turned.pixels, expected.into_raw());
    // Pixel (x, y) of the turned image is pixel (y, height - 1 - x) of the source.
    let at = |r: &Raster, x: u32, y: u32| {
        let i = 3 * (y * r.width + x) as usize;
        r.pixels[i..i + 3].to_vec()
    };
    for x in 0..2 {
        for y in 0..3 {
            assert_eq!(at(&turned, x, y), at(&raster, y, 1 - x));
        }
    }
}

#[test]
fn tiles_are_jpeg_crops() {
    let source = RgbImage::from_pixel(40, 30, Rgb([200, 10, 10]));
    let raster = Raster::new(40, 30, source.into_raw()).unwrap();
    let jpeg = encode_tile_jpeg(&raster, 10, 5, 20, 10).unwrap();
    assert_eq!(&jpeg[..2], &[0xFF, 0xD8]);
    let decoded = image::load_from_memory(&jpeg).unwrap();
    assert_eq!((decoded.width(), decoded.height()), (20, 10));
    let clamped = encode_tile_jpeg(&raster, 30, 25, 20, 10).unwrap();
    let decoded = image::load_from_memory(&clamped).unwrap();
    assert_eq!((decoded.width(), decoded.height()), (10, 5));
}
