//! Decoded images as plain values, and the image work done on them: reading
//! the size from the file's bytes, decoding, turning a quarter clockwise, and
//! cropping a tile and encoding it as JPEG.
use vstd::prelude::*;
use crate::paths::AppError;
use vstd::string::StringExecFns;

verus! {

/// An image of `width` by `height` pixels, stored row by row from the top
/// left, three bytes (red, green, blue) per pixel.
pub struct Raster {
    pub width: u32,
    pub height: u32,
    pub pixels: Vec<u8>,
}

impl Raster {
    /// The pixel bytes are exactly three per pixel.
    pub open spec fn wf(&self) -> bool {
        self.pixels@.len() == 3 * (self.width as int) * (self.height as int)
    }

    /// Channel `k` of the pixel in column `x`, row `y`.
    pub open spec fn byte_at(&self, x: int, y: int, k: int) -> u8 {
        self.pixels@[3 * (y * self.width + x) + k]
    }

    /// A raster from its size and its pixel bytes, refused unless there are
    /// exactly three bytes per pixel.
    pub fn new(width: u32, height: u32, pixels: Vec<u8>) -> (r: Option<Raster>)
        ensures
            r is Some <==> pixels@.len() == 3 * (width as int) * (height as int),
            r matches Some(raster) ==> raster.width == width && raster.height == height
                && raster.pixels@ == pixels@,
    {
        let w: u128 = width as u128;
        let h: u128 = height as u128;
        assert(w * h <= 0xffff_ffff * 0xffff_ffffu128) by (nonlinear_arith)
            requires
                w <= 0xffff_ffff,
                h <= 0xffff_ffff,
        ;
        let area: u128 = w * h;
        let expected: u128 = 3 * area;
        assert(expected == 3 * (width as int) * (height as int)) by (nonlinear_arith)
            requires
                expected == 3 * area,
                area == w * h,
                w == width,
                h == height,
        ;
        if (pixels.len() as u128) == expected {
            Some(Raster { width, height, pixels })
        } else {
            None
        }
    }
}

/// What reading the header of the image file at `path`, holding `bytes`, gives
/// (the format named by the extension, replaced by the one its content shows
/// when that can be told): its width and height, or `None` when no format is
/// known or the header cannot be read.
pub uninterp spec fn image_size_of(bytes: Seq<u8>, path: Seq<char>) -> Option<(u32, u32)>;

/// What decoding the file `bytes` in the format named by the extension of
/// `path` gives, as RGB: width, height and pixel bytes, or `None` on failure.
pub uninterp spec fn decoded_image_of(bytes: Seq<u8>, path: Seq<char>) -> Option<(u32, u32, Seq<u8>)>;

/// What cropping the RGB image (`width`, `height`, `pixels`) to `w` by `h`
/// pixels at (`x`, `y`) and encoding the crop as a JPEG of the given `quality`
/// gives, or `None` when the encoder refuses it.
pub uninterp spec fn tile_jpeg_of(
    width: u32,
    height: u32,
    pixels: Seq<u8>,
    x: u32,
    y: u32,
    w: u32,
    h: u32,
    quality: u8,
) -> Option<Seq<u8>>;

/// The JPEG quality of the tiles.
pub open spec fn tile_quality() -> u8 {
    92
}

/// Calls `ImageReader::new` on the bytes, `set_format` with the format that
/// `ImageFormat::from_path` names for the path (when it names one, as
/// `ImageReader::open` does), `with_guessed_format` and `into_dimensions`.
/// Claimed: the size is what `image_size_of` names for the bytes and the path,
/// and an error comes exactly when the name gives `None`. The format
/// signatures and header layouts are not written out here; the format guess
/// also consults format hooks, of which none are registered.
#[verifier::external_body]
fn decode_image_size(bytes: &[u8], path: &str) -> (r: Result<(u32, u32), image::ImageError>)
    ensures
        r is Ok <==> image_size_of(bytes@, path@) is Some,
        r matches Ok(d) ==> image_size_of(bytes@, path@) == Some(d),
{
    let mut reader = image::ImageReader::new(std::io::Cursor::new(bytes));
    if let Ok(format) = image::ImageFormat::from_path(path) {
        reader.set_format(format);
    }
    match reader.with_guessed_format() {
        Ok(reader) => reader.into_dimensions(),
        Err(e) => Err(image::ImageError::IoError(e)),
    }
}

/// Calls `ImageFormat::from_path`, `load_from_memory_with_format` and
/// `DynamicImage::to_rgb8`, the same decoding that `image::open` does for a
/// file at `path` holding `bytes`. Claimed: the result is what
/// `decoded_image_of` names, and an error comes exactly when it gives `None`.
/// The decoders themselves are not written out here.
#[verifier::external_body]
fn decode_rgb(bytes: &[u8], path: &str) -> (r: Result<(u32, u32, Vec<u8>), image::ImageError>)
    ensures
        r is Ok <==> decoded_image_of(bytes@, path@) is Some,
        r matches Ok(d) ==> decoded_image_of(bytes@, path@) == Some((d.0, d.1, d.2@)),
{
    let format = image::ImageFormat::from_path(path)?;
    let rgb = image::load_from_memory_with_format(bytes, format)?.to_rgb8();
    Ok((rgb.width(), rgb.height(), rgb.into_raw()))
}

/// Calls `imageops::crop_imm` (which first clamps the crop to the image) and
/// `JpegEncoder::new_with_quality(.., quality).encode_image`. Claimed: the JPEG
/// is what `tile_jpeg_of` names for the raster, the crop and the quality, and
/// an error comes exactly when it gives `None`. The encoder is not written out
/// here.
#[verifier::external_body]
fn crop_encode_jpeg(raster: &Raster, x: u32, y: u32, w: u32, h: u32, quality: u8) -> (r: Result<
    Vec<u8>,
    image::ImageError,
>)
    requires
        raster.wf(),
    ensures
        r is Ok <==> tile_jpeg_of(raster.width, raster.height, raster.pixels@, x, y, w, h, quality)
            is Some,
        r matches Ok(v) ==> tile_jpeg_of(
            raster.width,
            raster.height,
            raster.pixels@,
            x,
            y,
            w,
            h,
            quality,
        ) == Some(v@),
{
    let image = image::RgbImage::from_raw(raster.width, raster.height, raster.pixels.clone())
        .expect("three bytes per pixel");
    let tile = image::imageops::crop_imm(&image, x, y, w, h).to_image();
    let mut jpeg = Vec::new();
    image::codecs::jpeg::JpegEncoder::new_with_quality(&mut jpeg, quality).encode_image(&tile)?;
    Ok(jpeg)
}

/// Calls `imageops::rotate90`. Claimed: the result is the raster turned a
/// quarter clockwise: its width is the old height, its height the old width,
/// and the pixel in column `x`, row `y` is the old pixel in column `y`, row
/// `height - 1 - x`, as the loop in `rotate90_in` puts each pixel.
#[verifier::external_body]
fn rotate_clockwise(raster: &Raster) -> (r: Raster)
    requires
        raster.wf(),
    ensures
        r.width == raster.height,
        r.height == raster.width,
        r.wf(),
        forall|x: int, y: int, k: int|
            0 <= x < r.width && 0 <= y < r.height && 0 <= k < 3 ==> #[trigger] r.byte_at(x, y, k)
                == raster.byte_at(y, raster.height - 1 - x, k),
{
    let image = image::RgbImage::from_raw(raster.width, raster.height, raster.pixels.clone())
        .expect("three bytes per pixel");
    let turned = image::imageops::rotate90(&image);
    Raster { width: turned.width(), height: turned.height(), pixels: turned.into_raw() }
}

/// The width and height of the image file at `path`, holding `bytes`, read
/// from its header: the format is guessed from the content, and otherwise
/// taken from the extension.
pub fn read_image_size(bytes: &[u8], path: &str) -> (r: Result<(u32, u32), AppError>)
    ensures
        r is Ok <==> image_size_of(bytes@, path@) is Some,
        r matches Ok(d) ==> image_size_of(bytes@, path@) == Some(d),
        r matches Err(e) ==> e is Image,
{
    match decode_image_size(bytes, path) {
        Ok(d) => Ok(d),
        Err(e) => Err(AppError::Image(e)),
    }
}

/// Whether a decoded image, as plain values, has three bytes per pixel.
pub open spec fn rgb_fits(d: (u32, u32, Seq<u8>)) -> bool {
    d.2.len() == 3 * (d.0 as int) * (d.1 as int)
}

/// The image file at `path`, holding `bytes`, decoded to RGB in the format its
/// extension names.
pub fn decode_image(bytes: &[u8], path: &str) -> (r: Result<Raster, AppError>)
    ensures
        r is Ok <==> (decoded_image_of(bytes@, path@) matches Some(d) && rgb_fits(d)),
        r matches Ok(raster) ==> raster.wf() && decoded_image_of(bytes@, path@) == Some(
            (raster.width, raster.height, raster.pixels@),
        ),
        r matches Err(e) ==> (decoded_image_of(bytes@, path@) is None <==> e is Image),
{
    match decode_rgb(bytes, path) {
        Err(e) => Err(AppError::Image(e)),
        Ok((width, height, pixels)) => match Raster::new(width, height, pixels) {
            Some(raster) => Ok(raster),
            None => Err(AppError::Message(String::from_str("Decoded image has an unexpected size"))),
        },
    }
}

/// The raster that is embedded for an imposition: the image itself, or the
/// image turned a quarter clockwise when the items are turned.
pub fn raster_for_items(raster: &Raster, item_rotated: bool) -> (r: Raster)
    requires
        raster.wf(),
    ensures
        r.wf(),
        !item_rotated ==> r.width == raster.width && r.height == raster.height && r.pixels@
            == raster.pixels@,
        item_rotated ==> r.width == raster.height && r.height == raster.width,
        item_rotated ==> forall|x: int, y: int, k: int|
            0 <= x < r.width && 0 <= y < r.height && 0 <= k < 3 ==> #[trigger] r.byte_at(x, y, k)
                == raster.byte_at(y, raster.height - 1 - x, k),
{
    if item_rotated {
        rotate_clockwise(raster)
    } else {
        let mut pixels: Vec<u8> = Vec::new();
        let mut i: usize = 0;
        while i < raster.pixels.len()
            invariant
                i <= raster.pixels@.len(),
                pixels@ == raster.pixels@.take(i as int),
            decreases raster.pixels@.len() - i,
        {
            pixels.push(raster.pixels[i]);
            i = i + 1;
            assert(pixels@ =~= raster.pixels@.take(i as int));
        }
        assert(raster.pixels@.take(i as int) =~= raster.pixels@);
        Raster { width: raster.width, height: raster.height, pixels }
    }
}

/// The JPEG of the `w` by `h` tile of `raster` at (`x`, `y`), at the tile
/// quality 92; the crop is first clamped to the raster.
pub fn encode_tile_jpeg(raster: &Raster, x: u32, y: u32, w: u32, h: u32) -> (r: Result<
    Vec<u8>,
    AppError,
>)
    requires
        raster.wf(),
    ensures
        r is Ok <==> tile_jpeg_of(
            raster.width,
            raster.height,
            raster.pixels@,
            x,
            y,
            w,
            h,
            92u8,
        ) is Some,
        r matches Ok(v) ==> tile_jpeg_of(
            raster.width,
            raster.height,
            raster.pixels@,
            x,
            y,
            w,
            h,
            92u8,
        ) == Some(v@),
        r matches Err(e) ==> e is Image,
{
    match crop_encode_jpeg(raster, x, y, w, h, 92) {
        Ok(v) => Ok(v),
        Err(e) => Err(AppError::Image(e)),
    }
}

} // verus!
