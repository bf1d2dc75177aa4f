//! The image that every scan reads: a fixed grid of RGB pixels.

use vstd::prelude::*;

verus! {

/// One pixel: red, green and blue channels of eight bits each.
#[derive(Clone, Copy, Debug, PartialEq, Eq, Structural)]
pub struct Rgb {
    pub r: u8,
    pub g: u8,
    pub b: u8,
}

/// What an image is, mathematically: its dimensions and its pixels, row by row.
pub struct ImageModel {
    pub width: nat,
    pub height: nat,
    pub pixels: Seq<Rgb>,
}

impl ImageModel {
    /// The model of `width * height` pixels whose samples are laid out row by
    /// row, three bytes (red, green, blue) for each pixel.
    pub open spec fn from_samples(width: nat, height: nat, samples: Seq<u8>) -> ImageModel {
        ImageModel {
            width,
            height,
            pixels: Seq::new(
                width * height,
                |i: int| Rgb { r: samples[3 * i], g: samples[3 * i + 1], b: samples[3 * i + 2] },
            ),
        }
    }

    /// The pixel in column `x` of row `y`.
    pub open spec fn pixel(self, x: int, y: int) -> Rgb {
        self.pixels[y * self.width + x]
    }

    pub open spec fn contains(self, x: int, y: int) -> bool {
        0 <= x < self.width && 0 <= y < self.height
    }
}

/// Whether a width, a height and a sample buffer make up an image: both
/// dimensions positive, and three samples for every pixel.
pub open spec fn is_valid_layout(width: nat, height: nat, samples: Seq<u8>) -> bool {
    width > 0 && height > 0 && samples.len() == 3 * (width * height)
}

/// Why an image could not be had.
#[derive(Clone, Copy, Debug, PartialEq, Eq, Structural)]
pub enum LoadError {
    /// The bytes are not an image that can be decoded, or decode to an empty grid.
    Decode,
    /// The encoded bytes could not be read; raised by whoever reads them.
    Io,
}

/// An immutable grid of pixels, at least one wide and one high.
pub struct Image {
    width: u32,
    height: u32,
    samples: Vec<u8>,
}

impl Image {
    #[verifier::type_invariant]
    spec fn inv(&self) -> bool {
        is_valid_layout(self.width as nat, self.height as nat, self.samples@)
    }
}

impl View for Image {
    type V = ImageModel;

    closed spec fn view(&self) -> ImageModel {
        ImageModel::from_samples(self.width as nat, self.height as nat, self.samples@)
    }
}

proof fn lemma_pixel_index(width: nat, height: nat, x: nat, y: nat)
    requires
        x < width,
        y < height,
    ensures
        y * width + x < width * height,
        3 * (y * width + x) + 2 < 3 * (width * height),
{
    assert(y * width + x < width * height) by (nonlinear_arith)
        requires
            x < width,
            y < height,
    ;
}

impl Image {
    /// Builds an image from its dimensions and its samples, three bytes (red,
    /// green, blue) for each pixel, row by row. `None` where a dimension is zero
    /// or the number of samples does not match.
    pub fn from_raw(width: u32, height: u32, samples: Vec<u8>) -> (r: Option<Image>)
        ensures
            r is Some <==> is_valid_layout(width as nat, height as nat, samples@),
            r matches Some(img) ==> img@ == ImageModel::from_samples(
                width as nat,
                height as nat,
                samples@,
            ),
    {
        if width == 0 || height == 0 {
            return None;
        }
        assert((width as u64) * (height as u64) <= u32::MAX * u32::MAX) by (nonlinear_arith);
        let pixels: u64 = width as u64 * height as u64;
        // The first test keeps `3 * pixels` from overflowing.
        if pixels > samples.len() as u64 / 3 || samples.len() as u64 != 3 * pixels {
            return None;
        }
        Some(Image { width, height, samples })
    }

    pub fn width(&self) -> (r: u32)
        ensures
            r == self@.width,
            r > 0,
    {
        proof {
            use_type_invariant(self);
        }
        self.width
    }

    pub fn height(&self) -> (r: u32)
        ensures
            r == self@.height,
            r > 0,
    {
        proof {
            use_type_invariant(self);
        }
        self.height
    }

    /// Width and height; always succeeds.
    pub fn dimensions(&self) -> (r: (u32, u32))
        ensures
            r.0 == self@.width,
            r.1 == self@.height,
            r.0 > 0,
            r.1 > 0,
    {
        (self.width(), self.height())
    }

    /// The pixel in column `x` of row `y`, which must lie inside the image.
    pub fn get_pixel(&self, x: u32, y: u32) -> (r: Rgb)
        requires
            self@.contains(x as int, y as int),
        ensures
            r == self@.pixel(x as int, y as int),
    {
        proof {
            use_type_invariant(self);
            lemma_pixel_index(self.width as nat, self.height as nat, x as nat, y as nat);
        }
        // The index stays below the buffer's length, so no step below overflows.
        let n: usize = self.samples.len();
        assert(3 * ((y as int) * (self.width as int) + (x as int)) + 2 < n);
        let i: usize = (y as usize) * (self.width as usize) + (x as usize);
        let base: usize = 3 * i;
        Rgb { r: self.samples[base], g: self.samples[base + 1], b: self.samples[base + 2] }
    }
}

/// What the `image` crate makes of an encoded image (PNG, JPEG, ...) whose
/// format it recognises by its leading magic bytes: its width, its height and
/// its samples as eight-bit RGB, row by row; `None` where the format is not
/// recognised or the bytes do not decode.
pub uninterp spec fn rgb8_decoding(bytes: Seq<u8>) -> Option<(u32, u32, Seq<u8>)>;

/// The image that `bytes` encode, where they decode to a non-empty grid.
pub open spec fn decoded_image(bytes: Seq<u8>) -> Option<ImageModel> {
    match rgb8_decoding(bytes) {
        Some((w, h, samples)) => if is_valid_layout(w as nat, h as nat, samples) {
            Some(ImageModel::from_samples(w as nat, h as nat, samples))
        } else {
            None
        },
        None => None,
    }
}

/// Relies on `image::guess_format`, which picks a built-in format from a fixed
/// table of magic bytes, on `image::load_from_memory_with_format`, which decodes
/// the bytes with that built-in decoder (no registered hook is consulted), and
/// on `DynamicImage::to_rgb8`, which turns the pixels into eight-bit RGB. So the
/// result depends on the bytes alone. Every error becomes `LoadError::Decode`.
#[verifier::external_body]
fn decode_rgb8(bytes: &[u8]) -> (r: Result<(u32, u32, Vec<u8>), LoadError>)
    ensures
        r is Ok <==> rgb8_decoding(bytes@) is Some,
        r matches Ok((w, h, samples)) ==> rgb8_decoding(bytes@) == Some((w, h, samples@)),
{
    let format = match ::image::guess_format(bytes) {
        Ok(format) => format,
        Err(_) => return Err(LoadError::Decode),
    };
    match ::image::load_from_memory_with_format(bytes, format) {
        Ok(img) => {
            let rgb = img.to_rgb8();
            Ok((rgb.width(), rgb.height(), rgb.into_raw()))
        },
        Err(_) => Err(LoadError::Decode),
    }
}

/// Decodes an encoded raster image into an RGB grid. Bytes that are not an
/// image, or that decode to an empty grid or to a sample buffer that does not
/// match the dimensions, are a `Decode` error.
pub fn load_image(bytes: &[u8]) -> (r: Result<Image, LoadError>)
    ensures
        r is Ok <==> decoded_image(bytes@) is Some,
        r matches Ok(img) ==> decoded_image(bytes@) == Some(img@),
        r is Err ==> r == Err::<Image, LoadError>(LoadError::Decode),
{
    match decode_rgb8(bytes) {
        Ok((width, height, samples)) => match Image::from_raw(width, height, samples) {
            Some(img) => Ok(img),
            None => Err(LoadError::Decode),
        },
        Err(_) => Err(LoadError::Decode),
    }
}

/// Checks that `(x, y)` lies inside the image; on success hands back the
/// image's width and height.
pub fn validate_coordinates(img: &Image, x: u32, y: u32) -> (r: Result<(u32, u32), ()>)
    ensures
        r is Ok <==> img@.contains(x as int, y as int),
        r matches Ok((w, h)) ==> w == img@.width && h == img@.height,
{
    let (width, height) = img.dimensions();
    if x >= width || y >= height {
        return Err(());
    }
    Ok((width, height))
}

} // verus!
