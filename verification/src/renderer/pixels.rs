//! Texture images: the pixels of an encoded image, decoded into the form
//! in which the device takes them.

use vstd::prelude::*;

verus! {

/// The bytes of one pixel: red, green and blue.
pub const PIXEL_BYTES: u64 = 3;

/// The format of an encoded image, as the decoding crate names it.
#[verifier::external_type_specification]
#[verifier::external_body]
pub struct ExImageFormat(image::ImageFormat);

/// A decoded image of any pixel type, as the decoding crate holds it.
#[verifier::external_type_specification]
#[verifier::external_body]
pub struct ExDynamicImage(image::DynamicImage);

/// Why an encoded image gave no texture image.
#[derive(Debug, PartialEq, Eq)]
pub enum TextureError {
    /// The extension names no format that the decoder knows.
    UnknownFormat,
    /// The decoder rejected the bytes; its report is kept.
    Decode(String),
    /// A side is longer than the device can be told.
    TooLarge,
    /// There are fewer bytes than the sides ask for.
    Truncated,
}

impl TextureError {
    /// The words in which the fault is reported.
    pub fn message(&self) -> (message: String)
        ensures
            message@ == match self {
                TextureError::UnknownFormat => "The image format could not be determined"@,
                TextureError::Decode(report) => report@,
                TextureError::TooLarge => "The image is too large"@,
                TextureError::Truncated => "The image has too few bytes"@,
            },
    {
        match self {
            TextureError::UnknownFormat => String::from_str(
                "The image format could not be determined",
            ),
            TextureError::Decode(report) => report.clone(),
            TextureError::TooLarge => String::from_str("The image is too large"),
            TextureError::Truncated => String::from_str("The image has too few bytes"),
        }
    }
}

/// The bytes of an image of the given sides.
pub open spec fn byte_len(width: u32, height: u32) -> int {
    width * height * PIXEL_BYTES
}

/// An image as the device takes it: rows from the bottom up, three bytes a
/// pixel, and sides that fit a signed 32-bit integer.
#[derive(Debug, PartialEq, Eq)]
pub struct TextureImage {
    width: u32,
    height: u32,
    pixels: Vec<u8>,
}

impl TextureImage {
    /// The number of pixels in a row.
    pub closed spec fn spec_width(&self) -> u32 {
        self.width
    }

    /// The number of rows.
    pub closed spec fn spec_height(&self) -> u32 {
        self.height
    }

    /// The bytes of the pixels, row after row.
    pub closed spec fn spec_pixels(&self) -> Seq<u8> {
        self.pixels@
    }

    /// The sides fit a signed 32-bit integer, and there is a byte for every
    /// channel of every pixel and none besides.
    #[verifier::type_invariant]
    pub open spec fn well_formed(&self) -> bool {
        &&& self.spec_width() <= i32::MAX
        &&& self.spec_height() <= i32::MAX
        &&& self.spec_pixels().len() == byte_len(self.spec_width(), self.spec_height())
    }

    /// The image of the given sides whose pixels are the first bytes of
    /// `pixels`, as many as the sides ask for.
    pub fn new(width: u32, height: u32, pixels: Vec<u8>) -> (image: Result<TextureImage, TextureError>)
        ensures
            match image {
                Ok(image) => {
                    &&& width <= i32::MAX && height <= i32::MAX
                    &&& byte_len(width, height) <= pixels.len()
                    &&& image.spec_width() == width
                    &&& image.spec_height() == height
                    &&& image.spec_pixels() == pixels@.take(byte_len(width, height))
                    &&& image.well_formed()
                },
                Err(TextureError::TooLarge) => width > i32::MAX || height > i32::MAX,
                Err(TextureError::Truncated) => {
                    &&& width <= i32::MAX && height <= i32::MAX
                    &&& byte_len(width, height) > pixels.len()
                },
                Err(_) => false,
            },
    {
        if width > i32::MAX as u32 || height > i32::MAX as u32 {
            return Err(TextureError::TooLarge);
        }
        assert(width * height <= 0x7fff_ffff * 0x7fff_ffff) by (nonlinear_arith)
            requires
                width <= 0x7fff_ffff,
                height <= 0x7fff_ffff,
        ;
        let needed: u64 = width as u64 * height as u64 * PIXEL_BYTES;
        if needed > pixels.len() as u64 {
            return Err(TextureError::Truncated);
        }
        let mut pixels = pixels;
        pixels.truncate(needed as usize);
        Ok(TextureImage { width, height, pixels })
    }

    pub fn width(&self) -> (width: u32)
        ensures
            width == self.spec_width(),
            width <= i32::MAX,
    {
        proof {
            use_type_invariant(self);
        }
        self.width
    }

    pub fn height(&self) -> (height: u32)
        ensures
            height == self.spec_height(),
            height <= i32::MAX,
    {
        proof {
            use_type_invariant(self);
        }
        self.height
    }

    pub fn pixels(&self) -> (pixels: &Vec<u8>)
        ensures
            pixels@ == self.spec_pixels(),
            pixels.len() == byte_len(self.spec_width(), self.spec_height()),
    {
        proof {
            use_type_invariant(self);
        }
        &self.pixels
    }
}

/// An ASCII capital letter as its small letter, any other character as it
/// is.
pub open spec fn ascii_lower(c: char) -> char {
    if 'A' <= c <= 'Z' {
        ((c as u8) + 32) as char
    } else {
        c
    }
}

/// Whether a file extension names an image format: the extensions that the
/// decoding crate knows, read without regard to the case of ASCII letters.
pub open spec fn names_format(extension: Seq<char>) -> bool {
    let ext = extension.map_values(|c: char| ascii_lower(c));
    ||| ext == "avif"@
    ||| ext == "jpg"@
    ||| ext == "jpeg"@
    ||| ext == "jfif"@
    ||| ext == "png"@
    ||| ext == "apng"@
    ||| ext == "gif"@
    ||| ext == "webp"@
    ||| ext == "tif"@
    ||| ext == "tiff"@
    ||| ext == "tga"@
    ||| ext == "dds"@
    ||| ext == "bmp"@
    ||| ext == "ico"@
    ||| ext == "hdr"@
    ||| ext == "exr"@
    ||| ext == "pbm"@
    ||| ext == "pam"@
    ||| ext == "ppm"@
    ||| ext == "pgm"@
    ||| ext == "pnm"@
    ||| ext == "ff"@
    ||| ext == "qoi"@
}

/// `ImageFormat::from_extension` of the decoding crate: the format that a
/// file extension stands for. Claimed of it: there is a format exactly for
/// the extensions of `names_format`, which is the table in the crate's
/// source. Which format it is, is not stated.
#[verifier::external_body]
fn format_of(extension: &str) -> (format: Option<image::ImageFormat>)
    ensures
        format is Some <==> names_format(extension@),
{
    image::ImageFormat::from_extension(extension)
}

/// `load_from_memory_with_format` of the decoding crate: the image that the
/// bytes encode in the given format, or the crate's report of why they
/// encode none. Nothing is claimed of the result.
#[verifier::external_body]
fn load(bytes: &[u8], format: image::ImageFormat) -> (loaded: Result<image::DynamicImage, String>) {
    image::load_from_memory_with_format(bytes, format).map_err(|e| e.to_string())
}

/// `DynamicImage::apply_orientation` of the decoding crate, with the
/// orientation that turns the image upside down. Nothing is claimed of the
/// image afterwards.
#[verifier::external_body]
fn flip_vertical(image: &mut image::DynamicImage) {
    image.apply_orientation(image::metadata::Orientation::FlipVertical)
}

/// `DynamicImage::into_rgb8` of the decoding crate: the image with three
/// bytes a pixel, taken apart into its width, its height and its bytes.
/// Nothing is claimed of the result.
#[verifier::external_body]
fn into_rgb8(image: image::DynamicImage) -> (parts: (u32, u32, Vec<u8>)) {
    let rgb = image.into_rgb8();
    (rgb.width(), rgb.height(), rgb.into_raw())
}

/// Decodes an image for the device: the bytes are read in the format that
/// the extension names, the image is turned upside down, for the device
/// counts rows from the bottom, and brought to three bytes a pixel.
///
/// An extension that names no format gives `UnknownFormat`, and nothing
/// else does. What the decoder makes of the bytes is its own affair, and
/// may differ with the vector units of the machine; whatever it hands
/// back, an image that is returned has sides that the device can be told
/// and exactly the bytes that they ask for.
pub fn decode_texture(bytes: &[u8], extension: &str) -> (decoded: Result<
    TextureImage,
    TextureError,
>)
    ensures
        decoded matches Err(TextureError::UnknownFormat) <==> !names_format(extension@),
        decoded matches Ok(image) ==> image.well_formed(),
{
    let format = match format_of(extension) {
        Some(format) => format,
        None => {
            return Err(TextureError::UnknownFormat);
        },
    };
    let mut image = match load(bytes, format) {
        Ok(image) => image,
        Err(report) => {
            return Err(TextureError::Decode(report));
        },
    };
    flip_vertical(&mut image);
    let (width, height, pixels) = into_rgb8(image);
    TextureImage::new(width, height, pixels)
}

} // verus!
