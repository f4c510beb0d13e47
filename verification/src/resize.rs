//! The resize engine: decode an image, and resample it only if it does not
//! fit the box it is wanted for.
//!
//! Decoding is done by the `image` crate and resampling by
//! `fast_image_resize`. What they compute is taken on trust; which of them is
//! called, with what, and what is made of the answer is verified here.

use crate::cache::ImageData;
use crate::fit::{fits, plan_resize, scaled_height, scaled_width, ResizePlan};
use fast_image_resize::images::Image;
use fast_image_resize::{MulDiv, PixelType, ResizeOptions, Resizer};
use image::DynamicImage;
use vstd::prelude::*;
use vstd::string::StringExecFns;

verus! {

#[verifier::external_type_specification]
#[verifier::external_body]
pub struct ExDynamicImage(DynamicImage);

/// Why an image could not be delivered in the wanted size.
#[derive(Debug, Clone)]
pub enum ResizeFailure {
    /// The bytes are not an image in a supported format; the decoder's message.
    Decode(String),
    /// Premultiplying, resampling or unpremultiplying failed; the message.
    Resize(String),
}

/// A decoded image: the bytes it was decoded from, its native width and
/// height, and the pixels as the decoder produced them.
pub struct Decoded {
    bytes: Vec<u8>,
    width: u32,
    height: u32,
    image: DynamicImage,
}

impl Decoded {
    /// The bytes that the image was decoded from.
    pub closed spec fn source(&self) -> Seq<u8> {
        self.bytes@
    }

    /// Native width in pixels.
    pub closed spec fn spec_width(&self) -> u32 {
        self.width
    }

    /// Native height in pixels.
    pub closed spec fn spec_height(&self) -> u32 {
        self.height
    }

    /// Native width in pixels.
    #[verifier::when_used_as_spec(spec_width)]
    pub fn width(&self) -> (w: u32)
        ensures
            w == self.spec_width(),
    {
        self.width
    }

    /// Native height in pixels.
    #[verifier::when_used_as_spec(spec_height)]
    pub fn height(&self) -> (h: u32)
        ensures
            h == self.spec_height(),
    {
        self.height
    }
}

/// The native size of the image that the bytes encode, or `None` where the
/// decoder rejects them. This is a function of the bytes because nothing in
/// this library registers a decoding or format hook with the decoder.
pub uninterp spec fn decoded_size(bytes: Seq<u8>) -> Option<(u32, u32)>;

/// The pixels of the image that the bytes encode, as interleaved RGBA8, row
/// by row.
pub uninterp spec fn decoded_rgba(bytes: Seq<u8>) -> Seq<u8>;

/// RGBA8 pixels with the colour channels multiplied by the alpha channel.
pub uninterp spec fn premultiplied(pixels: Seq<u8>, width: u32, height: u32) -> Seq<u8>;

/// RGBA8 pixels of `width` by `height` filtered to `dst_width` by
/// `dst_height`, every channel alike.
pub uninterp spec fn resampled(
    pixels: Seq<u8>,
    width: u32,
    height: u32,
    dst_width: u32,
    dst_height: u32,
) -> Seq<u8>;

/// RGBA8 pixels with the colour channels divided by the alpha channel.
pub uninterp spec fn unpremultiplied(pixels: Seq<u8>, width: u32, height: u32) -> Seq<u8>;

/// `image::load_from_memory`: guesses the format and decodes. The result says
/// whether the bytes decode and, if so, to which width and height; the bytes
/// are kept beside the image.
#[verifier::external_body]
fn load_image(bytes: Vec<u8>) -> (loaded: Result<Decoded, String>)
    ensures
        loaded is Ok <==> decoded_size(bytes@) is Some,
        loaded matches Ok(decoded) ==> decoded.bytes@ == bytes@ && decoded_size(bytes@) == Some(
            (decoded.width, decoded.height),
        ),
{
    match image::load_from_memory(&bytes) {
        Ok(image) => Ok(Decoded { width: image.width(), height: image.height(), image, bytes }),
        Err(error) => Err(error.to_string()),
    }
}

/// `image::DynamicImage::to_rgba8` and `into_raw`: the pixels as interleaved
/// RGBA8, row by row. The buffer holds at least four bytes for each pixel.
#[verifier::external_body]
fn rgba_pixels(decoded: &Decoded) -> (pixels: Vec<u8>)
    ensures
        pixels@ == decoded_rgba(decoded.bytes@),
        pixels@.len() >= 4 * decoded.width * decoded.height,
{
    decoded.image.to_rgba8().into_raw()
}

/// `fast_image_resize::MulDiv::multiply_alpha_inplace` on an RGBA8 image:
/// multiplies the colour channels by the alpha channel. For this pixel type
/// and a buffer that is long enough the call does not fail. The buffer keeps
/// its length. All CPU extensions compute the same bytes.
#[verifier::external_body]
fn premultiply(pixels: Vec<u8>, width: u32, height: u32) -> (done: Result<Vec<u8>, String>)
    requires
        4 * width * height <= pixels@.len(),
    ensures
        done is Ok,
        done matches Ok(out) ==> out@ == premultiplied(pixels@, width, height),
        done matches Ok(out) ==> out@.len() == pixels@.len(),
{
    match Image::from_vec_u8(width, height, pixels, PixelType::U8x4) {
        Err(error) => Err(error.to_string()),
        Ok(mut image) => match MulDiv::default().multiply_alpha_inplace(&mut image) {
            Err(error) => Err(error.to_string()),
            Ok(()) => Ok(image.into_vec()),
        },
    }
}

/// `fast_image_resize::Resizer::resize` with the default filter and its own
/// alpha handling switched off, from an RGBA8 image of `width` by `height`
/// pixels into a new one of `dst_width` by `dst_height`, made by
/// `Image::new`. With both images of one pixel type the call does not fail.
/// The new buffer holds four bytes for each of its pixels; one that no vector
/// can hold is left out. All CPU extensions compute the same bytes.
#[verifier::external_body]
fn resample(
    pixels: Vec<u8>,
    width: u32,
    height: u32,
    dst_width: u32,
    dst_height: u32,
) -> (done: Result<Vec<u8>, String>)
    requires
        4 * width * height <= pixels@.len(),
        4 * dst_width * dst_height <= isize::MAX,
    ensures
        done is Ok,
        done matches Ok(out) ==> out@ == resampled(pixels@, width, height, dst_width, dst_height),
        done matches Ok(out) ==> out@.len() == 4 * dst_width * dst_height,
{
    match Image::from_vec_u8(width, height, pixels, PixelType::U8x4) {
        Err(error) => Err(error.to_string()),
        Ok(source) => {
            let mut target = Image::new(dst_width, dst_height, PixelType::U8x4);
            let options = ResizeOptions::new().use_alpha(false);
            match Resizer::new().resize(&source, &mut target, &options) {
                Err(error) => Err(error.to_string()),
                Ok(()) => Ok(target.into_vec()),
            }
        },
    }
}

/// `fast_image_resize::MulDiv::divide_alpha_inplace` on an RGBA8 image:
/// divides the colour channels by the alpha channel. For this pixel type and
/// a buffer that is long enough the call does not fail. The buffer keeps its
/// length. All CPU extensions compute the same bytes.
#[verifier::external_body]
fn unpremultiply(pixels: Vec<u8>, width: u32, height: u32) -> (done: Result<Vec<u8>, String>)
    requires
        4 * width * height <= pixels@.len(),
    ensures
        done is Ok,
        done matches Ok(out) ==> out@ == unpremultiplied(pixels@, width, height),
        done matches Ok(out) ==> out@.len() == pixels@.len(),
{
    match Image::from_vec_u8(width, height, pixels, PixelType::U8x4) {
        Err(error) => Err(error.to_string()),
        Ok(mut image) => match MulDiv::default().divide_alpha_inplace(&mut image) {
            Err(error) => Err(error.to_string()),
            Ok(()) => Ok(image.into_vec()),
        },
    }
}

/// Decodes the bytes of an image file and keeps them beside the image.
pub fn decode_image(bytes: Vec<u8>) -> (decoded: Result<Decoded, ResizeFailure>)
    ensures
        match decoded {
            Ok(image) => {
                &&& image.source() == bytes@
                &&& decoded_size(bytes@) == Some((image.width(), image.height()))
            },
            Err(failure) => decoded_size(bytes@) is None && failure is Decode,
        },
{
    match load_image(bytes) {
        Ok(image) => Ok(image),
        Err(message) => Err(ResizeFailure::Decode(message)),
    }
}

/// The destination buffer of a resampling would be larger than a vector can
/// be.
pub open spec fn too_large(dst_width: int, dst_height: int) -> bool {
    4 * dst_width * dst_height > isize::MAX
}

/// RGBA8 pixels resampled with correct handling of the alpha channel:
/// premultiplied, filtered to the new size, unpremultiplied.
pub open spec fn resampled_with_alpha(
    pixels: Seq<u8>,
    width: u32,
    height: u32,
    dst_width: u32,
    dst_height: u32,
) -> Seq<u8> {
    unpremultiplied(
        resampled(premultiplied(pixels, width, height), width, height, dst_width, dst_height),
        dst_width,
        dst_height,
    )
}

/// Resamples RGBA8 pixels to a new size with correct handling of the alpha
/// channel: premultiply, resample, unpremultiply. It fails only where the new
/// image would be too large.
fn resample_rgba(
    pixels: Vec<u8>,
    width: u32,
    height: u32,
    dst_width: u32,
    dst_height: u32,
) -> (done: Result<Vec<u8>, ResizeFailure>)
    requires
        4 * width * height <= pixels@.len(),
    ensures
        done is Err <==> too_large(dst_width as int, dst_height as int),
        match done {
            Ok(out) => {
                &&& out@ == resampled_with_alpha(pixels@, width, height, dst_width, dst_height)
                &&& out@.len() == 4 * dst_width * dst_height
            },
            Err(failure) => failure is Resize,
        },
{
    assert(dst_width * dst_height <= 0xffff_ffff * 0xffff_ffff) by (nonlinear_arith)
        requires
            dst_width <= 0xffff_ffff,
            dst_height <= 0xffff_ffff,
    ;
    let area: u128 = (dst_width as u128) * (dst_height as u128);
    let needed: u128 = 4 * area;
    assert(needed == 4 * dst_width * dst_height) by (nonlinear_arith)
        requires
            needed == 4 * area,
            area == dst_width * dst_height,
    ;
    if needed > isize::MAX as u128 {
        return Err(ResizeFailure::Resize(String::from_str("Destination image is too large")));
    }
    let premultiplied = match premultiply(pixels, width, height) {
        Ok(out) => out,
        Err(message) => {
            return Err(ResizeFailure::Resize(message));
        },
    };
    let resized = match resample(premultiplied, width, height, dst_width, dst_height) {
        Ok(out) => out,
        Err(message) => {
            return Err(ResizeFailure::Resize(message));
        },
    };
    match unpremultiply(resized, dst_width, dst_height) {
        Ok(out) => Ok(out),
        Err(message) => Err(ResizeFailure::Resize(message)),
    }
}

/// What fitting an image of `w` by `h` pixels, decoded from `bytes`, into a
/// box of `max_w` by `max_h` owes. An image that fits is answered with its
/// bytes and native size. Any other is answered with the scaled size and the
/// resampled pixels, unless the scaled image would be too large, which is a
/// resize failure.
pub open spec fn fitted(
    bytes: Seq<u8>,
    w: u32,
    h: u32,
    max_w: u32,
    max_h: u32,
    done: Result<ImageData, ResizeFailure>,
) -> bool {
    if fits(w as int, h as int, max_w as int, max_h as int) {
        done matches Ok(out) && out@ == (bytes, w, h)
    } else {
        let dst_w = scaled_width(w as int, h as int, max_w as int, max_h as int);
        let dst_h = scaled_height(w as int, h as int, max_w as int, max_h as int);
        &&& done is Err <==> too_large(dst_w, dst_h)
        &&& match done {
            Ok(out) => {
                &&& out.1 == dst_w
                &&& out.2 == dst_h
                &&& out.0@ == resampled_with_alpha(decoded_rgba(bytes), w, h, out.1, out.2)
                &&& out.0@.len() == 4 * dst_w * dst_h
            },
            Err(failure) => failure is Resize,
        }
    }
}

/// Fits a decoded image into a box. An image that fits is answered with
/// the very bytes it was decoded from and its native size; any other is
/// resampled to the scaled size and answered as raw RGBA8.
pub fn fit_decoded(
    decoded: Decoded,
    max_width: u32,
    max_height: u32,
) -> (done: Result<ImageData, ResizeFailure>)
    ensures
        fitted(decoded.source(), decoded.width(), decoded.height(), max_width, max_height, done),
{
    let width = decoded.width();
    let height = decoded.height();
    match plan_resize(width, height, max_width, max_height) {
        ResizePlan::Keep => Ok((decoded.bytes, width, height)),
        ResizePlan::Scale { width: dst_width, height: dst_height } => {
            let pixels = rgba_pixels(&decoded);
            match resample_rgba(pixels, width, height, dst_width, dst_height) {
                Ok(out) => Ok((out, dst_width, dst_height)),
                Err(failure) => Err(failure),
            }
        },
    }
}

/// Decodes an image and makes it fit a box of `width` by `height` pixels,
/// shrinking it if it is larger and never enlarging it.
pub fn resize_image_to_fit(
    buf: Vec<u8>,
    width: u32,
    height: u32,
) -> (done: Result<ImageData, ResizeFailure>)
    ensures
        match decoded_size(buf@) {
            Some((w, h)) => fitted(buf@, w, h, width, height, done),
            None => done matches Err(failure) && failure is Decode,
        },
{
    match decode_image(buf) {
        Ok(decoded) => fit_decoded(decoded, width, height),
        Err(failure) => Err(failure),
    }
}

} // verus!
