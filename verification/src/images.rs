//! Images of the `image` crate.
use vstd::prelude::*;

verus! {

/// An image of any pixel format, as the `image` crate holds it.
#[verifier::external_type_specification]
#[verifier::external_body]
pub struct ExDynamicImage(image::DynamicImage);

/// The width and height of an image in pixels.
pub uninterp spec fn dimensions(img: image::DynamicImage) -> (u32, u32);

/// The bytes of an image as red, green and blue of eight bits each: those of its pixels, row by row
/// from the top, and behind them what its buffer may hold besides.
pub uninterp spec fn rgb8(img: image::DynamicImage) -> Seq<u8>;

/// The bytes of an image, as `rgb8` gives them, after it was resized with a triangle filter.
pub uninterp spec fn resized_rgb8(img: image::DynamicImage, width: u32, height: u32) -> Seq<u8>;

/// Resizes an image with a triangle filter, whatever its aspect ratio.
///
/// Calls `image::DynamicImage::resize_exact` with `FilterType::Triangle`. Of it this trusts that
/// the result has exactly the size asked for and holds its pixels and nothing else, that they are
/// determined by the image and that size, which gives them the name `resized_rgb8`, and that they
/// are those of the image itself where it has that size already. How the filter weighs the pixels
/// is left unsaid. The bounds keep the number of bytes within 64 bits; where addresses have 32,
/// pixels that need more memory than these reach cannot be resized to.
#[verifier::external_body]
pub(crate) fn resize_exact(img: &image::DynamicImage, width: u32, height: u32) -> (r:
    image::DynamicImage)
    requires
        width <= 0xffff,
        height <= 2 * 0xffff,
    ensures
        dimensions(r) == (width, height),
        rgb8(r) == resized_rgb8(*img, width, height),
        rgb8(r).len() == 3 * width * height,
        dimensions(*img) == (width, height) ==> rgb8(r).is_prefix_of(rgb8(*img)),
{
    img.resize_exact(width, height, image::imageops::FilterType::Triangle)
}

/// The bytes of an image as red, green and blue of eight bits each.
///
/// Calls `image::DynamicImage::to_rgb8`, and `into_raw` on what it returns. Of it this trusts that
/// the bytes are determined by the image, which gives them the name `rgb8`. How the formats of
/// pixels are converted is left unsaid.
#[verifier::external_body]
pub(crate) fn to_rgb8(img: &image::DynamicImage) -> (r: Vec<u8>)
    ensures
        r@ == rgb8(*img),
{
    img.to_rgb8().into_raw()
}

} // verus!
