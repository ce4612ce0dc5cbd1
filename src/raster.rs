use image::GenericImageView;
use vstd::prelude::*;

verus! {

#[verifier::external_type_specification]
#[verifier::external_body]
pub struct ExDynamicImage(image::DynamicImage);

/// Width and height of an image, in pixels.
pub uninterp spec fn dims_of(img: image::DynamicImage) -> (u32, u32);

/// First channel of every pixel as `GenericImageView` yields them (as RGBA),
/// row by row and left to right within a row; for a gray image, its gray values.
pub uninterp spec fn reds_of(img: image::DynamicImage) -> Seq<u8>;

/// The image that a three-lobe Lanczos resampling to `w` by `h` pixels gives.
pub uninterp spec fn lanczos_resized(img: image::DynamicImage, w: u32, h: u32) -> image::DynamicImage;

/// The 8-bit luminance version of an image.
pub uninterp spec fn grayscaled(img: image::DynamicImage) -> image::DynamicImage;

/// An image with at least one pixel.
pub open spec fn has_pixels(img: image::DynamicImage) -> bool {
    dims_of(img).0 > 0 && dims_of(img).1 > 0
}

/// Relies on `DynamicImage::resize_exact` with `FilterType::Lanczos3`: the result is
/// exactly `w` by `h` pixels. It indexes outside the source when the source has no pixel.
#[verifier::external_body]
pub(crate) fn resize_lanczos3(img: &image::DynamicImage, w: u32, h: u32) -> (r: image::DynamicImage)
    requires
        has_pixels(*img),
    ensures
        r == lanczos_resized(*img, w, h),
        dims_of(r) == (w, h),
{
    img.resize_exact(w, h, image::FilterType::Lanczos3)
}

/// Relies on `DynamicImage::grayscale`: an 8-bit luma image of the same size.
#[verifier::external_body]
pub(crate) fn to_grayscale(img: &image::DynamicImage) -> (r: image::DynamicImage)
    ensures
        r == grayscaled(*img),
        dims_of(r) == dims_of(*img),
{
    img.grayscale()
}

/// Relies on `GenericImageView::dimensions`: the image's width and height.
#[verifier::external_body]
pub(crate) fn dimensions(img: &image::DynamicImage) -> (r: (u32, u32))
    ensures
        r == dims_of(*img),
{
    img.dimensions()
}

/// Relies on `GenericImageView::pixels`, which visits every pixel once, row by
/// row; keeps the first channel of each. On an image with no column but
/// several rows the iterator reads outside the image, so the image must have pixels.
#[verifier::external_body]
pub(crate) fn red_channel(img: &image::DynamicImage) -> (r: Vec<u8>)
    requires
        has_pixels(*img),
    ensures
        r@ == reds_of(*img),
        r@.len() == dims_of(*img).0 as nat * dims_of(*img).1 as nat,
{
    img.pixels().map(|(_, _, p)| p[0]).collect()
}

} // verus!
