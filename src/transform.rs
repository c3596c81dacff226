use vstd::prelude::*;

use crate::frame::{Image, RawFrame};

verus! {

/// Luma of one RGB pixel, with the sRGB weights 0.2126, 0.7152 and 0.0722
/// in integer arithmetic.
pub open spec fn luma(r: u8, g: u8, b: u8) -> u8 {
    ((2126 * r + 7152 * g + 722 * b) / 10000) as u8
}

/// The grayscale buffer of the first `pixels` pixels of an interleaved RGB
/// buffer, one byte per pixel.
pub open spec fn luma_of_rgb(rgb: Seq<u8>, pixels: nat) -> Seq<u8> {
    Seq::new(pixels, |i: int| luma(rgb[3 * i], rgb[3 * i + 1], rgb[3 * i + 2]))
}

/// What nearest-neighbour resampling makes of a `src_width` × `src_height`
/// grayscale buffer at `width` × `height`.
pub uninterp spec fn nearest_resized(
    pixels: Seq<u8>,
    src_width: nat,
    src_height: nat,
    width: nat,
    height: nat,
) -> Seq<u8>;

/// A resampling from `src_width` × `src_height` to `width` × `height` can be
/// carried out: the source has pixels to sample unless nothing is to be
/// resized, and the buffers involved stay within what can be allocated.
pub open spec fn resize_fits(src_width: u32, src_height: u32, width: u32, height: u32) -> bool {
    &&& (src_width > 0 && src_height > 0) || (src_width == width && src_height == height)
    &&& 16 * src_width * height <= isize::MAX
    &&& width * height <= isize::MAX
}

/// Relies on image's `DynamicImage::to_luma8` applied to an `RgbImage` built
/// by `RgbImage::from_vec` (which accepts a buffer of at least three bytes
/// per pixel and reads the pixels from its start): each pixel becomes
/// `(2126 r + 7152 g + 722 b) / 10000`, in pixel order.
#[verifier::external_body]
fn rgb_to_luma(rgb: Vec<u8>, width: u32, height: u32) -> (gray: Vec<u8>)
    requires
        rgb@.len() >= 3 * width * height,
    ensures
        gray@ == luma_of_rgb(rgb@, (width * height) as nat),
{
    let img = image::RgbImage::from_vec(width, height, rgb).unwrap();
    image::DynamicImage::ImageRgb8(img).to_luma8().into_raw()
}

/// Relies on `image::imageops::resize` with `FilterType::Nearest` on a
/// `GrayImage` built by `GrayImage::from_vec`: the result has `width` ×
/// `height` pixels, and an image already of that size is copied unchanged.
#[verifier::external_body]
fn resize_nearest(gray: Vec<u8>, src_width: u32, src_height: u32, width: u32, height: u32) -> (out:
    Vec<u8>)
    requires
        gray@.len() == src_width * src_height,
        resize_fits(src_width, src_height, width, height),
    ensures
        out@ == nearest_resized(gray@, src_width as nat, src_height as nat, width as nat, height as nat),
        out@.len() == width * height,
        src_width == width && src_height == height ==> out@ == gray@,
{
    let img = image::GrayImage::from_vec(src_width, src_height, gray).unwrap();
    image::imageops::resize(&img, width, height, image::imageops::FilterType::Nearest).into_raw()
}

/// Converts a decoded frame to grayscale and resizes it to `width` ×
/// `height`, keeping its sequence number.
pub fn transform(raw: RawFrame, width: u32, height: u32) -> (img: Image)
    requires
        raw.wf(),
        resize_fits(raw.width, raw.height, width, height),
    ensures
        img.number == raw.number,
        img.width == width,
        img.height == height,
        img.data@.len() == width * height,
        img.data@ == nearest_resized(
            luma_of_rgb(raw.data@, (raw.width * raw.height) as nat),
            raw.width as nat,
            raw.height as nat,
            width as nat,
            height as nat,
        ),
        raw.width == width && raw.height == height ==> img.data@ == luma_of_rgb(
            raw.data@,
            (width * height) as nat,
        ),
{
    let RawFrame { data, width: src_width, height: src_height, number } = raw;
    let gray: Vec<u8> = rgb_to_luma(data, src_width, src_height);
    let resized: Vec<u8> = resize_nearest(gray, src_width, src_height, width, height);
    Image { data: resized, width, height, number }
}

/// Whether `transform` can take `raw` to `width` × `height`.
pub fn transform_fits(raw: &RawFrame, width: u32, height: u32) -> (ok: bool)
    ensures
        ok == (raw.wf() && resize_fits(raw.width, raw.height, width, height)),
{
    let (sw, sh, w, h) = (raw.width as u128, raw.height as u128, width as u128, height as u128);
    let limit: u128 = isize::MAX as u128;
    proof {
        assert(sw * sh <= 0xffff_ffff * 0xffff_ffff) by (nonlinear_arith)
            requires
                sw <= 0xffff_ffff,
                sh <= 0xffff_ffff,
        ;
        assert(sw * h <= 0xffff_ffff * 0xffff_ffff) by (nonlinear_arith)
            requires
                sw <= 0xffff_ffff,
                h <= 0xffff_ffff,
        ;
        assert(w * h <= 0xffff_ffff * 0xffff_ffff) by (nonlinear_arith)
            requires
                w <= 0xffff_ffff,
                h <= 0xffff_ffff,
        ;
        assert(3 * sw * sh == 3 * (sw * sh)) by (nonlinear_arith);
        assert(16 * sw * h == 16 * (sw * h)) by (nonlinear_arith);
    }
    let buffer_ok: bool = raw.data.len() as u128 >= 3 * (sw * sh);
    let source_ok: bool = (raw.width > 0 && raw.height > 0) || (raw.width == width && raw.height
        == height);
    buffer_ok && source_ok && 16 * (sw * h) <= limit && w * h <= limit
}

} // verus!
