use vstd::prelude::*;

verus! {

/// An 8-bit RGBA raster: `data` holds four bytes per pixel, row by row.
pub struct Raster {
    pub width: u32,
    pub height: u32,
    pub data: Vec<u8>,
}

/// One RGBA pixel as its four channel values.
pub type Pixel = (u8, u8, u8, u8);

/// The pixel at flat index `i` of an RGBA byte sequence.
pub open spec fn pixel_of(data: Seq<u8>, i: int) -> Pixel {
    (data[4 * i], data[4 * i + 1], data[4 * i + 2], data[4 * i + 3])
}

impl Raster {
    /// Number of pixels.
    pub open spec fn area(&self) -> int {
        self.width as int * self.height as int
    }

    /// The buffer holds exactly four bytes for each pixel.
    pub open spec fn wf(&self) -> bool {
        self.data@.len() == 4 * self.area()
    }

    /// The pixel at column `x`, row `y`.
    pub open spec fn px(&self, x: int, y: int) -> Pixel {
        pixel_of(self.data@, y * self.width + x)
    }

    /// Builds a raster from its dimensions and RGBA bytes; `None` when the
    /// buffer length does not match the dimensions.
    pub fn from_rgba(width: u32, height: u32, data: Vec<u8>) -> (r: Option<Raster>)
        ensures
            r is Some <==> data@.len() == 4 * (width as int) * (height as int),
            r matches Some(img) ==> img.width == width && img.height == height && img.data@
                == data@,
    {
        proof {
            assert(width as int * height as int <= u32::MAX as int * u32::MAX as int)
                by (nonlinear_arith);
        }
        let n: u64 = width as u64 * height as u64;
        proof {
            assert(4 * (width as int) * (height as int) == 4 * (n as int)) by (nonlinear_arith)
                requires
                    n as int == width as int * height as int,
            ;
        }
        let len: usize = data.len();
        if n <= (usize::MAX / 4) as u64 && len == 4 * (n as usize) {
            Some(Raster { width, height, data })
        } else {
            None
        }
    }
}

/// Thumbnails fit in a square of this side.
pub const THUMBNAIL_SIZE: u32 = 100;

/// Largest raster, in bytes, that is resampled: the codec's default
/// allocation limit. With a box of at least `THUMBNAIL_SIZE` on each side,
/// every averaging window then stays far below the pixel count at which the
/// codec's 32-bit channel sums would overflow.
pub const MAX_RASTER_BYTES: usize = 536870912;

/// `r` has the dimensions that an aspect-preserving fit of a `w` by `h`
/// image into a `max_w` by `max_h` box gives: it fills the box in one
/// direction, stays inside it in the other, and keeps the proportions up to
/// rounding.
pub open spec fn fits_box(r: Raster, w: u32, h: u32, max_w: u32, max_h: u32) -> bool {
    let err = r.width as int * h as int - r.height as int * w as int;
    &&& 1 <= r.width <= max_w
    &&& 1 <= r.height <= max_h
    &&& (r.width == max_w || r.height == max_h)
    &&& -(if w >= h { w as int } else { h as int }) <= err <= (if w >= h {
        w as int
    } else {
        h as int
    })
}

/// Thumbnail of a non-empty image: the codec's aspect-preserving resample
/// into the thumbnail box.
pub fn thumbnail(img: &Raster) -> (r: Raster)
    requires
        img.wf(),
        img.width > 0,
        img.height > 0,
        img.data@.len() <= MAX_RASTER_BYTES,
    ensures
        r.wf(),
        fits_box(r, img.width, img.height, THUMBNAIL_SIZE, THUMBNAIL_SIZE),
        r.data@ == fit_of(img.data@, img.width, img.height, THUMBNAIL_SIZE, THUMBNAIL_SIZE),
{
    fit_within(img, THUMBNAIL_SIZE, THUMBNAIL_SIZE)
}

/// What image's 8-bit luminance conversion gives for an RGBA buffer.
pub uninterp spec fn luma_of(rgba: Seq<u8>) -> Seq<u8>;

/// Relies on image's `DynamicImage::to_luma8`: one gray byte per pixel,
/// computed from that buffer's bytes alone.
#[verifier::external_body]
pub(crate) fn luminance(img: &Raster) -> (r: Vec<u8>)
    requires
        img.wf(),
    ensures
        r@ == luma_of(img.data@),
        r@.len() == img.area(),
{
    let buf = image::RgbaImage::from_raw(img.width, img.height, img.data.clone()).unwrap();
    image::DynamicImage::ImageRgba8(buf).to_luma8().into_raw()
}

/// The RGBA pixels of image's aspect-preserving resample of a `w` by `h`
/// buffer into a `max_w` by `max_h` box.
pub uninterp spec fn fit_of(rgba: Seq<u8>, w: u32, h: u32, max_w: u32, max_h: u32) -> Seq<u8>;

/// Relies on image's `DynamicImage::thumbnail`: both sides are scaled by the
/// smaller of the two box ratios and rounded (at least one pixel), so one
/// side meets the box; the pixels depend on the arguments alone. Its window
/// sums are 32-bit, hence the size bound.
#[verifier::external_body]
pub(crate) fn fit_within(img: &Raster, max_w: u32, max_h: u32) -> (r: Raster)
    requires
        img.wf(),
        img.width > 0,
        img.height > 0,
        img.data@.len() <= MAX_RASTER_BYTES,
        max_w >= THUMBNAIL_SIZE,
        max_h >= THUMBNAIL_SIZE,
    ensures
        r.wf(),
        fits_box(r, img.width, img.height, max_w, max_h),
        r.data@ == fit_of(img.data@, img.width, img.height, max_w, max_h),
{
    let buf = image::RgbaImage::from_raw(img.width, img.height, img.data.clone()).unwrap();
    let out = image::DynamicImage::ImageRgba8(buf).thumbnail(max_w, max_h).to_rgba8();
    Raster { width: out.width(), height: out.height(), data: out.into_raw() }
}

/// Relies on image's `imageops::rotate90`: source pixel (x, y) lands at
/// (h - 1 - y, x) of a raster of width h and height w.
#[verifier::external_body]
pub(crate) fn rotated90(img: &Raster) -> (r: Raster)
    requires
        img.wf(),
    ensures
        r.wf(),
        r.width == img.height,
        r.height == img.width,
        forall|x: int, y: int|
            0 <= x < img.width && 0 <= y < img.height ==> #[trigger] img.px(x, y) == r.px(
                img.height - 1 - y,
                x,
            ),
{
    let buf = image::RgbaImage::from_raw(img.width, img.height, img.data.clone()).unwrap();
    let out = image::imageops::rotate90(&buf);
    Raster { width: out.width(), height: out.height(), data: out.into_raw() }
}

/// Relies on image's `imageops::rotate180`: source pixel (x, y) lands at
/// (w - 1 - x, h - 1 - y).
#[verifier::external_body]
pub(crate) fn rotated180(img: &Raster) -> (r: Raster)
    requires
        img.wf(),
    ensures
        r.wf(),
        r.width == img.width,
        r.height == img.height,
        forall|x: int, y: int|
            0 <= x < img.width && 0 <= y < img.height ==> #[trigger] img.px(x, y) == r.px(
                img.width - 1 - x,
                img.height - 1 - y,
            ),
{
    let buf = image::RgbaImage::from_raw(img.width, img.height, img.data.clone()).unwrap();
    let out = image::imageops::rotate180(&buf);
    Raster { width: out.width(), height: out.height(), data: out.into_raw() }
}

/// Relies on image's `imageops::rotate270`: source pixel (x, y) lands at
/// (y, w - 1 - x) of a raster of width h and height w.
#[verifier::external_body]
pub(crate) fn rotated270(img: &Raster) -> (r: Raster)
    requires
        img.wf(),
    ensures
        r.wf(),
        r.width == img.height,
        r.height == img.width,
        forall|x: int, y: int|
            0 <= x < img.width && 0 <= y < img.height ==> #[trigger] img.px(x, y) == r.px(
                y,
                img.width - 1 - x,
            ),
{
    let buf = image::RgbaImage::from_raw(img.width, img.height, img.data.clone()).unwrap();
    let out = image::imageops::rotate270(&buf);
    Raster { width: out.width(), height: out.height(), data: out.into_raw() }
}

/// Relies on image's `imageops::flip_horizontal`: source pixel (x, y) lands
/// at (w - 1 - x, y).
#[verifier::external_body]
pub(crate) fn flipped_h(img: &Raster) -> (r: Raster)
    requires
        img.wf(),
    ensures
        r.wf(),
        r.width == img.width,
        r.height == img.height,
        forall|x: int, y: int|
            0 <= x < img.width && 0 <= y < img.height ==> #[trigger] img.px(x, y) == r.px(
                img.width - 1 - x,
                y,
            ),
{
    let buf = image::RgbaImage::from_raw(img.width, img.height, img.data.clone()).unwrap();
    let out = image::imageops::flip_horizontal(&buf);
    Raster { width: out.width(), height: out.height(), data: out.into_raw() }
}

/// Relies on image's `imageops::flip_vertical`: source pixel (x, y) lands at
/// (x, h - 1 - y).
#[verifier::external_body]
pub(crate) fn flipped_v(img: &Raster) -> (r: Raster)
    requires
        img.wf(),
    ensures
        r.wf(),
        r.width == img.width,
        r.height == img.height,
        forall|x: int, y: int|
            0 <= x < img.width && 0 <= y < img.height ==> #[trigger] img.px(x, y) == r.px(
                x,
                img.height - 1 - y,
            ),
{
    let buf = image::RgbaImage::from_raw(img.width, img.height, img.data.clone()).unwrap();
    let out = image::imageops::flip_vertical(&buf);
    Raster { width: out.width(), height: out.height(), data: out.into_raw() }
}

} // verus!
