use vstd::prelude::*;
use crate::raster::{
    Raster, Pixel, pixel_of, luma_of, luminance, fit_within, fit_of, fits_box, MAX_RASTER_BYTES,
};

verus! {

/// Inputs wider or taller than this are downscaled before edge detection.
pub const MAX_HEATMAP_DIM: u32 = 1000;

/// Gain applied to the absolute Laplacian response.
pub const EDGE_GAIN: i32 = 5;

/// Edge strengths above this value are highlighted.
pub const FOCUS_THRESHOLD: u8 = 40;

/// Whether flat index `i` of a `w`-wide, `h`-tall grid lies on the one-pixel frame.
pub open spec fn is_border(w: int, h: int, i: int) -> bool {
    i % w == 0 || i % w == w - 1 || i / w == 0 || i / w == h - 1
}

/// Response of the kernel [[0,-1,0],[-1,4,-1],[0,-1,0]] centred on index `i`.
pub open spec fn laplacian(g: Seq<u8>, w: int, i: int) -> int {
    4 * g[i] - g[i - 1] - g[i + 1] - g[i - w] - g[i + w]
}

/// Absolute response times the gain, clamped to 255.
pub open spec fn magnitude(v: int) -> int {
    let a = if v < 0 { -v } else { v };
    if a * EDGE_GAIN > 255 { 255 } else { a * EDGE_GAIN }
}

/// Edge strength at index `i`: zero on the frame, the clamped response inside.
pub open spec fn edge_at(g: Seq<u8>, w: int, h: int, i: int) -> u8 {
    if is_border(w, h, i) { 0 } else { magnitude(laplacian(g, w, i)) as u8 }
}

pub open spec fn transparent() -> Pixel {
    (0, 0, 0, 0)
}

/// Overlay colour for one edge strength: opaque-ish green above the threshold.
pub open spec fn overlay_pixel(e: u8) -> Pixel {
    if e > FOCUS_THRESHOLD { (0, 255, 0, e) } else { transparent() }
}

/// `r` is the focus overlay of the `w` by `h` luminance map `g`.
pub open spec fn is_overlay_of(r: Raster, g: Seq<u8>, w: u32, h: u32) -> bool {
    &&& r.wf()
    &&& r.width == w
    &&& r.height == h
    &&& forall|i: int|
        0 <= i < r.area() ==> #[trigger] pixel_of(r.data@, i) == overlay_pixel(
            edge_at(g, w as int, h as int, i),
        )
}

pub open spec fn exceeds_bound(w: u32, h: u32) -> bool {
    w > MAX_HEATMAP_DIM || h > MAX_HEATMAP_DIM
}

/// Whether an image of these dimensions is downscaled before edge detection.
pub fn needs_downscale(width: u32, height: u32) -> (r: bool)
    ensures
        r == exceeds_bound(width, height),
{
    width > MAX_HEATMAP_DIM || height > MAX_HEATMAP_DIM
}

proof fn lemma_interior_neighbours(i: int, w: int, h: int)
    requires
        0 <= i < w * h,
        w > 0,
        !is_border(w, h, i),
    ensures
        i >= w + 1,
        i + w + 1 < w * h,
{
    vstd::arithmetic::div_mod::lemma_fundamental_div_mod(i, w);
    let x = i % w;
    let y = i / w;
    assert(i == w * y + x);
    assert(0 <= x < w) by {
        vstd::arithmetic::div_mod::lemma_mod_bound(i, w);
    }
    assert(y < h) by {
        if y >= h {
            assert(w * y >= w * h) by (nonlinear_arith)
                requires
                    y >= h,
                    w > 0,
            ;
        }
    }
    assert(y >= 0) by {
        vstd::arithmetic::div_mod::lemma_div_pos_is_pos(i, w);
    }
    assert(x >= 1 && y >= 1 && x + 1 <= w - 1 && y + 1 <= h - 1);
    assert(i >= w + 1) by (nonlinear_arith)
        requires
            w > 0,
            i == w * y + x,
            y >= 1,
            x >= 1,
    ;
    assert(i + w + 1 < w * h) by (nonlinear_arith)
        requires
            w > 0,
            i == w * y + x,
            y + 1 <= h - 1,
            x + 1 <= w - 1,
    ;
}

/// Clamped Laplacian edge strength of every pixel of a luminance map, with
/// the one-pixel frame left at zero.
pub fn edge_strengths(gray: &Vec<u8>, width: u32, height: u32) -> (r: Vec<u8>)
    requires
        gray@.len() == width as int * height as int,
    ensures
        r@.len() == gray@.len(),
        forall|i: int|
            0 <= i < r@.len() ==> #[trigger] r@[i] == edge_at(
                gray@,
                width as int,
                height as int,
                i,
            ),
{
    let n: usize = gray.len();
    let w: usize = width as usize;
    let h: usize = height as usize;
    let mut out: Vec<u8> = Vec::with_capacity(n);
    let mut i: usize = 0;
    while i < n
        invariant
            n == gray@.len(),
            n == w as int * h as int,
            w == width,
            h == height,
            i <= n,
            out@.len() == i,
            forall|j: int|
                0 <= j < i ==> #[trigger] out@[j] == edge_at(gray@, w as int, h as int, j),
        decreases n - i,
    {
        assert(w > 0) by {
            if w == 0 {
                assert(w as int * h as int == 0);
            }
        }
        let x: usize = i % w;
        let y: usize = i / w;
        if x == 0 || y == 0 || x == w - 1 || y == h - 1 {
            out.push(0);
        } else {
            proof {
                lemma_interior_neighbours(i as int, w as int, h as int);
            }
            let c = gray[i] as i32;
            let sum: i32 = 4 * c - gray[i - 1] as i32 - gray[i + 1] as i32 - gray[i - w] as i32
                - gray[i + w] as i32;
            let a: i32 = if sum < 0 { -sum } else { sum };
            let scaled: i32 = a * EDGE_GAIN;
            let v: u8 = if scaled > 255 { 255 } else { scaled as u8 };
            out.push(v);
        }
        i = i + 1;
    }
    out
}

/// Turns edge strengths into an RGBA overlay, four bytes per input value.
pub fn render_overlay(edges: &Vec<u8>) -> (r: Vec<u8>)
    requires
        4 * edges@.len() <= usize::MAX,
    ensures
        r@.len() == 4 * edges@.len(),
        forall|i: int|
            0 <= i < edges@.len() ==> #[trigger] pixel_of(r@, i) == overlay_pixel(edges@[i]),
{
    let mut out: Vec<u8> = Vec::with_capacity(4 * edges.len());
    let mut i: usize = 0;
    while i < edges.len()
        invariant
            i <= edges@.len(),
            4 * edges@.len() <= usize::MAX,
            out@.len() == 4 * i,
            forall|j: int|
                0 <= j < i ==> #[trigger] pixel_of(out@, j) == overlay_pixel(edges@[j]),
        decreases edges@.len() - i,
    {
        let e = edges[i];
        let ghost prev = out@;
        if e > FOCUS_THRESHOLD {
            out.push(0);
            out.push(255);
            out.push(0);
            out.push(e);
        } else {
            out.push(0);
            out.push(0);
            out.push(0);
            out.push(0);
        }
        assert forall|j: int| 0 <= j <= i implies #[trigger] pixel_of(out@, j) == overlay_pixel(
            edges@[j],
        ) by {
            if j < i {
                assert(pixel_of(out@, j) == pixel_of(prev, j));
            }
        }
        i = i + 1;
    }
    out
}

/// Focus overlay of a `width` by `height` luminance map: same dimensions,
/// green where the edge strength passes the threshold, transparent elsewhere.
pub fn heatmap_from_luma(gray: &Vec<u8>, width: u32, height: u32) -> (r: Raster)
    requires
        gray@.len() == width as int * height as int,
        4 * gray@.len() <= usize::MAX,
    ensures
        is_overlay_of(r, gray@, width, height),
{
    let edges = edge_strengths(gray, width, height);
    let data = render_overlay(&edges);
    Raster { width, height, data }
}

/// Focus overlay of an image within the codec's size limit. Images wider or
/// taller than the bound are first downscaled; the overlay has the
/// dimensions of the map it was computed on.
pub fn focus_heatmap(img: &Raster) -> (r: Raster)
    requires
        img.wf(),
        img.data@.len() <= MAX_RASTER_BYTES,
    ensures
        exists|src: Raster|
            {
                &&& src.wf()
                &&& (!exceeds_bound(img.width, img.height) || img.area() == 0) ==> src == *img
                &&& exceeds_bound(img.width, img.height) && img.area() > 0 ==> {
                    &&& fits_box(src, img.width, img.height, MAX_HEATMAP_DIM, MAX_HEATMAP_DIM)
                    &&& src.data@ == fit_of(
                        img.data@,
                        img.width,
                        img.height,
                        MAX_HEATMAP_DIM,
                        MAX_HEATMAP_DIM,
                    )
                }
                &&& #[trigger] is_overlay_of(r, luma_of(src.data@), src.width, src.height)
            },
{
    if needs_downscale(img.width, img.height) && img.width > 0 && img.height > 0 {
        assert(img.area() > 0) by (nonlinear_arith)
            requires
                img.area() == img.width as int * img.height as int,
                img.width > 0,
                img.height > 0,
        ;
        let small = fit_within(img, MAX_HEATMAP_DIM, MAX_HEATMAP_DIM);
        let gray = luminance(&small);
        let _bytes: usize = small.data.len();
        let r = heatmap_from_luma(&gray, small.width, small.height);
        assert(is_overlay_of(r, luma_of(small.data@), small.width, small.height));
        r
    } else {
        let gray = luminance(img);
        let _bytes: usize = img.data.len();
        if img.width == 0 || img.height == 0 {
            assert(img.area() == 0) by (nonlinear_arith)
                requires
                    img.area() == img.width as int * img.height as int,
                    img.width == 0 || img.height == 0,
            ;
        }
        let r = heatmap_from_luma(&gray, img.width, img.height);
        assert(is_overlay_of(r, luma_of(img.data@), img.width, img.height));
        r
    }
}

/// Every overlay has the dimensions of its luminance map, and every pixel on
/// its one-pixel frame is fully transparent.
pub proof fn lemma_overlay_frame_transparent(r: Raster, g: Seq<u8>, w: u32, h: u32, i: int)
    requires
        is_overlay_of(r, g, w, h),
        0 <= i < w as int * h as int,
        is_border(w as int, h as int, i),
    ensures
        r.width == w,
        r.height == h,
        pixel_of(r.data@, i) == transparent(),
{
}

} // verus!
