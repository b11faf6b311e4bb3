use vstd::prelude::*;
use crate::error::ScanError;
use crate::listing::text_is;
use crate::raster::{Raster, pixel_of, rotated90, rotated180, rotated270, flipped_h, flipped_v};

verus! {

/// The supported in-place edits of an image file.
#[derive(Debug, Clone, Copy, PartialEq, Eq, Structural)]
pub enum Transform {
    Rotate90,
    Rotate180,
    Rotate270,
    FlipH,
    FlipV,
    /// Re-encode the pixels unchanged, which drops the codec's metadata.
    StripMeta,
}

/// The request name of each transform.
pub open spec fn action_name(t: Transform) -> Seq<char> {
    match t {
        Transform::Rotate90 => "rotate90"@,
        Transform::Rotate180 => "rotate180"@,
        Transform::Rotate270 => "rotate270"@,
        Transform::FlipH => "flip_h"@,
        Transform::FlipV => "flip_v"@,
        Transform::StripMeta => "strip_meta"@,
    }
}

/// Whether `s` names one of the transforms.
pub open spec fn is_known_action(s: Seq<char>) -> bool {
    ||| s == "rotate90"@
    ||| s == "rotate180"@
    ||| s == "rotate270"@
    ||| s == "flip_h"@
    ||| s == "flip_v"@
    ||| s == "strip_meta"@
}

/// The transform a request names, or `UnknownAction`.
pub open spec fn parsed(s: Seq<char>) -> Result<Transform, ScanError> {
    if s == "rotate90"@ {
        Ok(Transform::Rotate90)
    } else if s == "rotate180"@ {
        Ok(Transform::Rotate180)
    } else if s == "rotate270"@ {
        Ok(Transform::Rotate270)
    } else if s == "flip_h"@ {
        Ok(Transform::FlipH)
    } else if s == "flip_v"@ {
        Ok(Transform::FlipV)
    } else if s == "strip_meta"@ {
        Ok(Transform::StripMeta)
    } else {
        Err(ScanError::UnknownAction)
    }
}

/// `r` is `img` after applying `t`, pixel for pixel.
pub open spec fn is_transform_of(r: Raster, img: Raster, t: Transform) -> bool {
    let (w, h) = (img.width as int, img.height as int);
    &&& r.wf()
    &&& match t {
        Transform::Rotate90 | Transform::Rotate270 => r.width == img.height && r.height
            == img.width,
        _ => r.width == img.width && r.height == img.height,
    }
    &&& forall|x: int, y: int|
        0 <= x < w && 0 <= y < h ==> #[trigger] img.px(x, y) == match t {
            Transform::Rotate90 => r.px(h - 1 - y, x),
            Transform::Rotate180 => r.px(w - 1 - x, h - 1 - y),
            Transform::Rotate270 => r.px(y, w - 1 - x),
            Transform::FlipH => r.px(w - 1 - x, y),
            Transform::FlipV => r.px(x, h - 1 - y),
            Transform::StripMeta => r.px(x, y),
        }
}

/// The transform that `action` names, or `UnknownAction`.
pub fn parse_action(action: &str) -> (r: Result<Transform, ScanError>)
    ensures
        r == parsed(action@),
        r matches Ok(t) ==> action_name(t) == action@,
        r is Err <==> !is_known_action(action@),
{
    proof {
        reveal_strlit("rotate90");
        reveal_strlit("rotate180");
        reveal_strlit("rotate270");
        reveal_strlit("flip_h");
        reveal_strlit("flip_v");
        reveal_strlit("strip_meta");
    }
    if text_is(action, "rotate90") {
        Ok(Transform::Rotate90)
    } else if text_is(action, "rotate180") {
        Ok(Transform::Rotate180)
    } else if text_is(action, "rotate270") {
        Ok(Transform::Rotate270)
    } else if text_is(action, "flip_h") {
        Ok(Transform::FlipH)
    } else if text_is(action, "flip_v") {
        Ok(Transform::FlipV)
    } else if text_is(action, "strip_meta") {
        Ok(Transform::StripMeta)
    } else {
        assert forall|t: Transform| action_name(t) != action@ by {
            match t {
                Transform::Rotate90 => {},
                Transform::Rotate180 => {},
                Transform::Rotate270 => {},
                Transform::FlipH => {},
                Transform::FlipV => {},
                Transform::StripMeta => {},
            }
        }
        Err(ScanError::UnknownAction)
    }
}

/// Applies a transform to a raster.
pub fn apply_transform(img: Raster, t: Transform) -> (r: Raster)
    requires
        img.wf(),
    ensures
        is_transform_of(r, img, t),
{
    match t {
        Transform::Rotate90 => rotated90(&img),
        Transform::Rotate180 => rotated180(&img),
        Transform::Rotate270 => rotated270(&img),
        Transform::FlipH => flipped_h(&img),
        Transform::FlipV => flipped_v(&img),
        Transform::StripMeta => img,
    }
}

/// `r` is what a request for `action` on `img` gives: the transformed
/// raster, or the parse error.
pub open spec fn is_action_result(r: Result<Raster, ScanError>, img: Raster, action: Seq<char>) -> bool {
    match parsed(action) {
        Ok(t) => r matches Ok(out) && is_transform_of(out, img, t),
        Err(e) => r == Err::<Raster, ScanError>(e),
    }
}

/// The raster to write back for the named transform; an unknown name fails
/// with `UnknownAction`, so nothing is to be written.
pub fn transform_image(img: Raster, action: &str) -> (r: Result<Raster, ScanError>)
    requires
        img.wf(),
    ensures
        r is Err <==> !is_known_action(action@),
        r matches Err(e) ==> e == ScanError::UnknownAction,
        is_action_result(r, img, action@),
{
    let ghost src = img;
    match parse_action(action) {
        Ok(t) => {
            let out = apply_transform(img, t);
            assert(is_transform_of(out, src, t));
            Ok(out)
        },
        Err(e) => Err(e),
    }
}

/// Rotating by 180 degrees twice gives back the original raster.
pub proof fn lemma_rotate180_twice(img: Raster, once: Raster, twice: Raster)
    requires
        img.wf(),
        is_transform_of(once, img, Transform::Rotate180),
        is_transform_of(twice, once, Transform::Rotate180),
    ensures
        twice.width == img.width,
        twice.height == img.height,
        twice.data@ == img.data@,
{
    let w = img.width as int;
    let h = img.height as int;
    assert forall|k: int| 0 <= k < img.data@.len() implies twice.data@[k] == img.data@[k] by {
        let i = k / 4;
        assert(k == 4 * i + k % 4);
        assert(0 <= i < w * h);
        assert(w > 0) by {
            if w <= 0 {
                assert(w * h <= 0) by (nonlinear_arith)
                    requires
                        w <= 0,
                        h >= 0,
                ;
            }
        }
        vstd::arithmetic::div_mod::lemma_fundamental_div_mod(i, w);
        vstd::arithmetic::div_mod::lemma_mod_bound(i, w);
        vstd::arithmetic::div_mod::lemma_div_pos_is_pos(i, w);
        let x = i % w;
        let y = i / w;
        assert(y < h) by {
            if y >= h {
                assert(w * y + x >= w * h) by (nonlinear_arith)
                    requires
                        y >= h,
                        w > 0,
                        x >= 0,
                ;
            }
        }
        assert(y * w + x == i) by (nonlinear_arith)
            requires
                i == w * y + x,
        ;
        let xx = w - 1 - x;
        let yy = h - 1 - y;
        assert(img.px(x, y) == once.px(xx, yy));
        assert(once.px(xx, yy) == twice.px(w - 1 - xx, h - 1 - yy));
        assert(pixel_of(twice.data@, i) == pixel_of(img.data@, i));
    }
    assert(twice.data@ =~= img.data@);
}

} // verus!
