use vstd::prelude::*;
use crate::error::ScanError;
use crate::hex::{color_hex, color_text, is_color_text};
use crate::raster::{Raster, Pixel, luma_of, luminance};

verus! {

/// Number of palette samples taken from each image.
pub const PALETTE_SIZE: usize = 10;

/// Number of brightness buckets.
pub const HISTOGRAM_BUCKETS: usize = 256;

/// Occurrences of `v` in `s`.
pub open spec fn count(s: Seq<u8>, v: int) -> nat
    decreases s.len(),
{
    if s.len() == 0 {
        0
    } else {
        count(s.drop_last(), v) + if s.last() as int == v { 1nat } else { 0nat }
    }
}

/// Sum of the first `k` entries of `h`.
pub open spec fn prefix_sum(h: Seq<u64>, k: int) -> int
    decreases k,
{
    if k <= 0 {
        0
    } else {
        prefix_sum(h, k - 1) + h[k - 1]
    }
}

/// Sum of all entries of `h`.
pub open spec fn total(h: Seq<u64>) -> int {
    prefix_sum(h, h.len() as int)
}

/// `h` is the 256-bucket brightness histogram of the gray values `s`.
pub open spec fn is_histogram_of(h: Seq<u64>, s: Seq<u8>) -> bool {
    &&& h.len() == HISTOGRAM_BUCKETS
    &&& forall|v: int| 0 <= v < HISTOGRAM_BUCKETS ==> #[trigger] h[v] == count(s, v)
}

proof fn lemma_count_le_len(s: Seq<u8>, v: int)
    ensures
        count(s, v) <= s.len(),
    decreases s.len(),
{
    if s.len() > 0 {
        lemma_count_le_len(s.drop_last(), v);
    }
}

/// Sum of the counts of the values below `k`.
spec fn counts_below(s: Seq<u8>, k: int) -> int
    decreases k,
{
    if k <= 0 {
        0
    } else {
        counts_below(s, k - 1) + count(s, k - 1)
    }
}

proof fn lemma_counts_below_step(s: Seq<u8>, k: int)
    requires
        s.len() > 0,
        k >= 0,
    ensures
        counts_below(s, k) == counts_below(s.drop_last(), k) + if (s.last() as int) < k {
            1int
        } else {
            0int
        },
    decreases k,
{
    if k > 0 {
        lemma_counts_below_step(s, k - 1);
    }
}

proof fn lemma_counts_below_all(s: Seq<u8>)
    ensures
        counts_below(s, 256) == s.len(),
    decreases s.len(),
{
    if s.len() == 0 {
        lemma_counts_below_empty(s, 256);
    } else {
        lemma_counts_below_step(s, 256);
        lemma_counts_below_all(s.drop_last());
    }
}

proof fn lemma_counts_below_empty(s: Seq<u8>, k: int)
    requires
        s.len() == 0,
    ensures
        counts_below(s, k) == 0,
    decreases k,
{
    if k > 0 {
        lemma_counts_below_empty(s, k - 1);
    }
}

proof fn lemma_prefix_sum_counts(h: Seq<u64>, s: Seq<u8>, k: int)
    requires
        is_histogram_of(h, s),
        0 <= k <= 256,
    ensures
        prefix_sum(h, k) == counts_below(s, k),
    decreases k,
{
    if k > 0 {
        lemma_prefix_sum_counts(h, s, k - 1);
    }
}

/// A histogram's buckets add up to the number of gray values counted.
pub proof fn lemma_histogram_total(h: Seq<u64>, s: Seq<u8>)
    requires
        is_histogram_of(h, s),
    ensures
        total(h) == s.len(),
{
    lemma_prefix_sum_counts(h, s, 256);
    lemma_counts_below_all(s);
}

/// Brightness histogram: bucket `v` counts the gray values equal to `v`.
pub fn histogram(gray: &Vec<u8>) -> (h: Vec<u64>)
    ensures
        is_histogram_of(h@, gray@),
        total(h@) == gray@.len(),
{
    let mut h: Vec<u64> = Vec::new();
    let mut k: usize = 0;
    while k < HISTOGRAM_BUCKETS
        invariant
            k <= HISTOGRAM_BUCKETS,
            h@.len() == k,
            forall|v: int| 0 <= v < k ==> #[trigger] h@[v] == 0,
        decreases HISTOGRAM_BUCKETS - k,
    {
        h.push(0);
        k = k + 1;
    }
    let n: usize = gray.len();
    let mut i: usize = 0;
    while i < n
        invariant
            i <= gray@.len(),
            n == gray@.len(),
            h@.len() == HISTOGRAM_BUCKETS,
            forall|v: int|
                0 <= v < HISTOGRAM_BUCKETS ==> #[trigger] h@[v] == count(
                    gray@.subrange(0, i as int),
                    v,
                ),
        decreases gray@.len() - i,
    {
        let g = gray[i] as usize;
        let ghost pre = gray@.subrange(0, i as int);
        let ghost next = gray@.subrange(0, i + 1);
        assert(next.drop_last() =~= pre);
        proof {
            lemma_count_le_len(pre, g as int);
        }
        let c = h[g];
        h.set(g, c + 1);
        assert forall|v: int| 0 <= v < HISTOGRAM_BUCKETS implies #[trigger] h@[v] == count(
            next,
            v,
        ) by {
            assert(count(next, v) == count(pre, v) + if next.last() as int == v {
                1nat
            } else {
                0nat
            });
        }
        i = i + 1;
    }
    assert(gray@.subrange(0, gray@.len() as int) =~= gray@);
    proof {
        lemma_histogram_total(h@, gray@);
    }
    h
}

/// Sample coordinate `k` of the palette for a `w` by `h` image: a corner
/// offset, the centre, the opposite corner offset, the quadrant centres and
/// the edge midpoints.
pub open spec fn sample_point(w: int, h: int, k: int) -> (int, int) {
    if k == 0 {
        (if w - 1 < 10 { w - 1 } else { 10 }, if h - 1 < 10 { h - 1 } else { 10 })
    } else if k == 1 {
        (w / 2, h / 2)
    } else if k == 2 {
        (if w >= 10 { w - 10 } else { 0 }, if h >= 10 { h - 10 } else { 0 })
    } else if k == 3 {
        (w / 4, h / 4)
    } else if k == 4 {
        (3 * w / 4, h / 4)
    } else if k == 5 {
        (w / 4, 3 * h / 4)
    } else if k == 6 {
        (3 * w / 4, 3 * h / 4)
    } else if k == 7 {
        (w / 2, h / 4)
    } else if k == 8 {
        (w / 2, 3 * h / 4)
    } else {
        (w / 4, h / 2)
    }
}

/// The ten palette sample coordinates of a non-empty image, each inside it.
pub fn sample_points(width: u32, height: u32) -> (r: Vec<(u32, u32)>)
    requires
        width > 0,
        height > 0,
    ensures
        r@.len() == PALETTE_SIZE,
        forall|k: int|
            0 <= k < PALETTE_SIZE ==> (#[trigger] r@[k]).0 as int == sample_point(
                width as int,
                height as int,
                k,
            ).0 && r@[k].1 as int == sample_point(width as int, height as int, k).1,
        forall|k: int| 0 <= k < PALETTE_SIZE ==> (#[trigger] r@[k]).0 < width && r@[k].1 < height,
{
    let w = width as u64;
    let h = height as u64;
    let q1x = (w / 4) as u32;
    let q1y = (h / 4) as u32;
    let q3x = (3 * w / 4) as u32;
    let q3y = (3 * h / 4) as u32;
    let mx = width / 2;
    let my = height / 2;
    let r = vec![
        (if width - 1 < 10 { width - 1 } else { 10 }, if height - 1 < 10 { height - 1 } else { 10 }),
        (mx, my),
        (if width >= 10 { width - 10 } else { 0 }, if height >= 10 { height - 10 } else { 0 }),
        (q1x, q1y),
        (q3x, q1y),
        (q1x, q3y),
        (q3x, q3y),
        (mx, q1y),
        (mx, q3y),
        (q1x, my),
    ];
    r
}

/// The pixel at column `x`, row `y`.
pub fn pixel_at(img: &Raster, x: u32, y: u32) -> (p: Pixel)
    requires
        img.wf(),
        x < img.width,
        y < img.height,
    ensures
        p == img.px(x as int, y as int),
{
    let w = img.width as usize;
    proof {
        let wi = img.width as int;
        let hi = img.height as int;
        assert(y as int * wi + x as int + 1 <= wi * hi) by (nonlinear_arith)
            requires
                x < wi,
                y < hi,
        ;
        assert(4 * (y as int * wi + x as int) + 3 < img.data@.len());
    }
    let _len: usize = img.data.len();
    let i: usize = 4 * (y as usize * w + x as usize);
    (img.data[i], img.data[i + 1], img.data[i + 2], img.data[i + 3])
}

/// Colour text of each palette sample of `img`, in sample order.
pub open spec fn is_palette_of(p: Seq<String>, img: Raster) -> bool {
    &&& p.len() == PALETTE_SIZE
    &&& forall|k: int|
        0 <= k < PALETTE_SIZE ==> {
            let (x, y) = sample_point(img.width as int, img.height as int, k);
            let c = img.px(x, y);
            (#[trigger] p[k])@ == color_text(c.0, c.1, c.2)
        }
}

/// The ten sampled colours of a non-empty image as `#rrggbb` strings.
pub fn palette(img: &Raster) -> (p: Vec<String>)
    requires
        img.wf(),
        img.width > 0,
        img.height > 0,
    ensures
        is_palette_of(p@, *img),
        forall|k: int| 0 <= k < p@.len() ==> is_color_text((#[trigger] p@[k])@),
{
    let points = sample_points(img.width, img.height);
    let mut p: Vec<String> = Vec::new();
    let mut k: usize = 0;
    while k < PALETTE_SIZE
        invariant
            img.wf(),
            points@.len() == PALETTE_SIZE,
            forall|j: int|
                0 <= j < PALETTE_SIZE ==> (#[trigger] points@[j]).0 as int == sample_point(
                    img.width as int,
                    img.height as int,
                    j,
                ).0 && points@[j].1 as int == sample_point(img.width as int, img.height as int, j).1,
            forall|j: int|
                0 <= j < PALETTE_SIZE ==> (#[trigger] points@[j]).0 < img.width && points@[j].1
                    < img.height,
            k <= PALETTE_SIZE,
            p@.len() == k,
            forall|j: int|
                0 <= j < k ==> {
                    let (x, y) = sample_point(img.width as int, img.height as int, j);
                    let c = img.px(x, y);
                    (#[trigger] p@[j])@ == color_text(c.0, c.1, c.2)
                },
            forall|j: int| 0 <= j < k ==> is_color_text((#[trigger] p@[j])@),
        decreases PALETTE_SIZE - k,
    {
        let (x, y) = points[k];
        let c = pixel_at(img, x, y);
        p.push(color_hex(c.0, c.1, c.2));
        k = k + 1;
    }
    p
}

/// No two entries share a tag.
pub open spec fn tags_unique(m: Seq<(String, String)>) -> bool {
    forall|i: int, j: int| 0 <= i < j < m.len() ==> (#[trigger] m[i]).0@ != (#[trigger] m[j]).0@
}

/// `e` is an entry among the first `n` of `entries` that no later one of
/// those `n` entries overrides by tag.
pub open spec fn is_last_of(entries: Seq<(String, String)>, n: int, e: (String, String)) -> bool {
    exists|j: int|
        0 <= j < n && #[trigger] entries[j] == e && forall|k: int|
            j < k < n ==> (#[trigger] entries[k]).0@ != e.0@
}

/// `m` holds, once per tag, the last value that `entries` gives each tag.
pub open spec fn is_tag_map_of(m: Seq<(String, String)>, entries: Seq<(String, String)>) -> bool {
    &&& tags_unique(m)
    &&& forall|i: int| 0 <= i < m.len() ==> is_last_of(entries, entries.len() as int, #[trigger] m[i])
    &&& forall|j: int| 0 <= j < entries.len() ==> has_tag(m, (#[trigger] entries[j]).0@)
}

/// Some entry of `m` carries tag `t`.
pub open spec fn has_tag(m: Seq<(String, String)>, t: Seq<char>) -> bool {
    exists|i: int| 0 <= i < m.len() && m[i].0@ == t
}

proof fn lemma_last_extends(entries: Seq<(String, String)>, n: int, x: (String, String))
    requires
        0 <= n < entries.len(),
        is_last_of(entries, n, x),
        entries[n].0@ != x.0@,
    ensures
        is_last_of(entries, n + 1, x),
{
    let j = choose|j: int|
        0 <= j < n && #[trigger] entries[j] == x && forall|k: int|
            j < k < n ==> (#[trigger] entries[k]).0@ != x.0@;
    assert(0 <= j < n + 1 && entries[j] == x);
}

/// Stores `e` in `m`: it replaces the entry with its tag, or is appended.
fn put_tag(m: &mut Vec<(String, String)>, e: (String, String)) -> (idx: usize)
    requires
        tags_unique(old(m)@),
    ensures
        tags_unique(final(m)@),
        idx < final(m)@.len(),
        final(m)@[idx as int] == e,
        final(m)@.len() >= old(m)@.len(),
        forall|k: int|
            0 <= k < old(m)@.len() ==> (#[trigger] final(m)@[k]).0@ == old(m)@[k].0@,
        forall|i: int|
            0 <= i < final(m)@.len() ==> #[trigger] final(m)@[i] == e || (i < old(m)@.len()
                && final(m)@[i] == old(m)@[i] && old(m)@[i].0@ != e.0@),
{
    let len: usize = m.len();
    let mut i: usize = len;
    let mut k: usize = 0;
    while k < len
        invariant
            len == m@.len(),
            k <= len,
            i < len ==> m@[i as int].0@ == e.0@,
            i == len ==> forall|q: int| 0 <= q < k ==> (#[trigger] m@[q]).0@ != e.0@,
            i <= len,
        decreases len - k,
    {
        if i == len && m[k].0 == e.0 {
            i = k;
        }
        k = k + 1;
    }
    let ghost old_m = m@;
    if i < len {
        m.set(i, e);
        assert forall|a: int, b: int| 0 <= a < b < m@.len() implies (#[trigger] m@[a]).0@
            != (#[trigger] m@[b]).0@ by {
            assert(old_m[a].0@ != old_m[b].0@);
        }
        assert forall|q: int| 0 <= q < m@.len() && q != i implies old_m[q].0@ != e.0@ by {
            if q < i {
                assert(old_m[q].0@ != old_m[i as int].0@);
            } else {
                assert(old_m[i as int].0@ != old_m[q].0@);
            }
        }
        i
    } else {
        m.push(e);
        assert forall|a: int, b: int| 0 <= a < b < m@.len() implies (#[trigger] m@[a]).0@
            != (#[trigger] m@[b]).0@ by {
            if b < old_m.len() {
                assert(old_m[a].0@ != old_m[b].0@);
            }
        }
        len
    }
}

/// Collapses tag/value entries into one entry per tag, the later value winning.
pub fn collect_tags(entries: &Vec<(String, String)>) -> (m: Vec<(String, String)>)
    ensures
        is_tag_map_of(m@, entries@),
{
    let mut m: Vec<(String, String)> = Vec::new();
    let mut n: usize = 0;
    while n < entries.len()
        invariant
            n <= entries@.len(),
            tags_unique(m@),
            forall|i: int| 0 <= i < m@.len() ==> is_last_of(entries@, n as int, #[trigger] m@[i]),
            forall|j: int| 0 <= j < n ==> has_tag(m@, (#[trigger] entries@[j]).0@),
        decreases entries@.len() - n,
    {
        let e = (entries[n].0.clone(), entries[n].1.clone());
        assert(e == entries@[n as int]);
        let ghost old_m = m@;
        let idx = put_tag(&mut m, e);
        assert forall|k: int| 0 <= k < m@.len() implies is_last_of(
            entries@,
            n + 1,
            #[trigger] m@[k],
        ) by {
            if m@[k] == e {
                assert(0 <= n < n + 1 && entries@[n as int] == m@[k]);
            } else {
                assert(is_last_of(entries@, n as int, old_m[k]));
                lemma_last_extends(entries@, n as int, m@[k]);
            }
        }
        assert forall|j: int| 0 <= j < n + 1 implies has_tag(m@, (#[trigger] entries@[j]).0@) by {
            if j == n {
                assert(m@[idx as int].0@ == entries@[j].0@);
            } else {
                assert(has_tag(old_m, entries@[j].0@));
                let q = choose|q: int| 0 <= q < old_m.len() && old_m[q].0@ == entries@[j].0@;
                assert(m@[q].0@ == old_m[q].0@);
            }
        }
        n = n + 1;
    }
    assert forall|i: int| 0 <= i < m@.len() implies is_last_of(
        entries@,
        entries@.len() as int,
        #[trigger] m@[i],
    ) by {
        assert(is_last_of(entries@, n as int, m@[i]));
    }
    m
}

/// Everything known about one image file.
pub struct ImageInfo {
    pub width: u32,
    pub height: u32,
    pub format: String,
    pub color_type: String,
    pub size_bytes: u64,
    pub path: String,
    pub name: String,
    pub exif: Option<Vec<(String, String)>>,
    pub palette: Vec<String>,
    pub histogram: Vec<u64>,
    pub ocr_text: Option<String>,
}

/// A path and file name found by a directory listing.
pub struct SimpleImageInfo {
    pub path: String,
    pub name: String,
    pub ocr_text: Option<String>,
}

/// Assembles the record of a decoded image from what the codec and the file
/// system reported. An image without pixels is refused as undecodable; EXIF
/// entries keep one value per tag, the last one given, and none become `None`.
pub fn extract_metadata(
    img: &Raster,
    format: String,
    color_type: String,
    size_bytes: u64,
    path: String,
    name: String,
    exif: Vec<(String, String)>,
) -> (r: Result<ImageInfo, ScanError>)
    requires
        img.wf(),
    ensures
        r is Err <==> img.width == 0 || img.height == 0,
        r matches Err(e) ==> e == ScanError::Decode,
        r matches Ok(info) ==> {
            &&& info.width == img.width
            &&& info.height == img.height
            &&& info.format == format
            &&& info.color_type == color_type
            &&& info.size_bytes == size_bytes
            &&& info.path == path
            &&& info.name == name
            &&& (info.exif is None <==> exif@.len() == 0)
            &&& (info.exif matches Some(m) ==> is_tag_map_of(m@, exif@))
            &&& is_palette_of(info.palette@, *img)
            &&& forall|k: int|
                0 <= k < info.palette@.len() ==> is_color_text((#[trigger] info.palette@[k])@)
            &&& is_histogram_of(info.histogram@, luma_of(img.data@))
            &&& total(info.histogram@) == img.area()
            &&& info.ocr_text is None
        },
{
    if img.width == 0 || img.height == 0 {
        return Err(ScanError::Decode);
    }
    let pal = palette(img);
    let gray = luminance(img);
    let hist = histogram(&gray);
    let exif_field = if exif.len() == 0 {
        None
    } else {
        Some(collect_tags(&exif))
    };
    Ok(ImageInfo {
        width: img.width,
        height: img.height,
        format,
        color_type,
        size_bytes,
        path,
        name,
        exif: exif_field,
        palette: pal,
        histogram: hist,
        ocr_text: None,
    })
}

} // verus!
