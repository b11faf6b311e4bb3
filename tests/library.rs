use photo_scanner::cache::{cache_key, heatmap_file_name, thumbnail_file_name, ArtifactIndex};
use photo_scanner::error::ScanError;
use photo_scanner::heatmap::{edge_strengths, focus_heatmap, heatmap_from_luma, needs_downscale};
use photo_scanner::hex::{color_hex, hex_string};
use photo_scanner::listing::{is_image_extension, select_entry};
use photo_scanner::metadata::{extract_metadata, histogram, palette, pixel_at, sample_points};
use photo_scanner::ocr::{assemble_text, missing_models, ModelAsset};
use photo_scanner::raster::{thumbnail, Raster};
use photo_scanner::transform::{apply_transform, parse_action, transform_image, Transform};

fn solid(width: u32, height: u32, px: [u8; 4]) -> Raster {
    let mut data = Vec::new();
    for _ in 0..(width * height) {
        data.extend_from_slice(&px);
    }
    Raster::from_rgba(width, height, data).unwrap()
}

fn numbered(width: u32, height: u32) -> Raster {
    let mut data = Vec::new();
    for i in 0..(width * height) {
        data.extend_from_slice(&[i as u8, (i * 7) as u8, (i * 13) as u8, 255]);
    }
    Raster::from_rgba(width, height, data).unwrap()
}

fn is_color_text(s: &str) -> bool {
    s.len() == 7
        && s.starts_with('#')
        && s[1..].chars().all(|c| c.is_ascii_hexdigit())
}

fn record(img: &Raster) -> photo_scanner::metadata::ImageInfo {
    extract_metadata(
        img,
        "Png".to_string(),
        "Rgba8".to_string(),
        1234,
        "/photos/x.png".to_string(),
        "x.png".to_string(),
        Vec::new(),
    )
    .unwrap()
}

#[test]
fn black_image_histogram_and_palette() {
    let img = solid(200, 100, [0, 0, 0, 255]);
    let info = record(&img);
    assert_eq!(info.histogram.len(), 256);
    assert_eq!(info.histogram[0], 20000);
    assert!(info.histogram[1..].iter().all(|&c| c == 0));
    assert_eq!(info.palette.len(), 10);
    assert!(info.palette.iter().all(|p| p == "#000000"));
    assert_eq!(info.width, 200);
    assert_eq!(info.height, 100);
    assert!(info.exif.is_none());
    assert!(info.ocr_text.is_none());
}

#[test]
fn histogram_sums_to_pixel_count() {
    for (w, h) in [(1u32, 1u32), (3, 5), (17, 9), (64, 2)] {
        let info = record(&numbered(w, h));
        let sum: u64 = info.histogram.iter().sum();
        assert_eq!(sum, (w * h) as u64);
    }
}

#[test]
fn white_pixels_land_in_top_bucket() {
    let info = record(&solid(4, 3, [255, 255, 255, 255]));
    assert_eq!(info.histogram[255], 12);
    assert_eq!(info.palette[0], "#ffffff");
}

#[test]
fn palette_has_ten_hex_entries_even_for_tiny_images() {
    for (w, h) in [(1u32, 1u32), (2, 3), (9, 9), (30, 11)] {
        let p = palette(&numbered(w, h));
        assert_eq!(p.len(), 10);
        assert!(p.iter().all(|s| is_color_text(s)), "{:?}", p);
    }
}

#[test]
fn sample_points_are_clamped_into_the_image() {
    let pts = sample_points(1, 1);
    assert_eq!(pts.len(), 10);
    assert!(pts.iter().all(|&p| p == (0, 0)));
    let pts = sample_points(200, 100);
    assert_eq!(pts[0], (10, 10));
    assert_eq!(pts[1], (100, 50));
    assert_eq!(pts[2], (190, 90));
    assert_eq!(pts[6], (150, 75));
    assert_eq!(pts[9], (50, 50));
}

#[test]
fn empty_image_is_a_decode_error() {
    let img = Raster::from_rgba(0, 5, Vec::new()).unwrap();
    let r = extract_metadata(&img, String::new(), String::new(), 0, String::new(), String::new(), Vec::new());
    assert!(matches!(r, Err(ScanError::Decode)));
}

#[test]
fn exif_entries_are_kept() {
    let img = solid(2, 2, [1, 2, 3, 255]);
    let exif = vec![("Make".to_string(), "Acme".to_string())];
    let info = extract_metadata(&img, String::new(), String::new(), 0, String::new(), String::new(), exif).unwrap();
    assert_eq!(info.exif.unwrap(), vec![("Make".to_string(), "Acme".to_string())]);
    assert_eq!(info.palette[0], "#010203");
}

#[test]
fn exif_repeated_tags_keep_the_last_value() {
    let img = solid(2, 2, [1, 2, 3, 255]);
    let exif = vec![
        ("Make".to_string(), "Old".to_string()),
        ("Model".to_string(), "X1".to_string()),
        ("Make".to_string(), "New".to_string()),
    ];
    let info = extract_metadata(&img, String::new(), String::new(), 0, String::new(), String::new(), exif).unwrap();
    let mut tags = info.exif.unwrap();
    tags.sort();
    assert_eq!(
        tags,
        vec![("Make".to_string(), "New".to_string()), ("Model".to_string(), "X1".to_string())]
    );
}

#[test]
fn raster_rejects_mismatched_buffer() {
    assert!(Raster::from_rgba(2, 2, vec![0; 15]).is_none());
    assert!(Raster::from_rgba(2, 2, vec![0; 16]).is_some());
}

#[test]
fn pixel_lookup_reads_row_major() {
    let img = numbered(3, 2);
    assert_eq!(pixel_at(&img, 2, 1), (5, 35, 65, 255));
}

#[test]
fn histogram_counts_values() {
    let h = histogram(&vec![3, 3, 0, 255]);
    assert_eq!(h[3], 2);
    assert_eq!(h[0], 1);
    assert_eq!(h[255], 1);
    assert_eq!(h.iter().sum::<u64>(), 4);
}

#[test]
fn color_hex_is_lowercase_rgb() {
    assert_eq!(color_hex(255, 0, 171), "#ff00ab");
    assert_eq!(color_hex(0, 0, 0), "#000000");
    assert_eq!(hex_string(&vec![0x0f, 0xa0]), "0fa0");
}

#[test]
fn cache_key_is_sha256_of_path_then_purpose() {
    assert_eq!(
        cache_key("", ""),
        "e3b0c44298fc1c149afbf4c8996fb92427ae41e4649b934ca495991b7852b855"
    );
    assert_eq!(
        cache_key("abc", ""),
        "ba7816bf8f01cfea414140de5dae2223b00361a396177a9cb410ff61f20015ad"
    );
    assert_eq!(cache_key("ab", "c"), cache_key("abc", ""));
    assert_eq!(cache_key("/a/b.jpg", "thumb"), cache_key("/a/b.jpg", "thumb"));
}

#[test]
fn distinct_purposes_give_distinct_names() {
    let t = thumbnail_file_name("/a/b.jpg");
    let h = heatmap_file_name("/a/b.jpg");
    assert_ne!(t, h);
    assert!(t.ends_with(".jpg"));
    assert!(h.ends_with(".png"));
    assert_eq!(t, format!("{}.jpg", cache_key("/a/b.jpg", "thumb")));
    assert_ne!(cache_key("/a/b.jpg", "thumb"), cache_key("/a/b.jpg", "focus_peak"));
}

#[test]
fn get_or_create_hits_after_first_build() {
    let mut index = ArtifactIndex::new();
    let first = index.get_or_create("/p.png", "thumb", "jpg");
    assert!(first.build);
    index.record(first.file_name.clone());
    let second = index.get_or_create("/p.png", "thumb", "jpg");
    assert!(!second.build);
    assert_eq!(first.file_name, second.file_name);
    let other = index.get_or_create("/p.png", "focus_peak", "png");
    assert!(other.build);
}

fn gray_3x3(center: u8, around: u8) -> Vec<u8> {
    let mut g = vec![around; 9];
    g[4] = center;
    g
}

#[test]
fn edge_strength_is_gained_and_clamped() {
    let e = edge_strengths(&gray_3x3(100, 0), 3, 3);
    assert_eq!(e, vec![0, 0, 0, 0, 255, 0, 0, 0, 0]);
    let e = edge_strengths(&gray_3x3(10, 9), 3, 3);
    assert_eq!(e[4], 20);
    let e = edge_strengths(&gray_3x3(0, 10), 3, 3);
    assert_eq!(e[4], 200);
}

#[test]
fn overlay_threshold_is_strict() {
    // A response of 8 gives exactly the threshold: not highlighted.
    let h = heatmap_from_luma(&gray_3x3(10, 8), 3, 3);
    assert_eq!(&h.data[16..20], &[0, 0, 0, 0]);
    // A response of 36 gives 180: highlighted with that alpha.
    let h = heatmap_from_luma(&gray_3x3(9, 0), 3, 3);
    assert_eq!(&h.data[16..20], &[0, 255, 0, 180]);
}

#[test]
fn heatmap_keeps_dimensions_and_clear_frame() {
    let img = numbered(7, 5);
    let h = focus_heatmap(&img);
    assert_eq!((h.width, h.height), (7, 5));
    assert_eq!(h.data.len(), 7 * 5 * 4);
    for y in 0..5usize {
        for x in 0..7usize {
            if x == 0 || y == 0 || x == 6 || y == 4 {
                let i = 4 * (y * 7 + x);
                assert_eq!(&h.data[i..i + 4], &[0, 0, 0, 0]);
            }
        }
    }
}

#[test]
fn large_images_are_downscaled_for_the_heatmap() {
    assert!(needs_downscale(1001, 10));
    assert!(!needs_downscale(1000, 1000));
    let img = solid(2000, 10, [50, 50, 50, 255]);
    let h = focus_heatmap(&img);
    assert!(h.width <= 1000 && h.height <= 1000);
    assert_eq!(h.data.len(), (h.width * h.height * 4) as usize);
    assert!(h.data.iter().all(|&b| b == 0));
}

#[test]
fn thumbnail_fits_the_box() {
    let t = thumbnail(&solid(400, 200, [9, 9, 9, 255]));
    assert_eq!((t.width, t.height), (100, 50));
    assert_eq!(&t.data[0..4], &[9, 9, 9, 255]);
    let t = thumbnail(&solid(30, 90, [1, 2, 3, 255]));
    assert_eq!((t.width, t.height), (33, 100));
    let t = thumbnail(&solid(1000, 1, [1, 2, 3, 255]));
    assert_eq!((t.width, t.height), (100, 1));
    let t = thumbnail(&solid(2_000_000, 1, [200, 100, 50, 255]));
    assert_eq!((t.width, t.height), (100, 1));
    assert_eq!(&t.data[0..4], &[200, 100, 50, 255]);
}

#[test]
fn large_heatmap_source_fills_the_bound() {
    let h = focus_heatmap(&solid(3000, 1500, [7, 7, 7, 255]));
    assert_eq!((h.width, h.height), (1000, 500));
}

#[test]
fn unknown_action_is_rejected() {
    assert_eq!(parse_action("rotate45"), Err(ScanError::UnknownAction));
    assert_eq!(parse_action("Rotate90"), Err(ScanError::UnknownAction));
    assert!(matches!(transform_image(numbered(2, 2), "explode"), Err(ScanError::UnknownAction)));
    assert_eq!(parse_action("flip_v"), Ok(Transform::FlipV));
    assert_eq!(parse_action("strip_meta"), Ok(Transform::StripMeta));
}

#[test]
fn rotate180_twice_restores_pixels() {
    let img = numbered(5, 3);
    let once = transform_image(numbered(5, 3), "rotate180").unwrap();
    assert_ne!(once.data, img.data);
    let twice = transform_image(once, "rotate180").unwrap();
    assert_eq!((twice.width, twice.height), (5, 3));
    assert_eq!(twice.data, img.data);
}

#[test]
fn rotate90_and_flips_move_pixels() {
    let r = apply_transform(numbered(2, 1), Transform::Rotate90);
    assert_eq!((r.width, r.height), (1, 2));
    assert_eq!(pixel_at(&r, 0, 0).0, 0);
    assert_eq!(pixel_at(&r, 0, 1).0, 1);
    let f = apply_transform(numbered(3, 1), Transform::FlipH);
    assert_eq!(pixel_at(&f, 0, 0).0, 2);
    let v = apply_transform(numbered(1, 2), Transform::FlipV);
    assert_eq!(pixel_at(&v, 0, 0).0, 1);
    let s = apply_transform(numbered(2, 2), Transform::StripMeta);
    assert_eq!(s.data, numbered(2, 2).data);
}

#[test]
fn listing_matches_extensions_ignoring_case() {
    assert!(select_entry(true, Some("JPG")));
    assert!(!select_entry(true, Some("txt")));
    assert!(!select_entry(false, None));
    assert!(!select_entry(true, None));
    assert!(is_image_extension("JpEg"));
    assert!(is_image_extension("webp"));
    assert!(!is_image_extension("tiff"));
    assert!(is_image_extension("PnG"));
    assert!(!is_image_extension("jpgx"));
    assert!(!is_image_extension("jp"));
    assert!(!is_image_extension(""));
}

#[test]
fn ocr_without_lines_is_empty_text() {
    assert_eq!(assemble_text(&Vec::new()), "");
    assert_eq!(assemble_text(&vec![None, Some(String::new())]), "");
}

#[test]
fn ocr_lines_join_in_order() {
    let lines = vec![Some("first".to_string()), None, Some(String::new()), Some("second".to_string())];
    assert_eq!(assemble_text(&lines), "first\nsecond");
}

#[test]
fn only_absent_models_are_fetched() {
    assert_eq!(missing_models(true, true), vec![]);
    assert_eq!(missing_models(false, true), vec![ModelAsset::Detection]);
    assert_eq!(missing_models(false, false), vec![ModelAsset::Detection, ModelAsset::Recognition]);
    assert_eq!(ModelAsset::Recognition.file_name(), "text-recognition.rten");
    assert_eq!(
        ModelAsset::Detection.url(),
        "https://ocrs-models.s3.amazonaws.com/text-detection.rten"
    );
}
