use cosmetics::blur::{blur_encoded, blur_rgba, shrink_rgba};
use cosmetics::decode::decode_image;
use cosmetics::cache::{BlurCache, BLUR_CACHE_LIMIT};
use cosmetics::shadow::{blur_and_tint, padded_plane, tint_plane};
use cosmetics::style::TextAlign;
use cosmetics::toggle::{is_second, pair_index, Segments};

#[test]
fn text_align_defaults_left() {
    assert_eq!(TextAlign::default(), TextAlign::Left);
}

#[test]
fn plane_is_padded() {
    let p = padded_plane(&[1, 2, 3, 4], 2, 2, 1);
    assert_eq!(p, vec![0, 0, 0, 0, 0, 1, 2, 0, 0, 3, 4, 0, 0, 0, 0, 0]);
    assert_eq!(padded_plane(&[9], 1, 1, 0), vec![9]);
}

#[test]
fn tint_matches_float_rounding() {
    for p in 0..=255u8 {
        for t in 0..=255u8 {
            let out = tint_plane(&vec![p], [1, 2, 3, t]);
            let tint_a = t as f32 / 255.0;
            let expected = ((p as f32 / 255.0) * tint_a * 255.0).round() as u8;
            assert_eq!(out, vec![1, 2, 3, expected], "{} {}", p, t);
        }
    }
}

#[test]
fn unblurred_shadow_is_tinted_plane() {
    let (rgba, w, h) = blur_and_tint(&[255, 0], 2, 1, 0, [10, 20, 30, 128]);
    assert_eq!((w, h), (2, 1));
    assert_eq!(rgba, vec![10, 20, 30, 128, 10, 20, 30, 0]);
}

#[test]
fn blurred_shadow_spreads() {
    let alpha = vec![255u8; 64];
    let (rgba, pw, ph) = blur_and_tint(&alpha, 8, 8, 3, [0, 0, 0, 255]);
    assert_eq!((pw, ph), (14, 14));
    assert_eq!(rgba.len(), 4 * 14 * 14);
    // Unblurred, the margin row just above the block would be transparent.
    let above = rgba[4 * (2 * 14 + 7) + 3];
    assert!(above > 0);
    assert!(rgba.chunks(4).all(|p| p[0] == 0 && p[1] == 0 && p[2] == 0));
}

#[test]
fn blur_rgba_shrinks_and_checks_size() {
    let px = vec![200u8; 8 * 4 * 4];
    let (w, h, out) = blur_rgba(&px, 8, 4, 2).unwrap();
    assert_eq!((w, h), (2, 1));
    assert_eq!(out.len(), 8);
    let (w, h, out) = blur_rgba(&vec![7u8; 4], 1, 1, 1).unwrap();
    assert_eq!((w, h, out.len()), (1, 1, 4));
    assert!(blur_rgba(&vec![0u8; 10], 2, 2, 1).is_none());
}

#[test]
fn shrink_matches_triangle_resize() {
    let px: Vec<u8> = (0..8 * 8 * 4).map(|i| (i * 7 % 256) as u8).collect();
    let (w, h, out) = shrink_rgba(&px, 8, 8).unwrap();
    assert_eq!((w, h), (2, 2));
    let src = image::RgbaImage::from_raw(8, 8, px.clone()).unwrap();
    let expected = image::imageops::resize(&src, 2, 2, image::imageops::FilterType::Triangle).into_raw();
    assert_eq!(out, expected);
    assert!(shrink_rgba(&px, 9, 8).is_none());
}

#[test]
fn cache_remembers_and_empties_when_full() {
    let mut c: BlurCache<u32> = BlurCache::new();
    assert!(c.get(1, 2).is_none());
    c.insert(1, 2, 7);
    assert_eq!(c.get(1, 2), Some(&7));
    assert!(c.get(2, 1).is_none());
    for i in 0..(BLUR_CACHE_LIMIT as u64 - 1) {
        c.insert(100 + i, 0, 1);
    }
    assert_eq!(c.len(), BLUR_CACHE_LIMIT);
    c.insert(1, 2, 8);
    assert_eq!(c.len(), BLUR_CACHE_LIMIT);
    assert_eq!(c.get(1, 2), Some(&8));
    c.insert(5000, 0, 3);
    assert_eq!(c.len(), 1);
    assert_eq!(c.get(5000, 0), Some(&3));
}

#[test]
fn segments_clamp_selection() {
    let s = Segments::with_icons(&["a", "b", "c"], 9);
    assert_eq!(s.count(), 3);
    assert_eq!(s.selected(), 2);
    assert_eq!(s.icon(1), Some("b"));
    assert!(s.label(1).is_none());
    let p = Segments::plain(4, 1);
    assert_eq!((p.count(), p.selected()), (4, 1));
    assert_eq!(p.icon(0), None);
    let l = Segments::with_labels(&["x", "y"], 0);
    assert_eq!(l.label(1).map(|s| s.as_str()), Some("y"));
    let o = Segments::with_optional_icons(&[Some("a"), None], 1);
    assert_eq!(o.icon(1), None);
    assert!(o.selects_new(0));
    assert!(!o.selects_new(1));
}

#[test]
fn two_segment_helpers() {
    assert!(is_second(1));
    assert!(!is_second(0));
    assert_eq!(pair_index(true), 1);
    assert_eq!(pair_index(false), 0);
}

fn png_bytes(w: u32, h: u32) -> (Vec<u8>, Vec<u8>) {
    let px: Vec<u8> = (0..w * h * 4).map(|i| (i * 13 % 251) as u8).collect();
    let img = image::RgbaImage::from_raw(w, h, px.clone()).unwrap();
    let mut out = std::io::Cursor::new(Vec::new());
    img.write_to(&mut out, image::ImageFormat::Png).unwrap();
    (out.into_inner(), px)
}

#[test]
fn png_decodes_to_its_pixels() {
    let (bytes, px) = png_bytes(3, 2);
    assert_eq!(decode_image(&bytes, None), Some((3, 2, px)));
    assert_eq!(decode_image(b"not an image", None), None);
    assert_eq!(decode_image(&[], None), None);
}

#[test]
fn encoded_image_blurs_at_quarter_size() {
    let (bytes, _) = png_bytes(8, 12);
    let (w, h, out) = blur_encoded(&bytes, None, 2).unwrap();
    assert_eq!((w, h, out.len()), (2, 3, 24));
    assert!(blur_encoded(b"garbage", None, 2).is_none());
}

#[test]
fn file_contents_decode_by_extension() {
    let (bytes, px) = png_bytes(2, 3);
    assert_eq!(decode_image(&bytes, Some("png")), Some((2, 3, px.clone())));
    assert_eq!(decode_image(&bytes, Some("PNG")), Some((2, 3, px.clone())));
    assert_eq!(decode_image(&bytes, Some("jpg")), None);
    assert_eq!(decode_image(&bytes, Some("nope")), None);
    assert_eq!(decode_image(&bytes, Some("png")), Some((2, 3, px.clone())));
    assert_eq!(decode_image(&bytes, None), Some((2, 3, px)));
    let (w, h, out) = blur_encoded(&bytes, Some("png"), 1).unwrap();
    assert_eq!((w, h, out.len()), (1, 1, 4));
    assert!(blur_encoded(&bytes, Some("gif"), 1).is_none());
}
