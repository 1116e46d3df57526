use jxl_winthumb::decoder::{expand_to_rgba, JXLWICBitmapDecoder};
use jxl_winthumb::error::CodecError;
use jxl_winthumb::format::PixelFormat;
use jxl_winthumb::thumbnail::{
    make_thumbnail, resize_triangle, session_thumbnail, thumbnail_size, AlphaSemantics, RgbaImage,
};

fn solid(width: u32, height: u32, rgba: [u8; 4]) -> RgbaImage {
    let mut pixels = Vec::new();
    for _ in 0..width * height {
        pixels.extend_from_slice(&rgba);
    }
    RgbaImage { width, height, pixels }
}

#[test]
fn wide_image_shrinks_to_max_edge() {
    assert_eq!(thumbnail_size(2000, 1000, 500), (500, 250));
    let thumb = make_thumbnail(&solid(2000, 1000, [10, 20, 30, 255]), 500);
    assert_eq!((thumb.width, thumb.height), (500, 250));
    assert_eq!(thumb.pixels.len(), 500 * 250 * 4);
    assert_eq!(&thumb.pixels[0..4], &[30, 20, 10, 255]);
    assert_eq!(thumb.alpha, AlphaSemantics::StraightAlpha);
}

#[test]
fn small_image_is_not_enlarged() {
    assert_eq!(thumbnail_size(100, 50, 500), (100, 50));
    assert_eq!(thumbnail_size(500, 500, 500), (500, 500));
    let thumb = make_thumbnail(&solid(3, 2, [1, 2, 3, 4]), 10);
    assert_eq!((thumb.width, thumb.height), (3, 2));
    assert_eq!(thumb.pixels, solid(3, 2, [3, 2, 1, 4]).pixels);
}

#[test]
fn sides_round_to_nearest() {
    assert_eq!(thumbnail_size(1000, 333, 100), (100, 33));
    assert_eq!(thumbnail_size(1000, 335, 100), (100, 34));
    assert_eq!(thumbnail_size(333, 1000, 100), (33, 100));
    assert_eq!(thumbnail_size(4000, 1, 100), (100, 0));
}

#[test]
fn zero_max_edge_gives_empty() {
    assert_eq!(thumbnail_size(10, 20, 0), (0, 0));
}

#[test]
fn longer_side_never_exceeds_max_edge() {
    for (w, h, e) in [(2000, 1000, 500), (1, 9999, 7), (1234, 1233, 1000), (17, 4, 3)] {
        let (nw, nh) = thumbnail_size(w, h, e);
        assert!(nw.max(nh) <= e);
        let ratio = w.max(h) as f64 / e as f64;
        assert!(((w as f64 / ratio) - nw as f64).abs() <= 0.5 + 1e-9);
        assert!(((h as f64 / ratio) - nh as f64).abs() <= 0.5 + 1e-9);
    }
}

#[test]
fn two_pixels_average_to_one() {
    let src = vec![10, 0, 0, 0, 20, 0, 0, 0];
    assert_eq!(resize_triangle(&src, 2, 1, 1, 1), vec![15, 0, 0, 0]);
}

#[test]
fn four_pixels_weighted_by_triangle() {
    let mut src = Vec::new();
    for v in [0u8, 0, 100, 100] {
        src.extend_from_slice(&[v, v, v, 255]);
    }
    assert_eq!(resize_triangle(&src, 4, 1, 1, 1), vec![50, 50, 50, 255]);
    let mut column = Vec::new();
    for v in [0u8, 0, 100, 100] {
        column.extend_from_slice(&[v, 0, 0, 0]);
    }
    assert_eq!(resize_triangle(&column, 1, 4, 1, 1), vec![50, 0, 0, 0]);
}

#[test]
fn same_size_resize_is_identity() {
    let src: Vec<u8> = (0..48).collect();
    assert_eq!(resize_triangle(&src, 4, 3, 4, 3), src);
}

#[test]
fn thumbnail_of_uninitialized_session() {
    let session = JXLWICBitmapDecoder::new();
    assert!(matches!(session_thumbnail(&session, 256), Err(CodecError::NotInitialized)));
}

#[test]
fn expand_gray_and_rgb() {
    let gray = expand_to_rgba(&vec![7, 9], PixelFormat::Gray, 2).unwrap();
    assert_eq!(gray, vec![7, 7, 7, 255, 9, 9, 9, 255]);
    let gray_alpha = expand_to_rgba(&vec![7, 1], PixelFormat::GrayAlpha, 1).unwrap();
    assert_eq!(gray_alpha, vec![7, 7, 7, 1]);
    let rgb = expand_to_rgba(&vec![1, 2, 3], PixelFormat::Rgb, 1).unwrap();
    assert_eq!(rgb, vec![1, 2, 3, 255]);
    let rgba = expand_to_rgba(&vec![1, 2, 3, 4], PixelFormat::Rgba, 1).unwrap();
    assert_eq!(rgba, vec![1, 2, 3, 4]);
    assert_eq!(
        expand_to_rgba(&vec![1, 2, 3, 4], PixelFormat::Cmyk, 1),
        Err(CodecError::UnsupportedPixelFormat)
    );
}
