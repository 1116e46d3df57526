use std::rc::Rc;

use jxl_winthumb::error::CodecError;
use jxl_winthumb::format::{PixelFormat, WicPixelFormat};
use jxl_winthumb::frame::{swap_red_blue, FrameBuffer, JXLWICBitmapFrameDecode, Rect};

fn profile() -> Rc<Vec<u8>> {
    Rc::new(vec![1, 2, 3])
}

/// A frame whose sample at index `i` is `f(i)`.
fn wide_frame(
    format: PixelFormat,
    width: u32,
    height: u32,
    f: impl Fn(usize) -> u16,
) -> JXLWICBitmapFrameDecode {
    let channels = format.channel_count();
    let mut fb = FrameBuffer::new(width as usize, height as usize, channels);
    for (i, s) in fb.buf.iter_mut().enumerate() {
        *s = f(i);
    }
    JXLWICBitmapFrameDecode::new(fb, format, profile(), width, height)
}

#[test]
fn frame_buffer_new_is_zeroed() {
    let fb = FrameBuffer::new(3, 2, 4);
    assert_eq!(fb.channels, 4);
    assert_eq!(fb.buf, vec![0u16; 24]);
}

#[test]
fn full_copy_is_little_endian_samples() {
    let frame = wide_frame(PixelFormat::Rgb, 2, 1, |i| 0x0102 * (i as u16 + 1));
    let mut out = vec![0u8; 12];
    frame.CopyPixels(Some(Rect { x: 0, y: 0, width: 2, height: 1 }), None, &mut out).unwrap();
    assert_eq!(out, vec![0x02, 0x01, 0x04, 0x02, 0x06, 0x03, 0x08, 0x04, 0x0a, 0x05, 0x0c, 0x06]);
}

#[test]
fn reference_rgba_first_pixel() {
    // A 1024 by 1024 frame whose red channel is zero everywhere.
    let frame = wide_frame(PixelFormat::Rgba, 1024, 1024, |i| match i % 4 {
        0 => 0,
        1 => 42 * 257,
        2 => 0,
        _ => 65535,
    });
    assert_eq!(frame.GetSize(), (1024, 1024));
    let mut out = vec![0u8; 1024 * 1024 * 8];
    frame
        .CopyPixels(Some(Rect { x: 0, y: 0, width: 1024, height: 1024 }), None, &mut out)
        .unwrap();
    assert_eq!(&out[0..8], &[0, 0, 42, 42, 0, 0, 255, 255]);
    assert_eq!(&out[out.len() - 8..], &[0, 0, 42, 42, 0, 0, 255, 255]);
}

#[test]
fn rows_are_copied_top_to_bottom() {
    // One gray sample per pixel, equal to its row number.
    let frame = wide_frame(PixelFormat::Gray, 2, 3, |i| (i / 2) as u16);
    let mut out = vec![0u8; 12];
    frame.CopyPixels(Some(Rect { x: 0, y: 0, width: 2, height: 3 }), None, &mut out).unwrap();
    assert_eq!(out, vec![0, 0, 0, 0, 1, 0, 1, 0, 2, 0, 2, 0]);
}

#[test]
fn sub_rect_with_stride_leaves_gaps() {
    let frame = wide_frame(PixelFormat::Gray, 3, 3, |i| i as u16);
    let mut out = vec![0xeeu8; 10];
    frame
        .CopyPixels(Some(Rect { x: 1, y: 1, width: 2, height: 2 }), Some(6), &mut out)
        .unwrap();
    assert_eq!(out, vec![4, 0, 5, 0, 0xee, 0xee, 7, 0, 8, 0]);
}

#[test]
fn split_rows_concatenate_to_whole() {
    let frame = wide_frame(PixelFormat::Cmyka, 3, 4, |i| (i * 37 % 65536) as u16);
    let mut whole = vec![0u8; 3 * 4 * 10];
    frame.CopyPixels(Some(Rect { x: 0, y: 0, width: 3, height: 4 }), None, &mut whole).unwrap();
    for top in 0..=4 {
        let mut upper = vec![0u8; 30 * top as usize];
        let mut lower = vec![0u8; 30 * (4 - top) as usize];
        frame.CopyPixels(Some(Rect { x: 0, y: 0, width: 3, height: top }), None, &mut upper).unwrap();
        frame
            .CopyPixels(Some(Rect { x: 0, y: top, width: 3, height: 4 - top }), None, &mut lower)
            .unwrap();
        upper.extend_from_slice(&lower);
        assert_eq!(upper, whole);
    }
}

#[test]
fn absent_rect_is_invalid() {
    let frame = wide_frame(PixelFormat::Rgb, 2, 2, |_| 7);
    let mut out = vec![9u8; 24];
    assert_eq!(frame.CopyPixels(None, None, &mut out), Err(CodecError::InvalidArgument));
    assert_eq!(out, vec![9u8; 24]);
}

#[test]
fn out_of_range_rect_is_invalid() {
    let frame = wide_frame(PixelFormat::Rgb, 2, 2, |_| 7);
    let mut out = vec![9u8; 64];
    for rect in [
        Rect { x: 1, y: 0, width: 2, height: 1 },
        Rect { x: 0, y: 2, width: 1, height: 1 },
        Rect { x: -1, y: 0, width: 1, height: 1 },
        Rect { x: 0, y: 0, width: 1, height: -1 },
    ] {
        assert_eq!(frame.CopyPixels(Some(rect), None, &mut out), Err(CodecError::InvalidArgument));
    }
    assert_eq!(out, vec![9u8; 64]);
}

#[test]
fn short_stride_or_buffer_is_invalid() {
    let frame = wide_frame(PixelFormat::Rgb, 2, 2, |_| 7);
    let full = Rect { x: 0, y: 0, width: 2, height: 2 };
    let mut out = vec![9u8; 23];
    assert_eq!(frame.CopyPixels(Some(full), None, &mut out), Err(CodecError::InvalidArgument));
    let mut out = vec![9u8; 64];
    assert_eq!(frame.CopyPixels(Some(full), Some(11), &mut out), Err(CodecError::InvalidArgument));
    let mut out = vec![9u8; 24];
    assert_eq!(frame.CopyPixels(Some(full), Some(13), &mut out), Err(CodecError::InvalidArgument));
    let mut out = vec![9u8; 25];
    assert_eq!(frame.CopyPixels(Some(full), Some(13), &mut out), Ok(()));
}

#[test]
fn gray_alpha_is_refused_for_every_rect() {
    let frame = wide_frame(PixelFormat::GrayAlpha, 2, 2, |_| 1);
    let mut out = vec![0u8; 64];
    assert_eq!(frame.GetPixelFormat(), Err(CodecError::UnsupportedPixelFormat));
    let rects = [
        None,
        Some(Rect { x: 0, y: 0, width: 2, height: 2 }),
        Some(Rect { x: 0, y: 0, width: 0, height: 0 }),
        Some(Rect { x: 5, y: 5, width: 9, height: 9 }),
    ];
    for rect in rects {
        for stride in [None, Some(0), Some(100)] {
            assert_eq!(
                frame.CopyPixels(rect, stride, &mut out),
                Err(CodecError::UnsupportedPixelFormat)
            );
        }
    }
    assert_eq!(out, vec![0u8; 64]);
}

#[test]
fn pixel_format_per_layout() {
    let cases = [
        (PixelFormat::Gray, WicPixelFormat::Gray16),
        (PixelFormat::Rgb, WicPixelFormat::Rgb48),
        (PixelFormat::Rgba, WicPixelFormat::Rgba64),
        (PixelFormat::Cmyk, WicPixelFormat::Cmyk64),
        (PixelFormat::Cmyka, WicPixelFormat::CmykAlpha80),
    ];
    for (layout, expected) in cases {
        let frame = wide_frame(layout, 1, 1, |_| 0);
        assert_eq!(frame.GetPixelFormat(), Ok(expected));
        assert_eq!(frame.pixel_format(), layout);
    }
    assert_eq!(PixelFormat::GrayAlpha.channel_count(), 2);
    assert_eq!(PixelFormat::Cmyka.channel_count(), 5);
}

#[test]
fn eight_bit_frames_copy_as_bgra() {
    let pixels = vec![1, 2, 3, 4, 5, 6, 7, 8];
    let frame = JXLWICBitmapFrameDecode::from_rgba8(pixels, profile(), 2, 1);
    assert_eq!(frame.GetPixelFormat(), Ok(WicPixelFormat::Bgra32));
    let mut out = vec![0u8; 8];
    frame.CopyPixels(Some(Rect { x: 0, y: 0, width: 2, height: 1 }), None, &mut out).unwrap();
    assert_eq!(out, vec![3, 2, 1, 4, 7, 6, 5, 8]);
    let mut one = vec![0u8; 4];
    frame.CopyPixels(Some(Rect { x: 1, y: 0, width: 1, height: 1 }), None, &mut one).unwrap();
    assert_eq!(one, vec![7, 6, 5, 8]);
}

#[test]
fn swapping_twice_restores_buffer() {
    let original: Vec<u8> = (0..32).collect();
    let mut buf = original.clone();
    swap_red_blue(&mut buf);
    assert_eq!(&buf[0..8], &[2, 1, 0, 3, 6, 5, 4, 7]);
    swap_red_blue(&mut buf);
    assert_eq!(buf, original);
}

#[test]
fn swapping_empty_buffer() {
    let mut buf: Vec<u8> = Vec::new();
    swap_red_blue(&mut buf);
    assert!(buf.is_empty());
}

#[test]
fn frame_fixed_answers() {
    let frame = wide_frame(PixelFormat::Rgb, 1, 1, |_| 0);
    assert_eq!(frame.GetResolution(), (96, 96));
    assert_eq!(frame.CopyPalette(), Err(CodecError::UnsupportedOperation));
    assert_eq!(frame.GetMetadataQueryReader(), Err(CodecError::UnsupportedOperation));
    assert_eq!(frame.GetThumbnail(), Err(CodecError::NoThumbnail));
    let contexts = frame.GetColorContexts(1);
    assert_eq!(contexts.actual_count, 1);
    assert_eq!(*contexts.profile.unwrap(), vec![1, 2, 3]);
}
