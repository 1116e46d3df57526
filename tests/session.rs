use jxl_winthumb::decoder::{oriented_size, JXLWICBitmapDecoder, SessionState};
use jxl_winthumb::error::CodecError;
use jxl_winthumb::format::WicPixelFormat;
use jxl_winthumb::frame::Rect;

// A complete 42-byte JPEG XL codestream.
const SMALL_IMAGE: [u8; 42] = [
    0xff, 0x0a, 0x30, 0x54, 0x10, 0x09, 0x08, 0x06, 0x01, 0x00, 0x78, 0x00, 0x4b, 0x38, 0x41,
    0x3c, 0xb6, 0x3a, 0x51, 0xfe, 0x00, 0x47, 0x1e, 0xa0, 0x85, 0xb8, 0x27, 0x1a, 0x48, 0x45,
    0x84, 0x1b, 0x71, 0x4f, 0xa8, 0x3e, 0x8e, 0x30, 0x03, 0x92, 0x84, 0x01,
];

fn initialized() -> JXLWICBitmapDecoder {
    let mut session = JXLWICBitmapDecoder::new();
    session.Initialize(&SMALL_IMAGE).expect("the image decodes");
    session
}

#[test]
fn get_frame_before_initialize_is_not_initialized() {
    let mut session = JXLWICBitmapDecoder::new();
    assert!(matches!(session.GetFrame(0), Err(CodecError::NotInitialized)));
    assert!(matches!(session.GetFrame(7), Err(CodecError::NotInitialized)));
    assert_eq!(session.GetFrameCount(), Err(CodecError::NotInitialized));
}

#[test]
fn capability_is_reported_before_initialize() {
    let session = JXLWICBitmapDecoder::new();
    let cap = session.QueryCapability();
    assert!(cap.can_decode_some_images);
    assert!(cap.can_decode_all_images);
}

#[test]
fn valid_image_initializes_with_frames() {
    let session = initialized();
    let count = session.GetFrameCount().expect("initialized");
    assert!(count >= 1);
}

#[test]
fn second_initialize_is_refused() {
    let mut session = initialized();
    assert_eq!(session.Initialize(&SMALL_IMAGE), Err(CodecError::UnsupportedOperation));
    assert!(session.GetFrameCount().is_ok());
}

#[test]
fn garbage_is_bad_image_and_session_fails() {
    let mut session = JXLWICBitmapDecoder::new();
    let r = session.Initialize(&[1, 2, 3, 4, 5]);
    assert!(matches!(r, Err(CodecError::BadImage(_))));
    assert_eq!(session.GetFrameCount(), Err(CodecError::NotInitialized));
    assert!(matches!(session.GetFrame(0), Err(CodecError::NotInitialized)));
    assert_eq!(session.Initialize(&SMALL_IMAGE), Err(CodecError::UnsupportedOperation));
}

#[test]
fn empty_stream_is_bad_image() {
    let mut session = JXLWICBitmapDecoder::new();
    assert!(matches!(session.Initialize(&[]), Err(CodecError::BadImage(_))));
}

#[test]
fn frame_past_the_end_is_missing() {
    let mut session = initialized();
    let count = session.GetFrameCount().unwrap();
    assert!(matches!(session.GetFrame(count), Err(CodecError::FrameMissing)));
    assert!(matches!(session.GetFrame(count + 1), Err(CodecError::FrameMissing)));
    assert!(matches!(session.GetFrame(u32::MAX), Err(CodecError::FrameMissing)));
}

#[test]
fn repeated_get_frame_gives_same_bytes() {
    let mut session = initialized();
    let first = session.GetFrame(0).expect("frame 0");
    let second = session.GetFrame(0).expect("frame 0 again");
    let (w, h) = first.GetSize();
    assert_eq!(second.GetSize(), (w, h));
    let rect = Rect { x: 0, y: 0, width: w as i32, height: h as i32 };
    let len = (w * h * 8) as usize;
    let mut a = vec![0u8; len];
    let mut b = vec![0u8; len];
    if first.GetPixelFormat().is_ok() {
        first.CopyPixels(Some(rect), None, &mut a).unwrap();
        second.CopyPixels(Some(rect), None, &mut b).unwrap();
        assert_eq!(a, b);
    }
}

#[test]
fn frame_copies_compose_from_halves() {
    let mut session = initialized();
    let frame = session.GetFrame(0).expect("frame 0");
    let (w, h) = frame.GetSize();
    let format = frame.GetPixelFormat().expect("a supported layout");
    let bpp: u32 = match format {
        WicPixelFormat::Gray16 => 2,
        WicPixelFormat::Rgb48 => 6,
        WicPixelFormat::Rgba64 => 8,
        WicPixelFormat::Cmyk64 => 8,
        WicPixelFormat::CmykAlpha80 => 10,
        WicPixelFormat::Bgra32 => 4,
    };
    let row = (w * bpp) as usize;
    let mut whole = vec![0u8; row * h as usize];
    let full = Rect { x: 0, y: 0, width: w as i32, height: h as i32 };
    frame.CopyPixels(Some(full), None, &mut whole).unwrap();
    let top = (h / 2) as i32;
    let mut upper = vec![0u8; row * top as usize];
    let mut lower = vec![0u8; row * (h as usize - top as usize)];
    frame
        .CopyPixels(Some(Rect { x: 0, y: 0, width: w as i32, height: top }), None, &mut upper)
        .unwrap();
    frame
        .CopyPixels(
            Some(Rect { x: 0, y: top, width: w as i32, height: h as i32 - top }),
            None,
            &mut lower,
        )
        .unwrap();
    upper.extend_from_slice(&lower);
    assert_eq!(upper, whole);
}

#[test]
fn frame_carries_image_profile() {
    let mut session = initialized();
    let contexts = session.GetColorContexts(1).expect("initialized");
    assert_eq!(contexts.actual_count, 1);
    let profile = contexts.profile.expect("one slot was asked for");
    assert!(!profile.is_empty());
    let frame = session.GetFrame(0).unwrap();
    let from_frame = frame.GetColorContexts(1);
    assert_eq!(from_frame.actual_count, 1);
    assert_eq!(*from_frame.profile.unwrap(), *profile);
    assert!(session.GetColorContexts(0).unwrap().profile.is_none());
    assert!(frame.GetColorContexts(2).profile.is_none());
}

#[test]
fn color_contexts_before_initialize() {
    let session = JXLWICBitmapDecoder::new();
    assert!(matches!(session.GetColorContexts(1), Err(CodecError::NotInitialized)));
}

#[test]
fn decoder_unsupported_operations() {
    let session = JXLWICBitmapDecoder::new();
    assert_eq!(session.CopyPalette(), Err(CodecError::UnsupportedOperation));
    assert_eq!(session.GetMetadataQueryReader(), Err(CodecError::UnsupportedOperation));
    assert_eq!(session.GetPreview(), Err(CodecError::UnsupportedOperation));
    assert_eq!(session.GetThumbnail(), Err(CodecError::NoThumbnail));
}

#[test]
fn session_state_names() {
    assert_ne!(SessionState::Uninitialized, SessionState::Initialized);
    assert_ne!(SessionState::Initialized, SessionState::Failed);
}

#[test]
fn rgba_render_before_initialize() {
    let session = JXLWICBitmapDecoder::new();
    assert!(matches!(session.render_rgba8(0), Err(CodecError::NotInitialized)));
}

#[test]
fn rgba_render_matches_dimensions() {
    let session = initialized();
    let count = session.GetFrameCount().unwrap();
    assert!(matches!(session.render_rgba8(count), Err(CodecError::FrameMissing)));
    let image = session.render_rgba8(0).expect("frame 0");
    assert_eq!(image.pixels.len(), (image.width * image.height * 4) as usize);
}

#[test]
fn container_format_is_fixed() {
    let session = JXLWICBitmapDecoder::new();
    assert_eq!(session.GetContainerFormat(), jxl_winthumb::decoder::CONTAINER_FORMAT);
    assert_eq!(session.GetContainerFormat(), 0x81e337bc_c1d1_4dee_a17c_402041ba9b5e);
}

#[test]
fn small_image_reference_decode() {
    let mut session = initialized();
    assert_eq!(session.GetFrameCount(), Ok(1));
    let frame = session.GetFrame(0).expect("frame 0");
    assert_eq!(frame.GetSize(), (240, 135));
    assert_eq!(frame.GetPixelFormat(), Ok(WicPixelFormat::Rgb48));
    let mut out = vec![0u8; 240 * 135 * 6];
    frame.CopyPixels(Some(Rect { x: 0, y: 0, width: 240, height: 135 }), None, &mut out).unwrap();
    assert_eq!(&out[0..12], &[6, 6, 6, 6, 6, 6, 12, 12, 12, 12, 12, 12]);
    let mut second_pixel = vec![0u8; 6];
    frame
        .CopyPixels(Some(Rect { x: 1, y: 0, width: 1, height: 1 }), None, &mut second_pixel)
        .unwrap();
    assert_eq!(second_pixel, vec![12, 12, 12, 12, 12, 12]);
}

#[test]
fn small_image_rgba_render() {
    let session = initialized();
    let image = session.render_rgba8(0).expect("frame 0");
    assert_eq!((image.width, image.height), (240, 135));
    assert_eq!(&image.pixels[0..8], &[6, 6, 6, 255, 12, 12, 12, 255]);
}

#[test]
fn small_image_thumbnail() {
    let session = initialized();
    let thumb = jxl_winthumb::thumbnail::session_thumbnail(&session, 60).expect("thumbnail");
    assert_eq!((thumb.width, thumb.height), (60, 34));
    assert_eq!(thumb.pixels.len(), 60 * 34 * 4);
    for pixel in thumb.pixels.chunks(4) {
        assert_eq!(pixel[3], 255);
    }
    let image = session.render_rgba8(0).unwrap();
    let direct = jxl_winthumb::thumbnail::make_thumbnail(&image, 60);
    assert_eq!(direct.pixels, thumb.pixels);
    let mut rgba = jxl_winthumb::thumbnail::resize_triangle(&image.pixels, 240, 135, 60, 34);
    jxl_winthumb::frame::swap_red_blue(&mut rgba);
    assert_eq!(rgba, thumb.pixels);
}

#[test]
fn default_session_is_uninitialized() {
    let mut session = JXLWICBitmapDecoder::default();
    assert!(matches!(session.GetFrame(0), Err(CodecError::NotInitialized)));
    let store = jxl_winthumb::properties::JXLPropertyStore::default();
    assert_eq!(store.GetCount(), Err(CodecError::NotInitialized));
}

#[test]
fn orientation_codes_transpose_from_five() {
    assert_eq!(oriented_size((3, 5, 1)), (3, 5));
    assert_eq!(oriented_size((3, 5, 4)), (3, 5));
    assert_eq!(oriented_size((3, 5, 5)), (5, 3));
    assert_eq!(oriented_size((3, 5, 8)), (5, 3));
}

#[test]
fn failed_render_leaves_other_frames() {
    let mut session = initialized();
    assert!(matches!(session.GetFrame(5), Err(CodecError::FrameMissing)));
    assert!(session.GetFrame(0).is_ok());
    assert_eq!(session.GetFrameCount(), Ok(1));
}
