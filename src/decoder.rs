use vstd::prelude::*;

use std::rc::Rc;

use jxl_oxide::{JxlImage, Render};

use crate::error::CodecError;
use crate::format::{channel_count_spec, PixelFormat};
use crate::frame::{share_profile, FrameBuffer, JXLWICBitmapFrameDecode, Samples};

verus! {

#[verifier::external_type_specification]
#[verifier::external_body]
pub struct ExJxlImage(JxlImage);

#[verifier::external_type_specification]
#[verifier::external_body]
pub struct ExRender(Render);

/// Whether the decoder accepts `bytes` as a complete image.
pub uninterp spec fn jxl_decodes(bytes: Seq<u8>) -> bool;

/// Number of keyframes the decoder loads from `bytes`.
pub uninterp spec fn jxl_keyframes(bytes: Seq<u8>) -> usize;

/// Channel layout of the frames rendered from `bytes`.
pub uninterp spec fn jxl_pixel_format(bytes: Seq<u8>) -> PixelFormat;

/// ICC profile describing the frames rendered from `bytes`.
pub uninterp spec fn jxl_rendered_icc(bytes: Seq<u8>) -> Seq<u8>;

/// Header width, header height and orientation code of `bytes`.
pub uninterp spec fn jxl_header_geometry(bytes: Seq<u8>) -> (u32, u32, u32);

/// Whether keyframe `index` of `bytes` renders.
pub uninterp spec fn jxl_renders(bytes: Seq<u8>, index: usize) -> bool;

/// Width, height and channel count of rendered keyframe `index` of `bytes`.
pub uninterp spec fn jxl_frame_shape(bytes: Seq<u8>, index: usize) -> (u32, u32, u32);

/// A buffer holding `before` after the 16-bit samples of rendered keyframe
/// `index` of `bytes` were written into it.
pub uninterp spec fn jxl_samples16(bytes: Seq<u8>, index: usize, before: Seq<u16>) -> Seq<u16>;

/// A buffer holding `before` after the 8-bit samples of rendered keyframe
/// `index` of `bytes` were written into it.
pub uninterp spec fn jxl_samples8(bytes: Seq<u8>, index: usize, before: Seq<u8>) -> Seq<u8>;

/// Width and height once the orientation code is applied: codes 5 to 8
/// transpose the image.
pub open spec fn oriented(geometry: (u32, u32, u32)) -> (u32, u32) {
    if geometry.2 >= 5 {
        (geometry.1, geometry.0)
    } else {
        (geometry.0, geometry.1)
    }
}

/// A decoded image, kept with the bytes it was decoded from.
pub struct SourceImage {
    image: JxlImage,
    source: Rc<Vec<u8>>,
}

impl SourceImage {
    pub closed spec fn source_spec(&self) -> Seq<u8> {
        self.source@
    }
}

/// A rendered keyframe, with the image and the index it was rendered from.
pub struct RenderedFrame<'a> {
    render: Render,
    image: &'a SourceImage,
    index: usize,
}

impl<'a> RenderedFrame<'a> {
    pub closed spec fn source_spec(&self) -> Seq<u8> {
        self.image.source_spec()
    }

    pub closed spec fn index_spec(&self) -> usize {
        self.index
    }
}

/// Relies on `jxl_oxide::JxlImageBuilder::read`: decodes the whole byte
/// sequence, or reports why it could not.
#[verifier::external_body]
pub(crate) fn decode_image(source: Rc<Vec<u8>>) -> (r: Result<SourceImage, String>)
    ensures
        r is Ok <==> jxl_decodes(source@),
        r matches Ok(d) ==> d.source_spec() == source@,
{
    match JxlImage::builder().read(&source[..]) {
        Ok(image) => Ok(SourceImage { image, source }),
        Err(err) => Err(format!("{:?}", err)),
    }
}

/// Relies on `jxl_oxide::JxlImage::num_loaded_keyframes`: the number of
/// keyframes that were read.
#[verifier::external_body]
fn keyframe_count(d: &SourceImage) -> (r: usize)
    ensures
        r == jxl_keyframes(d.source_spec()),
{
    d.image.num_loaded_keyframes()
}

/// Relies on `jxl_oxide::JxlImage::pixel_format`: the channel layout of
/// rendered frames.
#[verifier::external_body]
fn rendered_format(d: &SourceImage) -> (r: PixelFormat)
    ensures
        r == jxl_pixel_format(d.source_spec()),
{
    match d.image.pixel_format() {
        jxl_oxide::PixelFormat::Gray => PixelFormat::Gray,
        jxl_oxide::PixelFormat::Graya => PixelFormat::GrayAlpha,
        jxl_oxide::PixelFormat::Rgb => PixelFormat::Rgb,
        jxl_oxide::PixelFormat::Rgba => PixelFormat::Rgba,
        jxl_oxide::PixelFormat::Cmyk => PixelFormat::Cmyk,
        jxl_oxide::PixelFormat::Cmyka => PixelFormat::Cmyka,
    }
}

/// Relies on `jxl_oxide::JxlImage::rendered_icc`: the ICC profile of
/// rendered frames.
#[verifier::external_body]
fn rendered_profile(d: &SourceImage) -> (r: Vec<u8>)
    ensures
        r@ == jxl_rendered_icc(d.source_spec()),
{
    d.image.rendered_icc()
}

/// Relies on `jxl_oxide::JxlImage::image_header`: the header's width,
/// height and orientation code.
#[verifier::external_body]
pub(crate) fn header_geometry(d: &SourceImage) -> (r: (u32, u32, u32))
    ensures
        r == jxl_header_geometry(d.source_spec()),
{
    let header = d.image.image_header();
    (header.size.width, header.size.height, header.metadata.orientation)
}

/// Relies on `jxl_oxide::JxlImage::render_frame`: renders one keyframe, or
/// reports why it could not.
#[verifier::external_body]
fn render_keyframe<'a>(d: &'a SourceImage, index: usize) -> (r: Result<RenderedFrame<'a>, String>)
    ensures
        r is Ok <==> jxl_renders(d.source_spec(), index),
        r matches Ok(f) ==> f.source_spec() == d.source_spec() && f.index_spec() == index,
{
    match d.image.render_frame(index) {
        Ok(render) => Ok(RenderedFrame { render, image: d, index }),
        Err(err) => Err(format!("{:?}", err)),
    }
}

/// Relies on `jxl_oxide::Render::stream`: width, height and channel count of
/// the rendered keyframe, orientation applied.
#[verifier::external_body]
fn stream_shape(f: &RenderedFrame) -> (r: (u32, u32, u32))
    ensures
        r == jxl_frame_shape(f.source_spec(), f.index_spec()),
{
    let stream = f.render.stream();
    (stream.width(), stream.height(), stream.channels())
}

/// Relies on `jxl_oxide::ImageStream::write_to_buffer`: writes 16-bit
/// samples, pixel after pixel, into the buffer without changing its length.
#[verifier::external_body]
fn write_samples(f: &RenderedFrame, buf: &mut Vec<u16>)
    ensures
        final(buf)@ == jxl_samples16(f.source_spec(), f.index_spec(), old(buf)@),
        final(buf)@.len() == old(buf)@.len(),
{
    f.render.stream().write_to_buffer(&mut buf[..]);
}

/// Relies on `jxl_oxide::ImageStream::write_to_buffer`: writes 8-bit
/// samples, pixel after pixel, into the buffer without changing its length.
#[verifier::external_body]
fn write_samples_u8(f: &RenderedFrame, buf: &mut Vec<u8>)
    ensures
        final(buf)@ == jxl_samples8(f.source_spec(), f.index_spec(), old(buf)@),
        final(buf)@.len() == old(buf)@.len(),
{
    f.render.stream().write_to_buffer(&mut buf[..]);
}

/// Byte `k` of the red, green, blue, alpha expansion of 8-bit samples in
/// `format`: gray is copied to the three colour channels, and a missing
/// alpha channel is opaque.
pub open spec fn rgba_byte(samples: Seq<u8>, format: PixelFormat, k: int) -> u8 {
    let p = k / 4;
    let c = k % 4;
    match format {
        PixelFormat::Gray => if c < 3 {
            samples[p]
        } else {
            255u8
        },
        PixelFormat::GrayAlpha => if c < 3 {
            samples[2 * p]
        } else {
            samples[2 * p + 1]
        },
        PixelFormat::Rgb => if c < 3 {
            samples[3 * p + c]
        } else {
            255u8
        },
        _ => samples[4 * p + c],
    }
}

/// The red, green, blue, alpha expansion of `pixels` pixels of 8-bit
/// samples in `format`.
pub open spec fn rgba_expansion(samples: Seq<u8>, format: PixelFormat, pixels: int) -> Seq<u8> {
    Seq::new((pixels * 4) as nat, |k: int| rgba_byte(samples, format, k))
}

/// Expands `pixels` pixels of 8-bit samples in `format` to red, green,
/// blue, alpha; layouts with a black channel are refused.
pub fn expand_to_rgba(samples: &Vec<u8>, format: PixelFormat, pixels: usize) -> (r: Result<
    Vec<u8>,
    CodecError,
>)
    requires
        samples@.len() == pixels * channel_count_spec(format),
        pixels * 4 <= usize::MAX,
    ensures
        format == PixelFormat::Cmyk || format == PixelFormat::Cmyka ==> r == Err::<
            Vec<u8>,
            CodecError,
        >(CodecError::UnsupportedPixelFormat),
        format != PixelFormat::Cmyk && format != PixelFormat::Cmyka ==> (r matches Ok(out)
            && out@ == rgba_expansion(samples@, format, pixels as int)),
{
    if let PixelFormat::Cmyk = format {
        return Err(CodecError::UnsupportedPixelFormat);
    }
    if let PixelFormat::Cmyka = format {
        return Err(CodecError::UnsupportedPixelFormat);
    }
    let channels = format.channel_count();
    let n = pixels * 4;
    let mut out: Vec<u8> = Vec::new();
    let mut k: usize = 0;
    while k < n
        invariant
            n == pixels * 4,
            k <= n,
            out@.len() == k,
            channels == channel_count_spec(format),
            samples@.len() == pixels * channels,
            format != PixelFormat::Cmyk && format != PixelFormat::Cmyka,
            forall|j: int| 0 <= j < k ==> #[trigger] out@[j] == rgba_byte(samples@, format, j),
        decreases n - k,
    {
        let p = k / 4;
        let c = k % 4;
        assert(p < pixels);
        assert(p * channels + channels <= pixels * channels) by (nonlinear_arith)
            requires
                p < pixels,
        ;
        let v = match format {
            PixelFormat::Gray => if c < 3 {
                samples[p]
            } else {
                255u8
            },
            PixelFormat::GrayAlpha => if c < 3 {
                samples[2 * p]
            } else {
                samples[2 * p + 1]
            },
            PixelFormat::Rgb => if c < 3 {
                samples[3 * p + c]
            } else {
                255u8
            },
            _ => samples[4 * p + c],
        };
        out.push(v);
        k += 1;
    }
    assert(out@ =~= rgba_expansion(samples@, format, pixels as int));
    Ok(out)
}

/// Class identifier of the decoder.
pub const DECODER_CLSID: u128 = 0x655896c6_b7d0_4d74_8afb_a02ece3f5e5a;

/// Identifier of the container format that the decoder reads.
pub const CONTAINER_FORMAT: u128 = 0x81e337bc_c1d1_4dee_a17c_402041ba9b5e;

/// Width and height once the orientation code of `geometry` is applied.
pub fn oriented_size(geometry: (u32, u32, u32)) -> (r: (u32, u32))
    ensures
        r == oriented(geometry),
{
    if geometry.2 >= 5 {
        (geometry.1, geometry.0)
    } else {
        (geometry.0, geometry.1)
    }
}

/// What a decoder reports about itself, whatever its state.
#[derive(Debug, Clone, Copy, PartialEq, Eq, Structural)]
pub struct DecoderCapability {
    pub can_decode_some_images: bool,
    pub can_decode_all_images: bool,
}

/// The lifecycle state of a decode session.
#[derive(Debug, Clone, Copy, PartialEq, Eq, Structural)]
pub enum SessionState {
    Uninitialized,
    Initialized,
    Failed,
}

/// An image that decoded, with what was read from it once.
pub struct DecodedResult {
    image: SourceImage,
    frame_count: usize,
    pixel_format: PixelFormat,
    icc: Rc<Vec<u8>>,
    width: u32,
    height: u32,
}

/// A decode session: initialised once from the image bytes, then serving
/// frames that are rendered on first request and kept for later ones.
pub struct JXLWICBitmapDecoder {
    decoded: Option<DecodedResult>,
    failed: bool,
    cache: Vec<Option<FrameBuffer>>,
}

impl Default for JXLWICBitmapDecoder {
    fn default() -> (r: Self)
        ensures
            r.wf(),
            r.state() == SessionState::Uninitialized,
    {
        JXLWICBitmapDecoder::new()
    }
}

impl JXLWICBitmapDecoder {
    pub closed spec fn state(&self) -> SessionState {
        if self.decoded is Some {
            SessionState::Initialized
        } else if self.failed {
            SessionState::Failed
        } else {
            SessionState::Uninitialized
        }
    }

    /// The bytes the session was initialised from.
    pub closed spec fn source_spec(&self) -> Seq<u8> {
        self.decoded->Some_0.image.source_spec()
    }

    pub closed spec fn frame_count_spec(&self) -> nat {
        match self.decoded {
            Some(d) => d.frame_count as nat,
            None => 0,
        }
    }

    pub closed spec fn format_spec(&self) -> PixelFormat {
        self.decoded->Some_0.pixel_format
    }

    pub closed spec fn icc_spec(&self) -> Seq<u8> {
        self.decoded->Some_0.icc@
    }

    pub closed spec fn width_spec(&self) -> nat {
        self.decoded->Some_0.width as nat
    }

    pub closed spec fn height_spec(&self) -> nat {
        self.decoded->Some_0.height as nat
    }

    /// The samples kept for frame `i`, if it was rendered before.
    pub closed spec fn cached(&self, i: int) -> Option<Seq<u16>> {
        match self.cache@[i] {
            Some(fb) => Some(fb.buf@),
            None => None,
        }
    }

    pub closed spec fn wf(&self) -> bool {
        match self.decoded {
            Some(d) => {
                &&& !self.failed
                &&& 1 <= d.frame_count <= u32::MAX
                &&& self.cache@.len() == d.frame_count
                &&& forall|i: int|
                    0 <= i < self.cache@.len() ==> match #[trigger] self.cache@[i] {
                        Some(fb) => {
                            &&& fb.channels == channel_count_spec(d.pixel_format)
                            &&& fb.buf@.len() == d.width * d.height * fb.channels
                            &&& 2 * fb.buf@.len() <= usize::MAX
                        },
                        None => true,
                    }
            },
            None => self.cache@.len() == 0,
        }
    }

    /// Whether the state and image metadata of two sessions agree.
    pub open spec fn same_image(&self, other: &Self) -> bool {
        &&& self.state() == other.state()
        &&& self.source_spec() == other.source_spec()
        &&& self.frame_count_spec() == other.frame_count_spec()
        &&& self.format_spec() == other.format_spec()
        &&& self.icc_spec() == other.icc_spec()
        &&& self.width_spec() == other.width_spec()
        &&& self.height_spec() == other.height_spec()
    }

    /// Number of samples of one frame: width, height and channel count.
    pub open spec fn frame_len(&self) -> int {
        (self.width_spec() * self.height_spec() * channel_count_spec(self.format_spec())) as int
    }

    /// Whether keyframe `index` renders with the image's size and channel
    /// count.
    pub open spec fn shape_matches(&self, index: usize) -> bool {
        &&& jxl_renders(self.source_spec(), index)
        &&& jxl_frame_shape(self.source_spec(), index) == (
            self.width_spec() as u32,
            self.height_spec() as u32,
            channel_count_spec(self.format_spec()) as u32,
        )
    }

    /// Whether keyframe `index` renders to a frame of 16-bit samples whose
    /// bytes fit in memory.
    pub open spec fn frame_renders(&self, index: usize) -> bool {
        &&& self.shape_matches(index)
        &&& self.frame_len() <= usize::MAX / 2
    }

    /// The 16-bit samples that rendering keyframe `index` gives.
    pub open spec fn fresh_samples(&self, index: usize) -> Seq<u16> {
        jxl_samples16(self.source_spec(), index, Seq::new(self.frame_len() as nat, |i: int| 0u16))
    }

    /// Whether keyframe `index` renders to 8-bit samples whose expansion to
    /// four channels fits in memory.
    pub open spec fn frame_available8(&self, index: usize) -> bool {
        &&& self.shape_matches(index)
        &&& self.width_spec() * self.height_spec() <= usize::MAX / 8
    }

    /// The red, green, blue, alpha pixels of rendered keyframe `index`.
    pub open spec fn frame_rgba(&self, index: usize) -> Seq<u8> {
        rgba_expansion(
            jxl_samples8(self.source_spec(), index, Seq::new(self.frame_len() as nat, |i: int| 0u8)),
            self.format_spec(),
            (self.width_spec() * self.height_spec()) as int,
        )
    }

    /// An initialised session has between 1 and `u32::MAX` frames.
    pub proof fn lemma_frame_count(&self)
        requires
            self.wf(),
        ensures
            self.state() == SessionState::Initialized ==> 1 <= self.frame_count_spec() <= u32::MAX,
    {
    }

    /// A session that has not been initialised.
    pub fn new() -> (r: Self)
        ensures
            r.wf(),
            r.state() == SessionState::Uninitialized,
    {
        JXLWICBitmapDecoder { decoded: None, failed: false, cache: Vec::new() }
    }

    /// The decoder can decode some and all images of its format, in any
    /// state.
    pub fn QueryCapability(&self) -> (r: DecoderCapability)
        ensures
            r.can_decode_some_images,
            r.can_decode_all_images,
    {
        DecoderCapability { can_decode_some_images: true, can_decode_all_images: true }
    }

    /// The container format identifier, in any state.
    pub fn GetContainerFormat(&self) -> (r: u128)
        ensures
            r == CONTAINER_FORMAT,
    {
        CONTAINER_FORMAT
    }

    /// Decodes the whole image once. A session that was initialised before,
    /// successfully or not, is left as it is and refuses. Otherwise the
    /// session is initialised exactly when the decoder accepts the bytes and
    /// loads between 1 and `u32::MAX` keyframes; else it fails with
    /// `BadImage`.
    pub fn Initialize(&mut self, bytes: &[u8]) -> (r: Result<(), CodecError>)
        requires
            old(self).wf(),
        ensures
            final(self).wf(),
            old(self).state() != SessionState::Uninitialized ==> r == Err::<(), CodecError>(
                CodecError::UnsupportedOperation,
            ) && *final(self) == *old(self),
            old(self).state() == SessionState::Uninitialized ==> (r is Ok <==> (jxl_decodes(bytes@)
                && 1 <= jxl_keyframes(bytes@) <= u32::MAX)),
            old(self).state() == SessionState::Uninitialized ==> match r {
                Ok(()) => {
                    &&& final(self).state() == SessionState::Initialized
                    &&& final(self).source_spec() == bytes@
                    &&& final(self).frame_count_spec() == jxl_keyframes(bytes@)
                    &&& 1 <= final(self).frame_count_spec() <= u32::MAX
                    &&& final(self).format_spec() == jxl_pixel_format(bytes@)
                    &&& final(self).icc_spec() == jxl_rendered_icc(bytes@)
                    &&& (final(self).width_spec() as u32, final(self).height_spec() as u32)
                        == oriented(jxl_header_geometry(bytes@))
                    &&& forall|i: int|
                        0 <= i < final(self).frame_count_spec() ==> (#[trigger] final(self).cached(i)) is None
                },
                Err(e) => e is BadImage && final(self).state() == SessionState::Failed,
            },
    {
        if self.decoded.is_some() || self.failed {
            return Err(CodecError::UnsupportedOperation);
        }
        let source = Rc::new(vstd::slice::slice_to_vec(bytes));
        match decode_image(source) {
            Err(message) => {
                self.failed = true;
                Err(CodecError::BadImage(message))
            },
            Ok(image) => {
                let frame_count = keyframe_count(&image);
                if frame_count == 0 || frame_count > u32::MAX as usize {
                    self.failed = true;
                    return Err(
                        CodecError::BadImage(String::from_str("the image has no usable frame count")),
                    );
                }
                let pixel_format = rendered_format(&image);
                let icc = Rc::new(rendered_profile(&image));
                let geometry = header_geometry(&image);
                let (width, height) = oriented_size(geometry);
                let mut cache: Vec<Option<FrameBuffer>> = Vec::new();
                let mut i: usize = 0;
                while i < frame_count
                    invariant
                        i <= frame_count,
                        cache@.len() == i,
                        forall|j: int| 0 <= j < i ==> (#[trigger] cache@[j]) is None,
                    decreases frame_count - i,
                {
                    cache.push(None);
                    i += 1;
                }
                self.decoded = Some(
                    DecodedResult { image, frame_count, pixel_format, icc, width, height },
                );
                self.cache = cache;
                Ok(())
            },
        }
    }

    /// The number of frames of an initialised session.
    pub fn GetFrameCount(&self) -> (r: Result<u32, CodecError>)
        requires
            self.wf(),
        ensures
            self.state() == SessionState::Initialized ==> (r matches Ok(n) && n as nat
                == self.frame_count_spec() && n >= 1),
            self.state() != SessionState::Initialized ==> r == Err::<u32, CodecError>(
                CodecError::NotInitialized,
            ),
    {
        match &self.decoded {
            Some(d) => Ok(d.frame_count as u32),
            None => Err(CodecError::NotInitialized),
        }
    }

    /// Renders keyframe `index` into a fresh buffer of 16-bit samples, or
    /// reports that it is missing.
    fn render_samples(&self, index: usize) -> (r: Result<FrameBuffer, CodecError>)
        requires
            self.wf(),
            self.state() == SessionState::Initialized,
        ensures
            r is Ok <==> self.frame_renders(index),
            r matches Ok(fb) ==> {
                &&& fb.channels == channel_count_spec(self.format_spec())
                &&& fb.buf@ == self.fresh_samples(index)
                &&& fb.buf@.len() == self.frame_len()
            },
            r matches Err(e) ==> e == CodecError::FrameMissing,
    {
        let d = match &self.decoded {
            Some(d) => d,
            None => {
                return Err(CodecError::NotInitialized);
            },
        };
        let render = match render_keyframe(&d.image, index) {
            Ok(render) => render,
            Err(_) => {
                return Err(CodecError::FrameMissing);
            },
        };
        let (width, height, channels) = stream_shape(&render);
        let channel_count = d.pixel_format.channel_count();
        if width != d.width || height != d.height || channels as usize != channel_count {
            return Err(CodecError::FrameMissing);
        }
        let ghost len = self.frame_len();
        let pixels = match (width as usize).checked_mul(height as usize) {
            Some(p) => p,
            None => {
                assert(len > usize::MAX / 2) by (nonlinear_arith)
                    requires
                        len == width * height * channel_count,
                        width * height > usize::MAX,
                        channel_count >= 1,
                ;
                return Err(CodecError::FrameMissing);
            },
        };
        let n = match pixels.checked_mul(channel_count) {
            Some(n) => n,
            None => {
                return Err(CodecError::FrameMissing);
            },
        };
        if n > usize::MAX / 2 {
            return Err(CodecError::FrameMissing);
        }
        let mut fb = FrameBuffer::new(width as usize, height as usize, channel_count);
        assert(fb.buf@ =~= Seq::new(len as nat, |i: int| 0u16));
        write_samples(&render, &mut fb.buf);
        Ok(fb)
    }

    /// The frame at `index`, rendered on first request and served from the
    /// cache afterwards. Before initialisation it fails with
    /// `NotInitialized`, past the last frame with `FrameMissing`; in both
    /// cases nothing changes. A frame not yet kept is returned exactly when
    /// it renders with the image's size and channel count, else the call
    /// fails with `FrameMissing` and nothing changes.
    pub fn GetFrame(&mut self, index: u32) -> (r: Result<JXLWICBitmapFrameDecode, CodecError>)
        requires
            old(self).wf(),
        ensures
            final(self).wf(),
            final(self).same_image(old(self)),
            old(self).state() != SessionState::Initialized ==> r == Err::<
                JXLWICBitmapFrameDecode,
                CodecError,
            >(CodecError::NotInitialized) && *final(self) == *old(self),
            old(self).state() == SessionState::Initialized && index >= old(self).frame_count_spec()
                ==> r == Err::<JXLWICBitmapFrameDecode, CodecError>(CodecError::FrameMissing)
                && *final(self) == *old(self),
            old(self).state() == SessionState::Initialized && index < old(self).frame_count_spec()
                ==> {
                &&& forall|i: int|
                    0 <= i < old(self).frame_count_spec() && i != index ==> #[trigger] final(self).cached(i) == old(self).cached(i)
                &&& old(self).cached(index as int) is Some ==> r is Ok && final(self).cached(
                    index as int,
                ) == old(self).cached(index as int)
                &&& old(self).cached(index as int) is None ==> (r is Ok <==> old(self).frame_renders(
                    index as usize,
                ))
                &&& old(self).cached(index as int) is None && r is Ok ==> final(self).cached(
                    index as int,
                ) == Some(old(self).fresh_samples(index as usize))
                &&& match r {
                    Ok(v) => {
                        &&& v.wf()
                        &&& v.samples_spec() matches Samples::Wide(s) && Some(s@) == final(self).cached(index as int)
                        &&& v.format_spec() == old(self).format_spec()
                        &&& v.icc_spec() == old(self).icc_spec()
                        &&& v.width_spec() == old(self).width_spec()
                        &&& v.height_spec() == old(self).height_spec()
                    },
                    Err(e) => e == CodecError::FrameMissing && *final(self) == *old(self),
                }
            },
    {
        let d = match &self.decoded {
            None => {
                return Err(CodecError::NotInitialized);
            },
            Some(d) => d,
        };
        if index as usize >= d.frame_count {
            return Err(CodecError::FrameMissing);
        }
        let i = index as usize;
        let icc = share_profile(&d.icc);
        let samples: Vec<u16> = match &self.cache[i] {
            Some(fb) => fb.buf.clone(),
            None => {
                let fb = self.render_samples(i)?;
                let out = fb.buf.clone();
                self.cache.set(i, Some(fb));
                out
            },
        };
        let d = match &self.decoded {
            Some(d) => d,
            None => {
                return Err(CodecError::NotInitialized);
            },
        };
        let frame = FrameBuffer { channels: d.pixel_format.channel_count(), buf: samples };
        Ok(JXLWICBitmapFrameDecode::new(frame, d.pixel_format, icc, d.width, d.height))
    }

    /// The frame at `index` as 8-bit red, green, blue, alpha pixels, for
    /// thumbnails. Fails as `GetFrame` does before initialisation, past the
    /// last frame and when the frame does not render; layouts with a black
    /// channel are refused.
    pub fn render_rgba8(&self, index: u32) -> (r: Result<crate::thumbnail::RgbaImage, CodecError>)
        requires
            self.wf(),
        ensures
            self.state() != SessionState::Initialized ==> r == Err::<
                crate::thumbnail::RgbaImage,
                CodecError,
            >(CodecError::NotInitialized),
            self.state() == SessionState::Initialized && index >= self.frame_count_spec() ==> r
                == Err::<crate::thumbnail::RgbaImage, CodecError>(CodecError::FrameMissing),
            self.state() == SessionState::Initialized && index < self.frame_count_spec() ==> {
                &&& !self.frame_available8(index as usize) ==> r == Err::<
                    crate::thumbnail::RgbaImage,
                    CodecError,
                >(CodecError::FrameMissing)
                &&& self.frame_available8(index as usize) && (self.format_spec()
                    == PixelFormat::Cmyk || self.format_spec() == PixelFormat::Cmyka) ==> r
                    == Err::<crate::thumbnail::RgbaImage, CodecError>(
                    CodecError::UnsupportedPixelFormat,
                )
                &&& self.frame_available8(index as usize) && self.format_spec() != PixelFormat::Cmyk
                    && self.format_spec() != PixelFormat::Cmyka ==> r is Ok
            },
            r matches Ok(img) ==> {
                &&& img.width == self.width_spec()
                &&& img.height == self.height_spec()
                &&& img.pixels@ == self.frame_rgba(index as usize)
                &&& img.pixels@.len() == img.width * img.height * 4
            },
    {
        let d = match &self.decoded {
            None => {
                return Err(CodecError::NotInitialized);
            },
            Some(d) => d,
        };
        if index as usize >= d.frame_count {
            return Err(CodecError::FrameMissing);
        }
        let render = match render_keyframe(&d.image, index as usize) {
            Ok(render) => render,
            Err(_) => {
                return Err(CodecError::FrameMissing);
            },
        };
        let (width, height, channels) = stream_shape(&render);
        let channel_count = d.pixel_format.channel_count();
        if width != d.width || height != d.height || channels as usize != channel_count {
            return Err(CodecError::FrameMissing);
        }
        let pixels = match (width as usize).checked_mul(height as usize) {
            Some(p) => p,
            None => {
                return Err(CodecError::FrameMissing);
            },
        };
        if pixels > usize::MAX / 8 {
            return Err(CodecError::FrameMissing);
        }
        assert(pixels * channel_count <= pixels * 8) by (nonlinear_arith)
            requires
                channel_count <= 5,
        ;
        let ghost len = self.frame_len();
        assert(len == pixels * channel_count) by (nonlinear_arith)
            requires
                len == width * height * channel_count,
                pixels == width * height,
        ;
        let mut samples = vec![0u8; pixels * channel_count];
        assert(samples@ =~= Seq::new(len as nat, |i: int| 0u8));
        write_samples_u8(&render, &mut samples);
        let rgba = expand_to_rgba(&samples, d.pixel_format, pixels)?;
        assert(pixels * 4 == width * height * 4);
        Ok(crate::thumbnail::RgbaImage { width, height, pixels: rgba })
    }

    /// The image's ICC profile: one context is offered, and the profile is
    /// handed out when the caller asks for exactly one.
    pub fn GetColorContexts(&self, count: u32) -> (r: Result<
        crate::frame::ColorContexts,
        CodecError,
    >)
        requires
            self.wf(),
        ensures
            self.state() != SessionState::Initialized ==> r is Err && r->Err_0
                == CodecError::NotInitialized,
            self.state() == SessionState::Initialized ==> (r matches Ok(c) && c.actual_count == 1
                && (count == 1 ==> (c.profile matches Some(p) && p@ == self.icc_spec())) && (count
                != 1 ==> c.profile is None)),
    {
        match &self.decoded {
            None => Err(CodecError::NotInitialized),
            Some(d) => {
                let profile = if count == 1 {
                    Some(share_profile(&d.icc))
                } else {
                    None
                };
                Ok(crate::frame::ColorContexts { actual_count: 1, profile })
            },
        }
    }

    /// Decoders of this format have no palette.
    pub fn CopyPalette(&self) -> (r: Result<(), CodecError>)
        ensures
            r == Err::<(), CodecError>(CodecError::UnsupportedOperation),
    {
        Err(CodecError::UnsupportedOperation)
    }

    /// No metadata reader is offered.
    pub fn GetMetadataQueryReader(&self) -> (r: Result<(), CodecError>)
        ensures
            r == Err::<(), CodecError>(CodecError::UnsupportedOperation),
    {
        Err(CodecError::UnsupportedOperation)
    }

    /// No preview is offered.
    pub fn GetPreview(&self) -> (r: Result<(), CodecError>)
        ensures
            r == Err::<(), CodecError>(CodecError::UnsupportedOperation),
    {
        Err(CodecError::UnsupportedOperation)
    }

    /// The format carries no embedded thumbnail.
    pub fn GetThumbnail(&self) -> (r: Result<(), CodecError>)
        ensures
            r == Err::<(), CodecError>(CodecError::NoThumbnail),
    {
        Err(CodecError::NoThumbnail)
    }
}

} // verus!
