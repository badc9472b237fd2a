//! Images as the loader sees them.
//!
//! A decoded picture is carried as the decode collaborator's opaque payload
//! together with its dimensions as plain values; everything the loader
//! decides — which tiles a picture splits into, what is animated, what gets
//! re-encoded for the cache — is computed and proved over those values. The
//! dimensions are kept consistent with the payload by construction: only the
//! trusted constructors below build a `Picture`, and each reads the numbers
//! off the payload it wraps.

use vstd::prelude::*;

use crate::loader::FilterType;

verus! {

#[verifier::external_type_specification]
#[verifier::external_body]
pub struct ExDynamicImage(image::DynamicImage);

#[verifier::external_type_specification]
#[verifier::external_body]
pub struct ExImageError(image::ImageError);

#[verifier::external_type_specification]
#[verifier::external_body]
pub struct ExImageFrame(image::Frame);

/// One decoded picture: the collaborator's payload, and its dimensions as
/// the loader reads them. The fields are private so that every `Picture`
/// comes from a trusted constructor that takes the dimensions from the
/// payload itself.
pub struct Picture {
    raw: image::DynamicImage,
    width: u32,
    height: u32,
}

impl Picture {
    /// The picture's width in pixels.
    pub closed spec fn spec_width(&self) -> u32 {
        self.width
    }

    /// The picture's height in pixels.
    pub closed spec fn spec_height(&self) -> u32 {
        self.height
    }

    /// The picture's width in pixels.
    pub fn width(&self) -> (r: u32)
        ensures
            r == self.spec_width(),
    {
        self.width
    }

    /// The picture's height in pixels.
    pub fn height(&self) -> (r: u32)
        ensures
            r == self.spec_height(),
    {
        self.height
    }

    /// Relies on image::DynamicImage::width and height: wrap a payload with
    /// the dimensions it reports of itself.
    #[verifier::external_body]
    pub fn from_raw(raw: image::DynamicImage) -> Picture {
        let width = raw.width();
        let height = raw.height();
        Picture { raw, width, height }
    }
}

/// One frame of an animated image.
pub struct FrameData {
    pub delay_numer_ms: u32,
    pub delay_denom_ms: u32,
    pub top: u32,
    pub left: u32,
    pub image: Picture,
}

/// A loadable image: one still picture, or a sequence of frames.
pub enum ImageData {
    StaticImage(Picture),
    AnimatedImage(Vec<FrameData>),
}

/// An encoding the loader names: the cache's interchange format, the
/// lossless one, or the animated one.
#[derive(Clone, Copy, PartialEq, Eq, Debug, Structural)]
pub enum PictureFormat {
    Png,
    Jpeg,
    Gif,
}

/// An injective tag for each named format, so a named decode can be spoken
/// of over plain values.
pub open spec fn format_tag(f: PictureFormat) -> int {
    match f {
        PictureFormat::Png => 0,
        PictureFormat::Jpeg => 1,
        PictureFormat::Gif => 2,
    }
}

/// What the decode collaborator makes of a byte string read as a single
/// still image with a guessed format: the dimensions it decodes to, or
/// nothing; a fixed function of the bytes alone.
pub uninterp spec fn spec_static_decode(data: Seq<u8>) -> Option<(u32, u32)>;

/// What the decode collaborator makes of a byte string read in a named
/// format: the dimensions it decodes to, or nothing; a fixed function of the
/// bytes and the format alone.
pub uninterp spec fn spec_format_decode(data: Seq<u8>, tag: int) -> Option<(u32, u32)>;

/// How many frames the animation decoder reads from a byte string, or
/// nothing when it refuses them; a fixed function of the bytes alone.
pub uninterp spec fn spec_gif_decode(data: Seq<u8>) -> Option<nat>;

/// What guessing a byte string's format from its signature answers: whether
/// the guessed format is the animated one, or nothing when no format can be
/// guessed; a fixed function of the bytes alone.
pub uninterp spec fn spec_guess(data: Seq<u8>) -> Option<bool>;

/// Whether the decode collaborator recognizes a file name as a readable
/// image format; a fixed function of the name alone.
pub uninterp spec fn spec_readable_name(name: Seq<char>) -> bool;

/// What the resize collaborator's dimensions are for a picture of the given
/// size scaled into the given bounds; a fixed function of the four numbers
/// alone.
pub uninterp spec fn spec_resize_dims(
    width: u32,
    height: u32,
    nwidth: u32,
    nheight: u32,
) -> (u32, u32);

/// Relies on image::load_from_memory: it decodes a byte string or fails,
/// depending on the bytes alone; the picture's dimensions are taken from
/// what it returns.
#[verifier::external_body]
fn decode_static(data: &[u8]) -> (r: Result<Picture, image::ImageError>)
    ensures
        r is Ok <==> spec_static_decode(data@) is Some,
        r matches Ok(p) ==> (p.spec_width(), p.spec_height()) == spec_static_decode(data@)->Some_0,
{
    let raw = image::load_from_memory(data)?;
    Ok(Picture::from_raw(raw))
}

/// Relies on image::load_from_memory_with_format: it decodes a byte string
/// in the named format or fails, depending on the bytes and the format
/// alone; the picture's dimensions are taken from what it returns.
#[verifier::external_body]
fn decode_with_format(data: &[u8], format: PictureFormat) -> (r: Result<
    Picture,
    image::ImageError,
>)
    ensures
        r is Ok <==> spec_format_decode(data@, format_tag(format)) is Some,
        r matches Ok(p) ==> (p.spec_width(), p.spec_height()) == spec_format_decode(
            data@,
            format_tag(format),
        )->Some_0,
{
    let f = match format {
        PictureFormat::Png => image::ImageFormat::Png,
        PictureFormat::Jpeg => image::ImageFormat::Jpeg,
        PictureFormat::Gif => image::ImageFormat::Gif,
    };
    let raw = image::load_from_memory_with_format(data, f)?;
    Ok(Picture::from_raw(raw))
}

/// Relies on image::codecs::gif::GifDecoder::new, its into_frames and
/// collect_frames: the frames decoded from a byte string, or a failure,
/// depend on the bytes alone.
#[verifier::external_body]
fn decode_gif_frames(data: &[u8]) -> (r: Result<Vec<image::Frame>, image::ImageError>)
    ensures
        r is Ok <==> spec_gif_decode(data@) is Some,
        r matches Ok(v) ==> v@.len() == spec_gif_decode(data@)->Some_0,
{
    let decoder = image::codecs::gif::GifDecoder::new(std::io::Cursor::new(data))?;
    <image::codecs::gif::GifDecoder<_> as image::AnimationDecoder>::into_frames(decoder)
        .collect_frames()
}

/// Relies on image::Frame's delay, top, left and into_buffer: the frame's
/// parts, moved into the library's form; the dimensions are taken from the
/// frame's own buffer.
#[verifier::external_body]
fn frame_to_data(frame: image::Frame) -> FrameData {
    let (delay_numer_ms, delay_denom_ms) = frame.delay().numer_denom_ms();
    let top = frame.top();
    let left = frame.left();
    let raw = image::DynamicImage::ImageRgba8(frame.into_buffer());
    FrameData { delay_numer_ms, delay_denom_ms, top, left, image: Picture::from_raw(raw) }
}

/// Relies on image::Frame::from_parts and image::Delay::from_numer_denom_ms:
/// the library's frame, rebuilt in the collaborator's form for encoding. The
/// delay constructor rejects a zero denominator, so such a frame is left
/// out.
#[verifier::external_body]
fn frame_from_data(fd: &FrameData) -> image::Frame
    requires
        fd.delay_denom_ms >= 1,
{
    image::Frame::from_parts(
        fd.image.raw.to_rgba8(),
        fd.left,
        fd.top,
        image::Delay::from_numer_denom_ms(fd.delay_numer_ms, fd.delay_denom_ms),
    )
}

/// Relies on image::guess_format: whether a format can be guessed from the
/// signature, and whether it is the animated one, depend on the bytes alone.
#[verifier::external_body]
fn guess_is_gif(data: &[u8]) -> (r: Result<bool, image::ImageError>)
    ensures
        r is Ok <==> spec_guess(data@) is Some,
        r matches Ok(b) ==> b == spec_guess(data@)->Some_0,
{
    Ok(matches!(image::guess_format(data)?, image::ImageFormat::Gif))
}

/// Relies on image::DynamicImage::resize: the result keeps the aspect ratio
/// and is the largest size that fits within the given bounds, so its
/// dimensions stay within them, never collapse to zero, and depend on the
/// input dimensions and the bounds alone.
#[verifier::external_body]
fn resize_picture(p: &Picture, nwidth: u32, nheight: u32, filter: FilterType) -> (r: Picture)
    requires
        p.spec_width() >= 1,
        p.spec_height() >= 1,
        nwidth >= 1,
        nheight >= 1,
    ensures
        1 <= r.spec_width() <= nwidth,
        1 <= r.spec_height() <= nheight,
        (r.spec_width(), r.spec_height()) == spec_resize_dims(
            p.spec_width(),
            p.spec_height(),
            nwidth,
            nheight,
        ),
{
    let f = match filter {
        FilterType::Nearest => image::imageops::FilterType::Nearest,
        FilterType::Triangle => image::imageops::FilterType::Triangle,
        FilterType::CatmullRom => image::imageops::FilterType::CatmullRom,
        FilterType::Gaussian => image::imageops::FilterType::Gaussian,
        FilterType::Lanczos3 => image::imageops::FilterType::Lanczos3,
    };
    Picture::from_raw(p.raw.resize(nwidth, nheight, f))
}

/// Relies on image::DynamicImage::crop_imm: a cut-out whose rectangle lies
/// within the picture has exactly the rectangle's dimensions. The rectangle
/// is held to the picture's own dimensions, which the constructors keep
/// equal to the payload's.
#[verifier::external_body]
fn crop_picture(p: &Picture, x: u32, y: u32, width: u32, height: u32) -> (r: Picture)
    requires
        x + width <= p.spec_width(),
        y + height <= p.spec_height(),
    ensures
        r.spec_width() == width,
        r.spec_height() == height,
{
    Picture::from_raw(p.raw.crop_imm(x, y, width, height))
}

/// Relies on image::DynamicImage::write_to: the picture encoded in the named
/// format, as bytes.
#[verifier::external_body]
fn encode_picture(p: &Picture, format: PictureFormat) -> (r: Result<Vec<u8>, image::ImageError>) {
    let f = match format {
        PictureFormat::Png => image::ImageFormat::Png,
        PictureFormat::Jpeg => image::ImageFormat::Jpeg,
        PictureFormat::Gif => image::ImageFormat::Gif,
    };
    let mut out: Vec<u8> = Vec::new();
    p.raw.write_to(&mut std::io::Cursor::new(&mut out), f)?;
    Ok(out)
}

/// Relies on image::codecs::gif::GifEncoder::new and encode_frames: the
/// frames encoded as one animated byte string.
#[verifier::external_body]
fn encode_gif_frames(frames: Vec<image::Frame>) -> (r: Result<Vec<u8>, image::ImageError>) {
    let mut out: Vec<u8> = Vec::new();
    let mut encoder = image::codecs::gif::GifEncoder::new(&mut out);
    encoder.encode_frames(frames)?;
    drop(encoder);
    Ok(out)
}

/// Every picture of an image has at least one pixel on each axis.
pub open spec fn image_dims_positive(img: &ImageData) -> bool {
    match *img {
        ImageData::StaticImage(p) => p.spec_width() >= 1 && p.spec_height() >= 1,
        ImageData::AnimatedImage(frames) => forall|i: int|
            0 <= i < frames@.len() ==> frames@[i].image.spec_width() >= 1
                && #[trigger] frames@[i].image.spec_height() >= 1,
    }
}

/// Every frame's delay has a denominator the encoding collaborator accepts.
pub open spec fn spec_delays_positive(img: &ImageData) -> bool {
    match *img {
        ImageData::StaticImage(_) => true,
        ImageData::AnimatedImage(frames) => forall|i: int|
            0 <= i < frames@.len() ==> (#[trigger] frames@[i]).delay_denom_ms >= 1,
    }
}

/// Whether a byte string decodes at all when its format is guessed from its
/// signature: a format can be guessed, and the guessed branch accepts the
/// bytes.
pub open spec fn spec_loadable(data: Seq<u8>) -> bool {
    match spec_guess(data) {
        Option::Some(gif) => if gif {
            spec_gif_decode(data) is Some
        } else {
            spec_static_decode(data) is Some
        },
        Option::None => false,
    }
}

/// What ties a loaded image to the bytes it was decoded from: an animated
/// image came from bytes whose guessed format is the animated one, with one
/// frame for each the decoder read; a still picture came from bytes guessed
/// otherwise, with the dimensions the decoder gave.
pub open spec fn spec_loaded_from(img: ImageData, data: Seq<u8>) -> bool {
    match img {
        ImageData::AnimatedImage(frames) => spec_guess(data) == Option::Some(true)
            && spec_gif_decode(data) == Option::Some(frames@.len() as nat),
        ImageData::StaticImage(p) => spec_guess(data) == Option::Some(false) && spec_static_decode(
            data,
        ) == Option::Some((p.spec_width(), p.spec_height())),
    }
}

impl ImageData {
    /// Whether the decode collaborator recognizes the file name as a
    /// readable image format. Relies on image::ImageFormat::from_path and
    /// can_read: the answer depends on the name alone.
    #[verifier::external_body]
    pub fn can_read(name: &str) -> (r: bool)
        ensures
            r == spec_readable_name(name@),
    {
        image::ImageFormat::from_path(name).map(|f| f.can_read()).unwrap_or(false)
    }

    /// Decode a byte string, guessing its format from its signature: the
    /// animated format decodes to frames, everything else to one picture.
    /// Succeeds exactly when the bytes are loadable.
    pub fn load_from_memory(data: &[u8]) -> (r: Result<ImageData, image::ImageError>)
        ensures
            r is Ok <==> spec_loadable(data@),
            r matches Ok(img) ==> spec_loaded_from(img, data@),
    {
        if guess_is_gif(data)? {
            Self::load_gif(data)
        } else {
            Ok(ImageData::StaticImage(decode_static(data)?))
        }
    }

    /// Decode a byte string as an animated image; succeeds exactly when the
    /// animation decoder accepts the bytes, with one frame for each the
    /// decoder read.
    pub fn load_gif(data: &[u8]) -> (r: Result<ImageData, image::ImageError>)
        ensures
            r is Ok <==> spec_gif_decode(data@) is Some,
            r matches Ok(img) ==> img matches ImageData::AnimatedImage(frames) && frames@.len()
                == spec_gif_decode(data@)->Some_0,
    {
        let raw_frames = decode_gif_frames(data)?;
        let ghost total = raw_frames@.len();
        let mut frames: Vec<FrameData> = Vec::new();
        let mut rest: Vec<image::Frame> = raw_frames;
        while rest.len() > 0
            invariant
                frames@.len() + rest@.len() == total,
            decreases rest@.len(),
        {
            let frame = rest.remove(0);
            frames.push(frame_to_data(frame));
        }
        Ok(ImageData::AnimatedImage(frames))
    }

    /// Decode a byte string, guessing its format from its signature;
    /// succeeds exactly when the bytes are loadable.
    pub fn load(data: &[u8]) -> (r: Result<ImageData, image::ImageError>)
        ensures
            r is Ok <==> spec_loadable(data@),
            r matches Ok(img) ==> spec_loaded_from(img, data@),
    {
        Self::load_from_memory(data)
    }

    /// Decode a byte string in a format the caller names: the animated
    /// format decodes to frames, every other named format to one picture;
    /// success is exactly the named decoder's.
    pub fn load_with_format(data: &[u8], format: PictureFormat) -> (r: Result<
        ImageData,
        image::ImageError,
    >)
        ensures
            format == PictureFormat::Gif ==> (r is Ok <==> spec_gif_decode(data@) is Some) && (
            r matches Ok(img) ==> img matches ImageData::AnimatedImage(frames) && frames@.len()
                == spec_gif_decode(data@)->Some_0),
            format != PictureFormat::Gif ==> (r is Ok <==> spec_format_decode(
                data@,
                format_tag(format),
            ) is Some) && (r matches Ok(img) ==> img matches ImageData::StaticImage(p) && (
            p.spec_width(), p.spec_height()) == spec_format_decode(
                data@,
                format_tag(format),
            )->Some_0),
    {
        Self::load_from_memory_with_format(data, format)
    }

    /// Decode a byte string in a format the caller names: the animated
    /// format decodes to frames, every other named format to one picture;
    /// success is exactly the named decoder's.
    pub fn load_from_memory_with_format(data: &[u8], format: PictureFormat) -> (r: Result<
        ImageData,
        image::ImageError,
    >)
        ensures
            format == PictureFormat::Gif ==> (r is Ok <==> spec_gif_decode(data@) is Some) && (
            r matches Ok(img) ==> img matches ImageData::AnimatedImage(frames) && frames@.len()
                == spec_gif_decode(data@)->Some_0),
            format != PictureFormat::Gif ==> (r is Ok <==> spec_format_decode(
                data@,
                format_tag(format),
            ) is Some) && (r matches Ok(img) ==> img matches ImageData::StaticImage(p) && (
            p.spec_width(), p.spec_height()) == spec_format_decode(
                data@,
                format_tag(format),
            )->Some_0),
    {
        if matches!(format, PictureFormat::Gif) {
            Self::load_gif(data)
        } else {
            Ok(ImageData::StaticImage(decode_with_format(data, format)?))
        }
    }

    /// Resize into the given bounds, preserving each picture's aspect ratio:
    /// a still picture is resized once, an animated one frame by frame with
    /// delays and offsets kept; each resulting size is the collaborator's
    /// for the picture's size and the bounds.
    #[verifier::loop_isolation(false)]
    pub fn resize(&self, nwidth: u32, nheight: u32, filter: FilterType) -> (r: ImageData)
        requires
            image_dims_positive(self),
            nwidth >= 1,
            nheight >= 1,
        ensures
            image_dims_positive(&r),
            image_within(&r, nwidth, nheight),
            match *self {
                ImageData::StaticImage(p) => r matches ImageData::StaticImage(q) && (
                q.spec_width(), q.spec_height()) == spec_resize_dims(
                    p.spec_width(),
                    p.spec_height(),
                    nwidth,
                    nheight,
                ),
                ImageData::AnimatedImage(a) => r matches ImageData::AnimatedImage(b)
                    && frames_preserve_timing(a@, b@) && forall|i: int|
                    0 <= i < a@.len() ==> ((#[trigger] b@[i]).image.spec_width(),
                    b@[i].image.spec_height()) == spec_resize_dims(
                        a@[i].image.spec_width(),
                        a@[i].image.spec_height(),
                        nwidth,
                        nheight,
                    ),
            },
    {
        match self {
            ImageData::StaticImage(p) => ImageData::StaticImage(
                resize_picture(p, nwidth, nheight, filter),
            ),
            ImageData::AnimatedImage(frames) => {
                proof {
                    assert(*self == ImageData::AnimatedImage(*frames));
                    assert forall|j: int|
                        0 <= j < frames@.len() implies frames@[j].image.spec_width() >= 1
                            && #[trigger] frames@[j].image.spec_height() >= 1 by {
                        assert((*self)->AnimatedImage_0@[j].image.spec_height() >= 1);
                        assert((*self)->AnimatedImage_0@[j].image.spec_width() >= 1);
                    }
                }
                let mut out: Vec<FrameData> = Vec::new();
                let n: usize = frames.len();
                let mut i: usize = 0;
                while i < n
                    invariant
                        n == frames@.len(),
                        i <= n,
                        out@.len() == i,
                        nwidth >= 1,
                        nheight >= 1,
                        forall|j: int| #![trigger out@[j]]
                            0 <= j < i ==> {
                                &&& 1 <= out@[j].image.spec_width() <= nwidth
                                &&& 1 <= out@[j].image.spec_height() <= nheight
                                &&& (out@[j].image.spec_width(), out@[j].image.spec_height())
                                    == spec_resize_dims(
                                    frames@[j].image.spec_width(),
                                    frames@[j].image.spec_height(),
                                    nwidth,
                                    nheight,
                                )
                                &&& out@[j].delay_numer_ms == frames@[j].delay_numer_ms
                                &&& out@[j].delay_denom_ms == frames@[j].delay_denom_ms
                                &&& out@[j].top == frames@[j].top
                                &&& out@[j].left == frames@[j].left
                            },
                    decreases n - i,
                {
                    let f = &frames[i];
                    proof {
                        assert(frames@[i as int].image.spec_height() >= 1);
                        assert(frames@[i as int].image.spec_width() >= 1);
                    }
                    out.push(
                        FrameData {
                            delay_numer_ms: f.delay_numer_ms,
                            delay_denom_ms: f.delay_denom_ms,
                            top: f.top,
                            left: f.left,
                            image: resize_picture(&f.image, nwidth, nheight, filter),
                        },
                    );
                    i = i + 1;
                }
                ImageData::AnimatedImage(out)
            },
        }
    }

    /// Split into allocatable tiles: a still picture becomes one tile grid,
    /// an animated one a grid for each frame, each frame's delay reduced to
    /// whole milliseconds.
    pub fn into_allocatable(self, max_size: (u32, u32)) -> (r: SplittedImageData)
        requires
            max_size.0 >= 1,
            max_size.1 >= 1,
        ensures
            match (self, r) {
                (ImageData::StaticImage(p), SplittedImageData::StaticImage(s)) => grid_matches_tiling(
                    s.0@,
                    p.spec_width() as int,
                    p.spec_height() as int,
                    max_size.0 as int,
                    max_size.1 as int,
                ),
                (ImageData::AnimatedImage(a), SplittedImageData::AnimatedImage(b)) => a@.len()
                    == b@.len() && forall|i: int|
                    0 <= i < a@.len() ==> {
                        &&& (#[trigger] b@[i]).delay_ms == spec_frame_delay_ms(
                            a@[i].delay_numer_ms,
                            a@[i].delay_denom_ms,
                        )
                        &&& grid_matches_tiling(
                            b@[i].image.0@,
                            a@[i].image.spec_width() as int,
                            a@[i].image.spec_height() as int,
                            max_size.0 as int,
                            max_size.1 as int,
                        )
                    },
                _ => false,
            },
    {
        match self {
            ImageData::StaticImage(p) => SplittedImageData::StaticImage(
                SplittedImage::make_allocatable(&p, max_size),
            ),
            ImageData::AnimatedImage(frames) => {
                let ghost all = frames@;
                let mut out: Vec<SplittedFrameData> = Vec::new();
                let n: usize = frames.len();
                let mut rest: Vec<FrameData> = frames;
                while rest.len() > 0
                    invariant
                        all.len() == n,
                        out@.len() + rest@.len() == n,
                        rest@ =~= all.skip(out@.len() as int),
                        max_size.0 >= 1,
                        max_size.1 >= 1,
                        forall|i: int|
                            0 <= i < out@.len() ==> {
                                &&& (#[trigger] out@[i]).delay_ms == spec_frame_delay_ms(
                                    all[i].delay_numer_ms,
                                    all[i].delay_denom_ms,
                                )
                                &&& grid_matches_tiling(
                                    out@[i].image.0@,
                                    all[i].image.spec_width() as int,
                                    all[i].image.spec_height() as int,
                                    max_size.0 as int,
                                    max_size.1 as int,
                                )
                            },
                    decreases rest@.len(),
                {
                    let ghost done = out@.len() as int;
                    let f = rest.remove(0);
                    proof {
                        assert(f == all[done]);
                        assert(rest@ =~= all.skip(done + 1));
                    }
                    let delay_ms: u64 = frame_delay_ms(f.delay_numer_ms, f.delay_denom_ms);
                    out.push(
                        SplittedFrameData {
                            delay_ms,
                            image: SplittedImage::make_allocatable(&f.image, max_size),
                        },
                    );
                }
                SplittedImageData::AnimatedImage(out)
            },
        }
    }

    /// Encode for the cache: a still picture in the named format, an
    /// animated one as an animated byte string. What the bytes hold is the
    /// collaborator's and depends on the opaque pixel payload, so nothing
    /// more is stated of them; the delay encoder rejects a zero denominator,
    /// so such frames are left out.
    #[verifier::loop_isolation(false)]
    pub fn write_to(&self, static_format: PictureFormat) -> Result<Vec<u8>, image::ImageError>
        requires
            spec_delays_positive(self),
    {
        match self {
            ImageData::StaticImage(p) => encode_picture(p, static_format),
            ImageData::AnimatedImage(frames) => {
                proof {
                    assert(*self == ImageData::AnimatedImage(*frames));
                    assert forall|j: int|
                        0 <= j < frames@.len() implies (#[trigger] frames@[j]).delay_denom_ms
                            >= 1 by {
                        assert((*self)->AnimatedImage_0@[j].delay_denom_ms >= 1);
                    }
                }
                let mut raw: Vec<image::Frame> = Vec::new();
                let n: usize = frames.len();
                let mut i: usize = 0;
                while i < n
                    invariant
                        n == frames@.len(),
                        i <= n,
                    decreases n - i,
                {
                    proof {
                        assert(frames@[i as int].delay_denom_ms >= 1);
                    }
                    raw.push(frame_from_data(&frames[i]));
                    i = i + 1;
                }
                encode_gif_frames(raw)
            },
        }
    }
}

/// The resized frames keep their count, delays and offsets.
pub open spec fn frames_preserve_timing(a: Seq<FrameData>, b: Seq<FrameData>) -> bool {
    &&& a.len() == b.len()
    &&& forall|i: int|
        0 <= i < a.len() ==> (#[trigger] b[i]).delay_numer_ms == a[i].delay_numer_ms
            && b[i].delay_denom_ms == a[i].delay_denom_ms && b[i].top == a[i].top && b[i].left
            == a[i].left
}

/// Every picture of an image fits within the given bounds.
pub open spec fn image_within(img: &ImageData, nwidth: u32, nheight: u32) -> bool {
    match *img {
        ImageData::StaticImage(p) => p.spec_width() <= nwidth && p.spec_height() <= nheight,
        ImageData::AnimatedImage(frames) => forall|i: int|
            0 <= i < frames@.len() ==> frames@[i].image.spec_width() <= nwidth
                && #[trigger] frames@[i].image.spec_height() <= nheight,
    }
}

/// One frame's delay reduced to whole milliseconds; a zero denominator
/// reads as no delay.
pub open spec fn spec_frame_delay_ms(numer_ms: u32, denom_ms: u32) -> int {
    if denom_ms == 0 {
        0
    } else {
        numer_ms as int / denom_ms as int
    }
}

/// One frame's delay in whole milliseconds, as `spec_frame_delay_ms` states
/// it.
pub fn frame_delay_ms(numer_ms: u32, denom_ms: u32) -> (r: u64)
    ensures
        r == spec_frame_delay_ms(numer_ms, denom_ms),
{
    if denom_ms == 0 {
        0
    } else {
        numer_ms as u64 / denom_ms as u64
    }
}

/// Number of tile rows a height splits into under a bound.
pub open spec fn spec_tile_count(extent: int, bound: int) -> int {
    (extent + bound - 1) / bound
}

/// The tile at grid position `(i, j)`: its origin and its clipped size.
pub open spec fn spec_tile(
    width: int,
    height: int,
    mw: int,
    mh: int,
    i: int,
    j: int,
) -> (u32, u32, u32, u32) {
    let x = j * mw;
    let y = i * mh;
    let w = if width - x <= mw {
        width - x
    } else {
        mw
    };
    let h = if height - y <= mh {
        height - y
    } else {
        mh
    };
    ((x as u32), (y as u32), (w as u32), (h as u32))
}

/// The grid of rectangles a picture of the given size splits into so that
/// every tile fits within `size`: row-major, each tile at its grid origin,
/// edge tiles clipped to the picture. An empty picture splits into nothing.
pub fn get_allocatable_area(width: u32, height: u32, size: (u32, u32)) -> (r: Vec<
    Vec<(u32, u32, u32, u32)>,
>)
    requires
        size.0 >= 1,
        size.1 >= 1,
    ensures
        width == 0 || height == 0 ==> r@.len() == 0,
        width > 0 && height > 0 ==> r@.len() == spec_tile_count(height as int, size.1 as int),
        forall|i: int|
            0 <= i < r@.len() ==> (#[trigger] r@[i])@.len() == spec_tile_count(
                width as int,
                size.0 as int,
            ),
        forall|i: int, j: int|
            0 <= i < r@.len() && 0 <= j < r@[i]@.len() ==> (#[trigger] r@[i]@[j]) == spec_tile(
                width as int,
                height as int,
                size.0 as int,
                size.1 as int,
                i,
                j,
            ),
        forall|i: int, j: int|
            0 <= i < r@.len() && 0 <= j < r@[i]@.len() ==> {
                let t = #[trigger] r@[i]@[j];
                t.0 + t.2 <= width && t.1 + t.3 <= height && 1 <= t.2 <= size.0 && 1 <= t.3
                    <= size.1
            },
{
    let mut rows: Vec<Vec<(u32, u32, u32, u32)>> = Vec::new();
    if width == 0 || height == 0 {
        return rows;
    }
    let mw: u32 = size.0;
    let mh: u32 = size.1;
    let mut y: u32 = 0;
    proof {
        assert(rows@.len() * mh == 0) by (nonlinear_arith)
            requires
                rows@.len() == 0,
        ;
    }
    while y < height
        invariant
            1 <= mw,
            1 <= mh,
            width > 0,
            height > 0,
            y <= height,
            rows@.len() * mh <= height ==> y == rows@.len() * mh,
            rows@.len() * mh > height ==> y == height,
            rows@.len() * mh < height + mh,
            forall|i: int|
                0 <= i < rows@.len() ==> (#[trigger] rows@[i])@.len() == spec_tile_count(
                    width as int,
                    mw as int,
                ),
            forall|i: int, j: int|
                0 <= i < rows@.len() && 0 <= j < rows@[i]@.len() ==> (#[trigger] rows@[i]@[j])
                    == spec_tile(width as int, height as int, mw as int, mh as int, i, j),
            forall|i: int, j: int|
                0 <= i < rows@.len() && 0 <= j < rows@[i]@.len() ==> {
                    let t = #[trigger] rows@[i]@[j];
                    t.0 + t.2 <= width && t.1 + t.3 <= height && 1 <= t.2 <= mw && 1 <= t.3 <= mh
                },
        decreases height - y,
    {
        proof {
            assert(y == rows@.len() * mh);
        }
        let row_h: u32 = if height - y <= mh {
            height - y
        } else {
            mh
        };
        let mut row: Vec<(u32, u32, u32, u32)> = Vec::new();
        let mut x: u32 = 0;
        let ghost i = rows@.len() as int;
        proof {
            assert(row@.len() * mw == 0) by (nonlinear_arith)
                requires
                    row@.len() == 0,
            ;
        }
        while x < width
            invariant
                1 <= mw,
                1 <= mh,
                width > 0,
                height > 0,
                x <= width,
                row@.len() * mw <= width ==> x == row@.len() * mw,
                row@.len() * mw > width ==> x == width,
                row@.len() * mw < width + mw,
                i == rows@.len(),
                y == i * mh,
                y < height,
                1 <= row_h <= mh,
                height - y <= mh ==> row_h == height - y,
                height - y > mh ==> row_h == mh,
                forall|j: int|
                    0 <= j < row@.len() ==> (#[trigger] row@[j]) == spec_tile(
                        width as int,
                        height as int,
                        mw as int,
                        mh as int,
                        i,
                        j,
                    ),
                forall|j: int|
                    0 <= j < row@.len() ==> {
                        let t = #[trigger] row@[j];
                        t.0 + t.2 <= width && t.1 + t.3 <= height && 1 <= t.2 <= mw && 1 <= t.3
                            <= mh
                    },
            decreases width - x,
        {
            proof {
                assert(x == row@.len() * mw);
            }
            let tile_w: u32 = if width - x <= mw {
                width - x
            } else {
                mw
            };
            row.push((x, y, tile_w, row_h));
            proof {
                assert((row@.len() - 1) * mw + mw == row@.len() * mw) by (nonlinear_arith);
                assert(row@.last() == spec_tile(
                    width as int,
                    height as int,
                    mw as int,
                    mh as int,
                    i,
                    row@.len() - 1,
                ));
            }
            x = x + tile_w;
        }
        proof {
            if row@.len() == 0 {
                assert(x == 0);
            }
            assert((row@.len() - 1) * mw + mw == row@.len() * mw) by (nonlinear_arith);
            assert(row@.len() * mw >= width);
            lemma_tile_count_exact(width as int, mw as int, row@.len() as int);
        }
        rows.push(row);
        proof {
            assert((rows@.len() - 1) * mh + mh == rows@.len() * mh) by (nonlinear_arith);
        }
        y = y + row_h;
    }
    proof {
        if rows@.len() == 0 {
            assert(y == 0);
        }
        assert((rows@.len() - 1) * mh + mh == rows@.len() * mh) by (nonlinear_arith);
        assert(rows@.len() * mh >= height);
        lemma_tile_count_exact(height as int, mh as int, rows@.len() as int);
    }
    rows
}

/// A count of bound-sized steps that lands exactly on the extent, starting
/// inside it, is the tile count.
proof fn lemma_tile_count_exact(extent: int, bound: int, count: int)
    requires
        bound >= 1,
        extent >= 1,
        count >= 1,
        (count - 1) * bound < extent,
        count * bound >= extent,
    ensures
        count == spec_tile_count(extent, bound),
{
    let q = (extent + bound - 1) / bound;
    assert(q * bound <= extent + bound - 1 < (q + 1) * bound) by (nonlinear_arith)
        requires
            bound >= 1,
            q == (extent + bound - 1) / bound,
    ;
    assert((count - 1) * bound < extent <= count * bound);
    assert(count == q) by (nonlinear_arith)
        requires
            bound >= 1,
            (count - 1) * bound < extent <= count * bound,
            q * bound <= extent + bound - 1,
            extent + bound - 1 < (q + 1) * bound,
    ;
}

/// Split a picture into tiles that each fit within `max_size`: the grid of
/// `get_allocatable_area`, each rectangle cut out of the picture.
pub fn make_allocatable(picture: &Picture, max_size: (u32, u32)) -> (r: Vec<Vec<Picture>>)
    requires
        max_size.0 >= 1,
        max_size.1 >= 1,
    ensures
        grid_matches_tiling(
            r@,
            picture.spec_width() as int,
            picture.spec_height() as int,
            max_size.0 as int,
            max_size.1 as int,
        ),
{
    let area = get_allocatable_area(picture.width(), picture.height(), max_size);
    let ghost w = picture.spec_width() as int;
    let ghost h = picture.spec_height() as int;
    let ghost mw = max_size.0 as int;
    let ghost mh = max_size.1 as int;
    let mut rows: Vec<Vec<Picture>> = Vec::new();
    let n: usize = area.len();
    let mut i: usize = 0;
    while i < n
        invariant
            n == area@.len(),
            i <= n,
            rows@.len() == i,
            w == picture.spec_width() as int,
            h == picture.spec_height() as int,
            area_wf(area@, w, h, mw, mh),
            forall|a: int|
                0 <= a < i ==> (#[trigger] rows@[a])@.len() == area@[a]@.len(),
            forall|a: int, b: int|
                0 <= a < i && 0 <= b < rows@[a]@.len() ==> (#[trigger] rows@[a]@[b]).spec_width()
                    == area@[a]@[b].2 && rows@[a]@[b].spec_height() == area@[a]@[b].3,
        decreases n - i,
    {
        let m: usize = area[i].len();
        let mut row: Vec<Picture> = Vec::new();
        let mut j: usize = 0;
        while j < m
            invariant
                n == area@.len(),
                i < n,
                m == area@[i as int]@.len(),
                j <= m,
                row@.len() == j,
                w == picture.spec_width() as int,
                h == picture.spec_height() as int,
                area_wf(area@, w, h, mw, mh),
                forall|b: int|
                    0 <= b < j ==> (#[trigger] row@[b]).spec_width() == area@[i as int]@[b].2
                        && row@[b].spec_height() == area@[i as int]@[b].3,
            decreases m - j,
        {
            let t: (u32, u32, u32, u32) = area[i][j];
            proof {
                assert(area@[i as int]@[j as int] == t);
                assert(t.0 + t.2 <= w && t.1 + t.3 <= h);
            }
            row.push(crop_picture(picture, t.0, t.1, t.2, t.3));
            j = j + 1;
        }
        rows.push(row);
        i = i + 1;
    }
    rows
}

/// Every rectangle of a tile grid lies within the picture; used to carry the
/// tiling's facts through the cropping loops.
pub open spec fn area_wf(
    area: Seq<Vec<(u32, u32, u32, u32)>>,
    w: int,
    h: int,
    mw: int,
    mh: int,
) -> bool {
    forall|i: int, j: int|
        0 <= i < area.len() && 0 <= j < area[i]@.len() ==> {
            let t = #[trigger] area[i]@[j];
            t == spec_tile(w, h, mw, mh, i, j) && t.0 + t.2 <= w && t.1 + t.3 <= h && t.2 <= mw
                && t.3 <= mh
        }
}

/// A grid of pictures cut by the tiling: the grid's shape is the tiling's,
/// and each picture has its tile's size, so every tile fits within the
/// bounds, all tiles of one row share their height, and the widths of every
/// row sum alike.
pub open spec fn grid_matches_tiling(
    grid: Seq<Vec<Picture>>,
    w: int,
    h: int,
    mw: int,
    mh: int,
) -> bool {
    &&& (w == 0 || h == 0 ==> grid.len() == 0)
    &&& (w > 0 && h > 0 ==> grid.len() == spec_tile_count(h, mh))
    &&& forall|i: int| 0 <= i < grid.len() ==> (#[trigger] grid[i])@.len() == spec_tile_count(w, mw)
    &&& forall|i: int, j: int|
        0 <= i < grid.len() && 0 <= j < grid[i]@.len() ==> {
            let t = spec_tile(w, h, mw, mh, i, j);
            (#[trigger] grid[i]@[j]).spec_width() == t.2 && grid[i]@[j].spec_height() == t.3
        }
}

/// A picture split into a tile grid.
pub struct SplittedImage(pub Vec<Vec<Picture>>);

impl SplittedImage {
    /// Wrap an already-cut grid.
    pub fn new(image: Vec<Vec<Picture>>) -> (r: Self)
        ensures
            r.0 == image,
    {
        SplittedImage(image)
    }

    /// Cut a picture into tiles that each fit within `max_size`.
    pub fn make_allocatable(image: &Picture, max_size: (u32, u32)) -> (r: Self)
        requires
            max_size.0 >= 1,
            max_size.1 >= 1,
        ensures
            grid_matches_tiling(
                r.0@,
                image.spec_width() as int,
                image.spec_height() as int,
                max_size.0 as int,
                max_size.1 as int,
            ),
    {
        SplittedImage(make_allocatable(image, max_size))
    }
}

/// One frame of an animated image, split into tiles.
pub struct SplittedFrameData {
    pub delay_ms: u64,
    pub image: SplittedImage,
}

/// A loadable image with every picture split into tiles.
pub enum SplittedImageData {
    StaticImage(SplittedImage),
    AnimatedImage(Vec<SplittedFrameData>),
}

/// A decoded source whose frames are not yet collected: one still image's
/// bytes, or the animation decoder's frames.
pub enum Frames {
    SingleImage(Vec<u8>),
    Frames(Vec<image::Frame>),
}

/// A still image mid-collection: bytes still to decode, or the decoded
/// picture; decoding consumes the bytes even when it fails.
pub enum SingleImageEither {
    Reader(Option<Vec<u8>>),
    Image(Picture),
}

/// A source being collected frame by frame, so a slow decode can yield
/// between steps.
pub enum FramesCollector {
    SingleImage(SingleImageEither),
    Frames { frames: Vec<image::Frame>, collected: Vec<FrameData> },
}

impl Frames {
    /// Open a byte string: bytes whose guessed format is the animated one
    /// carry their decoded frames; anything else waits to be decoded as one
    /// still image. Fails exactly when no format can be guessed or the
    /// animated decode is refused.
    pub fn from_memory(data: Vec<u8>) -> (r: Result<Frames, image::ImageError>)
        ensures
            r is Ok <==> (spec_guess(data@) matches Some(gif) && (gif ==> spec_gif_decode(data@)
                is Some)),
            r matches Ok(f) ==> match f {
                Frames::SingleImage(b) => b@ == data@ && spec_guess(data@) == Option::Some(false),
                Frames::Frames(v) => spec_guess(data@) == Option::Some(true) && spec_gif_decode(
                    data@,
                ) == Option::Some(v@.len() as nat),
            },
    {
        if guess_is_gif(data.as_slice())? {
            Ok(Frames::Frames(decode_gif_frames(data.as_slice())?))
        } else {
            Ok(Frames::SingleImage(data))
        }
    }

    /// Begin collecting: a still image starts undecoded, an animated one
    /// with nothing collected yet.
    pub fn into_collector(self) -> (r: FramesCollector)
        ensures
            match self {
                Frames::SingleImage(b) => r == FramesCollector::SingleImage(
                    SingleImageEither::Reader(Option::Some(b)),
                ),
                Frames::Frames(v) => r matches FramesCollector::Frames { frames, collected }
                    && frames == v && collected@.len() == 0,
            },
    {
        match self {
            Frames::SingleImage(b) => FramesCollector::SingleImage(
                SingleImageEither::Reader(Some(b)),
            ),
            Frames::Frames(v) => FramesCollector::Frames { frames: v, collected: Vec::new() },
        }
    }
}

impl FramesCollector {
    /// Do one step of collecting: decode the still image, or move one frame
    /// into the collected sequence. `true` exactly when more steps may
    /// follow; a failed still decode consumes the bytes and reports the
    /// collaborator's error.
    pub fn load_next(&mut self) -> (r: Result<bool, image::ImageError>)
        ensures
            match *old(self) {
                FramesCollector::SingleImage(either) => match either {
                    SingleImageEither::Reader(opt) => match opt {
                        Option::Some(b) => {
                            &&& (r matches Ok(more) ==> !more && spec_static_decode(b@) is Some
                                && (*final(self) matches FramesCollector::SingleImage(
                                SingleImageEither::Image(p),
                            ) && Option::Some((p.spec_width(), p.spec_height()))
                                == spec_static_decode(b@)))
                            &&& (r is Err ==> spec_static_decode(b@) is None && *final(self)
                                == FramesCollector::SingleImage(
                                SingleImageEither::Reader(Option::None),
                            ))
                        },
                        Option::None => r matches Ok(more) && !more && *final(self) == *old(self),
                    },
                    SingleImageEither::Image(_) => r matches Ok(more) && !more && *final(self)
                        == *old(self),
                },
                FramesCollector::Frames { frames, collected } => {
                    &&& r is Ok
                    &&& (frames@.len() > 0 ==> r == Result::<bool, image::ImageError>::Ok(true)
                        && (*final(self) matches FramesCollector::Frames {
                        frames: f2,
                        collected: c2,
                    } && f2@ =~= frames@.drop_first() && c2@.len() == collected@.len() + 1
                        && c2@.take(collected@.len() as int) =~= collected@))
                    &&& (frames@.len() == 0 ==> r == Result::<bool, image::ImageError>::Ok(false)
                        && *final(self) == *old(self))
                },
            },
    {
        match self {
            FramesCollector::SingleImage(either) => {
                if let SingleImageEither::Reader(reader) = either {
                    let mut taken: Option<Vec<u8>> = None;
                    core::mem::swap(&mut taken, reader);
                    if let Some(bytes) = taken {
                        match decode_static(bytes.as_slice()) {
                            Ok(p) => {
                                *either = SingleImageEither::Image(p);
                            },
                            Err(e) => {
                                return Err(e);
                            },
                        }
                    }
                }
                Ok(false)
            },
            FramesCollector::Frames { frames, collected } => {
                if frames.len() > 0 {
                    let frame = frames.remove(0);
                    let ghost pre = collected@;
                    collected.push(frame_to_data(frame));
                    proof {
                        assert(collected@.take(pre.len() as int) =~= pre);
                    }
                    Ok(true)
                } else {
                    Ok(false)
                }
            },
        }
    }

    /// What was collected: the decoded still picture, the animated frames,
    /// or nothing when the still image was never decoded.
    pub fn into_image(self) -> (r: Option<ImageData>)
        ensures
            match self {
                FramesCollector::SingleImage(either) => match either {
                    SingleImageEither::Reader(_) => r is None,
                    SingleImageEither::Image(p) => r == Option::Some(ImageData::StaticImage(p)),
                },
                FramesCollector::Frames { frames: _, collected } => r == Option::Some(
                    ImageData::AnimatedImage(collected),
                ),
            },
    {
        match self {
            FramesCollector::SingleImage(either) => match either {
                SingleImageEither::Reader(_) => None,
                SingleImageEither::Image(p) => Some(ImageData::StaticImage(p)),
            },
            FramesCollector::Frames { frames: _, collected } => Some(
                ImageData::AnimatedImage(collected),
            ),
        }
    }

    /// Collect everything: step until no more steps follow, then hand over
    /// the image. A still source yields its decoded picture, or the
    /// collaborator's error when its bytes are refused; undecoded bytes
    /// never count as collected. An animated source yields its already
    /// collected frames followed by one for each frame still pending.
    pub fn collect_vector(self) -> (r: Option<Result<ImageData, image::ImageError>>)
        ensures
            match self {
                FramesCollector::SingleImage(either) => match either {
                    SingleImageEither::Reader(opt) => match opt {
                        Option::Some(b) => {
                            &&& (spec_static_decode(b@) is Some ==> (r matches Some(out)
                                && (out matches Ok(img) && (img matches ImageData::StaticImage(p)
                                && Option::Some((p.spec_width(), p.spec_height()))
                                == spec_static_decode(b@)))))
                            &&& (spec_static_decode(b@) is None ==> (r matches Some(out)
                                && out is Err))
                        },
                        Option::None => r is None,
                    },
                    SingleImageEither::Image(p) => r == Option::Some(
                        Result::<ImageData, image::ImageError>::Ok(ImageData::StaticImage(p)),
                    ),
                },
                FramesCollector::Frames { frames, collected } => r matches Some(out)
                    && (out matches Ok(img) && (img matches ImageData::AnimatedImage(c2)
                    && c2@.len() == collected@.len() + frames@.len() && c2@.take(
                    collected@.len() as int,
                ) == collected@)),
            },
    {
        let mut collector = self;
        if matches!(collector, FramesCollector::SingleImage(_)) {
            if let Err(e) = collector.load_next() {
                return Some(Err(e));
            }
            return match collector.into_image() {
                Some(img) => Some(Ok(img)),
                None => None,
            };
        }
        let ghost c0 = match &collector {
            FramesCollector::Frames { frames: _, collected } => collected@,
            _ => Seq::empty(),
        };
        let ghost total = match &collector {
            FramesCollector::Frames { frames, collected } => collected@.len() + frames@.len(),
            _ => 0nat,
        };
        loop
            invariant
                collector matches FramesCollector::Frames { frames, collected } && collected@.len()
                    + frames@.len() == total && collected@.len() >= c0.len() && collected@.take(
                    c0.len() as int,
                ) == c0,
            ensures
                collector matches FramesCollector::Frames { frames, collected } && frames@.len()
                    == 0 && collected@.len() == total && collected@.take(c0.len() as int) == c0,
            decreases collector_measure(&collector),
        {
            let ghost pre = match &collector {
                FramesCollector::Frames { frames: _, collected } => collected@,
                _ => Seq::empty(),
            };
            match collector.load_next() {
                Ok(true) => {
                    proof {
                        let post = collector->Frames_collected@;
                        assert(post.take(pre.len() as int) =~= pre);
                        assert forall|k: int| 0 <= k < c0.len() implies post.take(
                            c0.len() as int,
                        )[k] == c0[k] by {
                            assert(post.take(pre.len() as int)[k] == post[k]);
                            assert(pre.take(c0.len() as int)[k] == pre[k]);
                        }
                        assert(post.take(c0.len() as int) =~= c0);
                    }
                },
                Ok(false) => {
                    break ;
                },
                Err(_) => {
                    proof {
                        assert(false);
                    }
                },
            }
        }
        match collector.into_image() {
            Some(img) => Some(Ok(img)),
            None => None,
        }
    }
}

/// How many collecting steps can still follow.
pub open spec fn collector_measure(c: &FramesCollector) -> nat {
    match *c {
        FramesCollector::SingleImage(_) => 1nat,
        FramesCollector::Frames { frames, collected: _ } => frames@.len(),
    }
}

} // verus!
