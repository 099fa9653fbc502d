use vstd::prelude::*;

use crate::error::{build_error, is_build_error, RelayError};
use crate::text::{has_prefix, push_text};

verus! {

/// The media formats that posts may carry.
#[derive(Debug, Clone, Copy, PartialEq, Eq, Structural)]
pub enum FileType {
    Jpeg,
    Png,
    WebP,
    Mp4,
    WebM,
}

/// Whether `magic` occurs in `b` at `at`.
pub open spec fn bytes_at(b: Seq<u8>, at: int, magic: Seq<u8>) -> bool {
    0 <= at && at + magic.len() <= b.len() && b.subrange(at, at + magic.len()) == magic
}

/// The format a file's leading bytes announce: JPEG's SOI marker, PNG's
/// signature, a RIFF container of WEBP, an ISO media file's `ftyp` box, or
/// Matroska's EBML header.
pub open spec fn spec_detect(b: Seq<u8>) -> Option<FileType> {
    if bytes_at(b, 0, seq![0xffu8, 0xd8, 0xff]) {
        Some(FileType::Jpeg)
    } else if bytes_at(b, 0, seq![0x89u8, 0x50, 0x4e, 0x47, 0x0d, 0x0a, 0x1a, 0x0a]) {
        Some(FileType::Png)
    } else if bytes_at(b, 0, seq![0x52u8, 0x49, 0x46, 0x46]) && bytes_at(b, 8, seq![0x57u8, 0x45, 0x42, 0x50]) {
        Some(FileType::WebP)
    } else if bytes_at(b, 4, seq![0x66u8, 0x74, 0x79, 0x70]) {
        Some(FileType::Mp4)
    } else if bytes_at(b, 0, seq![0x1au8, 0x45, 0xdf, 0xa3]) {
        Some(FileType::WebM)
    } else {
        None
    }
}

fn starts_at(b: &[u8], at: usize, magic: &[u8]) -> (r: bool)
    ensures
        r == bytes_at(b@, at as int, magic@),
{
    if at > b.len() || magic.len() > b.len() - at {
        return false;
    }
    let n = b.len();
    let mut i: usize = 0;
    while i < magic.len()
        invariant
            n == b@.len(),
            i <= magic@.len(),
            at + magic@.len() <= b@.len(),
            forall|j: int| 0 <= j < i ==> b@[at + j] == magic@[j],
        decreases magic.len() - i,
    {
        assert(at + i < b@.len());
        if b[at + i] != magic[i] {
            assert(b@.subrange(at as int, at + magic@.len())[i as int] != magic@[i as int]);
            return false;
        }
        i = i + 1;
    }
    assert(b@.subrange(at as int, at + magic@.len()) =~= magic@);
    true
}

impl FileType {
    /// Tells a file's format from its leading bytes.
    pub fn detect(bytes: &[u8]) -> (r: Option<FileType>)
        ensures
            r == spec_detect(bytes@),
    {
        let jpeg: [u8; 3] = [0xff, 0xd8, 0xff];
        let png: [u8; 8] = [0x89, 0x50, 0x4e, 0x47, 0x0d, 0x0a, 0x1a, 0x0a];
        let riff: [u8; 4] = [0x52, 0x49, 0x46, 0x46];
        let webp: [u8; 4] = [0x57, 0x45, 0x42, 0x50];
        let ftyp: [u8; 4] = [0x66, 0x74, 0x79, 0x70];
        let ebml: [u8; 4] = [0x1a, 0x45, 0xdf, 0xa3];
        assert(jpeg@ =~= seq![0xffu8, 0xd8, 0xff]);
        assert(png@ =~= seq![0x89u8, 0x50, 0x4e, 0x47, 0x0d, 0x0a, 0x1a, 0x0a]);
        assert(riff@ =~= seq![0x52u8, 0x49, 0x46, 0x46]);
        assert(webp@ =~= seq![0x57u8, 0x45, 0x42, 0x50]);
        assert(ftyp@ =~= seq![0x66u8, 0x74, 0x79, 0x70]);
        assert(ebml@ =~= seq![0x1au8, 0x45, 0xdf, 0xa3]);
        if starts_at(bytes, 0, jpeg.as_slice()) {
            Some(FileType::Jpeg)
        } else if starts_at(bytes, 0, png.as_slice()) {
            Some(FileType::Png)
        } else if starts_at(bytes, 0, riff.as_slice()) && starts_at(bytes, 8, webp.as_slice()) {
            Some(FileType::WebP)
        } else if starts_at(bytes, 4, ftyp.as_slice()) {
            Some(FileType::Mp4)
        } else if starts_at(bytes, 0, ebml.as_slice()) {
            Some(FileType::WebM)
        } else {
            None
        }
    }

    /// The MIME type of the format.
    pub fn mime(self) -> (r: &'static str)
        ensures
            r@ == spec_mime(self),
    {
        match self {
            FileType::Jpeg => "image/jpeg",
            FileType::Png => "image/png",
            FileType::WebP => "image/webp",
            FileType::Mp4 => "video/mp4",
            FileType::WebM => "video/webm",
        }
    }
}

pub open spec fn spec_mime(t: FileType) -> Seq<char> {
    match t {
        FileType::Jpeg => "image/jpeg"@,
        FileType::Png => "image/png"@,
        FileType::WebP => "image/webp"@,
        FileType::Mp4 => "video/mp4"@,
        FileType::WebM => "video/webm"@,
    }
}

/// The signature of a RAR archive.
pub open spec fn rar_magic() -> Seq<u8> {
    seq![0x52u8, 0x61, 0x72, 0x21, 0x1a, 0x07]
}

/// Whether an image hides a RAR archive: a JPEG or PNG file in which the
/// RAR signature occurs anywhere.
pub open spec fn spec_rarjpeg(b: Seq<u8>) -> bool {
    (spec_detect(b) == Some(FileType::Jpeg) || spec_detect(b) == Some(FileType::Png)) && exists|i: int|
        #[trigger] bytes_at(b, i, rar_magic())
}

pub fn contains_rarjpeg(bytes: &[u8]) -> (r: bool)
    ensures
        r == spec_rarjpeg(bytes@),
{
    match FileType::detect(bytes) {
        Some(FileType::Jpeg) | Some(FileType::Png) => {},
        _ => return false,
    }
    let magic: [u8; 6] = [0x52, 0x61, 0x72, 0x21, 0x1a, 0x07];
    assert(magic@ =~= rar_magic());
    let mut i: usize = 0;
    while i < bytes.len()
        invariant
            i <= bytes@.len(),
            magic@ == rar_magic(),
            spec_detect(bytes@) == Some(FileType::Jpeg) || spec_detect(bytes@) == Some(FileType::Png),
            forall|j: int| 0 <= j < i ==> !bytes_at(bytes@, j, rar_magic()),
        decreases bytes.len() - i,
    {
        if starts_at(bytes, i, magic.as_slice()) {
            assert(bytes_at(bytes@, i as int, rar_magic()));
            return true;
        }
        i = i + 1;
    }
    assert forall|j: int| !(#[trigger] bytes_at(bytes@, j, rar_magic())) by {
        if j >= i {
            assert(j + 6 > bytes@.len());
        }
    }
    false
}

/// Accepts a media file of a supported format that hides no archive.
pub fn validate(data: &[u8]) -> (r: Result<FileType, RelayError>)
    ensures
        spec_detect(data@) is None ==> r is Err && is_build_error(r->Err_0, "unsupported media format"@),
        spec_detect(data@) matches Some(t) ==> if spec_rarjpeg(data@) {
            r is Err && is_build_error(r->Err_0, "rarjpeg rejected"@)
        } else {
            r == Ok::<FileType, RelayError>(t)
        },
{
    let ft = match FileType::detect(data) {
        Some(t) => t,
        None => return Err(build_error("unsupported media format")),
    };
    if contains_rarjpeg(data) {
        return Err(build_error("rarjpeg rejected"));
    }
    Ok(ft)
}

/// The largest side of a thumbnail.
pub const THUMB_SIZE: u32 = 220;

/// An image is shrunk for its thumbnail only when a side exceeds the
/// thumbnail size.
pub fn needs_shrink(width: u32, height: u32) -> (r: bool)
    ensures
        r == !(width <= THUMB_SIZE && height <= THUMB_SIZE),
{
    !(width <= THUMB_SIZE && height <= THUMB_SIZE)
}

/// The width and height of the picture that the `image` crate decodes from a
/// file's bytes, when it decodes one.
pub uninterp spec fn picture_size(data: Seq<u8>) -> Option<(u32, u32)>;

/// The JPEG that the `image` crate writes for the picture of a file's bytes,
/// when it decodes and encodes it.
pub uninterp spec fn jpeg_of(data: Seq<u8>) -> Option<Seq<u8>>;

/// The JPEG that the `image` crate writes for the picture of a file's bytes
/// scaled down, keeping its proportions, to fit a `side`-pixel square.
pub uninterp spec fn shrunk_jpeg_of(data: Seq<u8>, side: u32) -> Option<Seq<u8>>;

/// Why the `image` crate gave no JPEG: the bytes hold no picture it reads,
/// or the encoding failed; with the crate's message.
pub enum ImageFailure {
    Decode(String),
    Encode(String),
}

/// `image::load_from_memory` and `GenericImageView::dimensions`.
#[verifier::external_body]
fn decoded_size(data: &[u8]) -> (r: Result<(u32, u32), String>)
    ensures
        r is Ok <==> picture_size(data@) is Some,
        r matches Ok(v) ==> picture_size(data@) == Some(v),
{
    match image::load_from_memory(data) {
        Ok(img) => Ok(image::GenericImageView::dimensions(&img)),
        Err(e) => Err(e.to_string()),
    }
}

/// `image::load_from_memory`, then `DynamicImage::write_to` as JPEG; the
/// decoding is the one `decoded_size` makes.
#[verifier::external_body]
fn encode_jpeg(data: &[u8]) -> (r: Result<Vec<u8>, ImageFailure>)
    ensures
        r is Ok <==> jpeg_of(data@) is Some,
        r matches Ok(b) ==> jpeg_of(data@) == Some(b@),
        r matches Err(ImageFailure::Decode(_)) <==> picture_size(data@) is None,
{
    let img = match image::load_from_memory(data) {
        Ok(img) => img,
        Err(e) => return Err(ImageFailure::Decode(e.to_string())),
    };
    let mut buf: Vec<u8> = Vec::new();
    match img.write_to(&mut std::io::Cursor::new(&mut buf), image::ImageFormat::Jpeg) {
        Ok(()) => Ok(buf),
        Err(e) => Err(ImageFailure::Encode(e.to_string())),
    }
}

/// `image::load_from_memory`, `DynamicImage::thumbnail(side, side)`, then
/// `write_to` as JPEG; the decoding is the one `decoded_size` makes.
#[verifier::external_body]
fn encode_shrunk_jpeg(data: &[u8], side: u32) -> (r: Result<Vec<u8>, ImageFailure>)
    ensures
        r is Ok <==> shrunk_jpeg_of(data@, side) is Some,
        r matches Ok(b) ==> shrunk_jpeg_of(data@, side) == Some(b@),
        r matches Err(ImageFailure::Decode(_)) <==> picture_size(data@) is None,
{
    let img = match image::load_from_memory(data) {
        Ok(img) => img.thumbnail(side, side),
        Err(e) => return Err(ImageFailure::Decode(e.to_string())),
    };
    let mut buf: Vec<u8> = Vec::new();
    match img.write_to(&mut std::io::Cursor::new(&mut buf), image::ImageFormat::Jpeg) {
        Ok(()) => Ok(buf),
        Err(e) => Err(ImageFailure::Encode(e.to_string())),
    }
}

/// The prefix of a decoding failure: of the upload itself, or of the frame
/// taken from a video.
pub open spec fn decode_prefix(frame: bool) -> Seq<char> {
    if frame {
        "frame decode: "@
    } else {
        "image decode: "@
    }
}

fn failure(prefix: &str, rest: &str) -> (r: RelayError)
    ensures
        r matches RelayError::SponsorBuild(m) && m@ == prefix@ + rest@ && has_prefix(m@, prefix@),
{
    let mut m = String::new();
    push_text(&mut m, prefix);
    push_text(&mut m, rest);
    assert(m@.take(prefix@.len() as int) =~= prefix@);
    RelayError::SponsorBuild(m)
}

/// The JPEG thumbnail of a picture: the bytes of an uploaded picture, or the
/// PNG of a video's first frame (`frame`). A picture with a side longer than
/// `THUMB_SIZE` is scaled down to fit; a smaller one is kept as it is.
pub fn render_thumbnail(pixels: &[u8], frame: bool) -> (r: Result<Vec<u8>, RelayError>)
    ensures
        picture_size(pixels@) is None ==> (r matches Err(RelayError::SponsorBuild(m)) && has_prefix(
            m@,
            decode_prefix(frame),
        )),
        picture_size(pixels@) matches Some((w, h)) ==> {
            let out = if w <= THUMB_SIZE && h <= THUMB_SIZE {
                jpeg_of(pixels@)
            } else {
                shrunk_jpeg_of(pixels@, THUMB_SIZE)
            };
            &&& r is Ok <==> out is Some
            &&& r matches Ok(b) ==> out == Some(b@)
            &&& r matches Err(e) ==> (e matches RelayError::SponsorBuild(m) && has_prefix(m@, "jpeg encode: "@))
        },
{
    let prefix = if frame {
        "frame decode: "
    } else {
        "image decode: "
    };
    let (w, h) = match decoded_size(pixels) {
        Ok(v) => v,
        Err(e) => return Err(failure(prefix, e.as_str())),
    };
    let encoded = if needs_shrink(w, h) {
        encode_shrunk_jpeg(pixels, THUMB_SIZE)
    } else {
        encode_jpeg(pixels)
    };
    match encoded {
        Ok(b) => Ok(b),
        Err(ImageFailure::Decode(e)) => Err(failure(prefix, e.as_str())),
        Err(ImageFailure::Encode(e)) => Err(failure("jpeg encode: ", e.as_str())),
    }
}

/// What the relay records of a media file: its type, size in pixels, length
/// for videos, and size in bytes.
#[derive(Debug)]
pub struct MediaMeta {
    pub mime: String,
    pub width: u32,
    pub height: u32,
    pub duration_ms: Option<u64>,
    pub size: u64,
}

/// Whether a media type is a video, measured and previewed on its first frame.
pub open spec fn is_video(t: FileType) -> bool {
    t is Mp4 || t is WebM
}

/// The record of an upload: checked as `validate` does, then measured, a
/// picture on its own bytes, a video on the PNG of its first frame (`frame`)
/// with the length the prober found (`duration_ms`).
pub fn media_meta(data: &[u8], frame: &[u8], duration_ms: Option<u64>) -> (r: Result<MediaMeta, RelayError>)
    ensures
        spec_detect(data@) is None ==> r is Err && is_build_error(r->Err_0, "unsupported media format"@),
        spec_detect(data@) is Some && spec_rarjpeg(data@) ==> r is Err && is_build_error(
            r->Err_0,
            "rarjpeg rejected"@,
        ),
        spec_detect(data@) is Some && !spec_rarjpeg(data@) ==> {
            let t = spec_detect(data@)->Some_0;
            let pixels = if is_video(t) { frame@ } else { data@ };
            match picture_size(pixels) {
                None => r matches Err(RelayError::SponsorBuild(m)) && has_prefix(m@, decode_prefix(is_video(t))),
                Some((w, h)) => r matches Ok(meta) && meta.mime@ == spec_mime(t) && meta.width == w
                    && meta.height == h && meta.duration_ms == (if is_video(t) { duration_ms } else { None })
                    && meta.size == data@.len(),
            }
        },
{
    let ft = match validate(data) {
        Ok(t) => t,
        Err(e) => return Err(e),
    };
    let video = match ft {
        FileType::Mp4 | FileType::WebM => true,
        _ => false,
    };
    let (pixels, prefix, duration) = if video {
        (frame, "frame decode: ", duration_ms)
    } else {
        (data, "image decode: ", None)
    };
    let (w, h) = match decoded_size(pixels) {
        Ok(v) => v,
        Err(e) => return Err(failure(prefix, e.as_str())),
    };
    Ok(MediaMeta { mime: ft.mime().to_string(), width: w, height: h, duration_ms: duration, size: data.len() as u64 })
}

/// The JPEG thumbnail of an upload, checked as `validate` does: of the
/// picture itself, or of a video's first frame (`frame`, as PNG).
pub fn thumbnail(data: &[u8], frame: &[u8]) -> (r: Result<Vec<u8>, RelayError>)
    ensures
        spec_detect(data@) is None ==> r is Err && is_build_error(r->Err_0, "unsupported media format"@),
        spec_detect(data@) is Some && spec_rarjpeg(data@) ==> r is Err && is_build_error(
            r->Err_0,
            "rarjpeg rejected"@,
        ),
        spec_detect(data@) is Some && !spec_rarjpeg(data@) ==> {
            let t = spec_detect(data@)->Some_0;
            let pixels = if is_video(t) { frame@ } else { data@ };
            match picture_size(pixels) {
                None => r matches Err(RelayError::SponsorBuild(m)) && has_prefix(m@, decode_prefix(is_video(t))),
                Some((w, h)) => {
                    let out = if w <= THUMB_SIZE && h <= THUMB_SIZE {
                        jpeg_of(pixels)
                    } else {
                        shrunk_jpeg_of(pixels, THUMB_SIZE)
                    };
                    &&& r is Ok <==> out is Some
                    &&& r matches Ok(b) ==> out == Some(b@)
                },
            }
        },
{
    let ft = match validate(data) {
        Ok(t) => t,
        Err(e) => return Err(e),
    };
    match ft {
        FileType::Mp4 | FileType::WebM => render_thumbnail(frame, true),
        _ => render_thumbnail(data, false),
    }
}

} // verus!
