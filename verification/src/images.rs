//! Product images: where they may be fetched from, what a reply leads to, which bytes are
//! taken for an image, what they are decoded to, and when its encoding is small enough.

use crate::address::{self, Address, AddressV};
use crate::digest;
use crate::failure::{self, Failure, FailureV};
use crate::image_hosts;
use crate::text;
use image::codecs::jpeg::JpegEncoder;
use image::codecs::png::PngEncoder;
use image::codecs::webp::WebPEncoder;
use image::imageops::FilterType;
use image::{
    ColorType, DynamicImage, ImageBuffer, ImageDecoder, ImageError, ImageFormat, ImageReader, Limits,
};
use std::io::Cursor;
use vstd::prelude::*;

verus! {

pub const MAX_URL_BYTES: usize = 2_048;

pub const MAX_REDIRECTS: usize = 3;

pub const MAX_SOURCE_BYTES: usize = 4_194_304;

pub const MAX_OUTPUT_BYTES: usize = 1_048_576;

pub const MAX_SOURCE_PIXELS: u64 = 20_000_000;

pub const MAX_DECODE_ALLOC: u64 = 134_217_728;

pub const MAX_OUTPUT_EDGE: u32 = 1_536;

pub const MAX_ENCODE_ATTEMPTS: usize = 10;

/// An image that was fetched: its bytes in base64, their kind, size and digest, and when it
/// was fetched.
#[derive(Debug)]
pub struct FetchedImage {
    pub data: String,
    pub mime_type: String,
    pub width: u32,
    pub height: u32,
    pub sha256: String,
    pub retrieved_at: String,
}

/// What a [`FetchedImage`] holds.
pub struct FetchedImageV {
    pub data: Seq<char>,
    pub mime_type: Seq<char>,
    pub width: u32,
    pub height: u32,
    pub sha256: Seq<char>,
    pub retrieved_at: Seq<char>,
}

impl View for FetchedImage {
    type V = FetchedImageV;

    open spec fn view(&self) -> FetchedImageV {
        FetchedImageV {
            data: self.data@,
            mime_type: self.mime_type@,
            width: self.width,
            height: self.height,
            sha256: self.sha256@,
            retrieved_at: self.retrieved_at@,
        }
    }
}

pub open spec fn changed(detail: Seq<char>) -> FailureV {
    FailureV::Message("SOURCE_CHANGED: "@ + detail)
}

pub open spec fn too_large(detail: Seq<char>) -> FailureV {
    FailureV::Message("RESULT_TOO_LARGE: "@ + detail)
}

fn changed_failure(detail: &str) -> (r: Failure)
    ensures
        r@ == changed(detail@),
{
    Failure::Message(text::joined("SOURCE_CHANGED: ", detail))
}

fn too_large_failure(detail: &str) -> (r: Failure)
    ensures
        r@ == too_large(detail@),
{
    Failure::Message(text::joined("RESULT_TOO_LARGE: ", detail))
}

/// Whether the parts of a URL name the image host, by `https` on its usual port and with no
/// one logged in.
pub open spec fn allowed(a: AddressV) -> bool {
    &&& a.scheme == "https"@
    &&& a.host == Some("ir.ozone.ru"@)
    &&& a.port is None || a.port == Some(443u16)
    &&& a.username.len() == 0
    &&& a.password is None
}

/// The URL that a text spells, where an image may be fetched from it.
pub open spec fn image_url(raw: Seq<char>) -> Result<AddressV, FailureV> {
    if text::utf8_len(raw) > MAX_URL_BYTES {
        Err(image_hosts::blocked("image URL exceeds size limit"@))
    } else {
        match address::parsed_url(raw) {
            Err(_) => Err(image_hosts::blocked("invalid image URL"@)),
            Ok(a) => if allowed(a) {
                Ok(a)
            } else {
                Err(image_hosts::blocked("image URL origin is not allowed"@))
            },
        }
    }
}

/// Whether the parts of a URL name the image host.
pub fn is_allowed(a: &Address) -> (r: bool)
    ensures
        r == allowed(a@),
{
    let host: bool = match &a.host {
        Some(host) => text::same(host.as_str(), image_hosts::image_host()),
        None => false,
    };
    let port: bool = match a.port {
        Some(port) => port == 443,
        None => true,
    };
    text::same(a.scheme.as_str(), "https") && host && port && text::utf8_length(
        a.username.as_str(),
    ) == 0 && a.password.is_none()
}

pub fn validate_url(raw: &str) -> (r: Result<Address, Failure>)
    ensures
        failure::outcome(r) == image_url(raw@),
{
    if text::utf8_length(raw) > MAX_URL_BYTES {
        return Err(image_hosts::blocked_failure("image URL exceeds size limit"));
    }
    match Address::parse(raw) {
        Err(_) => Err(image_hosts::blocked_failure("invalid image URL")),
        Ok(a) => if is_allowed(&a) {
            Ok(a)
        } else {
            Err(image_hosts::blocked_failure("image URL origin is not allowed"))
        },
    }
}

/// The head of the reply to a request for an image. A header that is no text is left out.
#[derive(Debug)]
pub struct ImageReply {
    pub status: u16,
    pub location: Option<String>,
    pub content_length: Option<u64>,
    pub content_type: Option<String>,
}

pub struct ImageReplyV {
    pub status: u16,
    pub location: Option<Seq<char>>,
    pub content_length: Option<u64>,
    pub content_type: Option<Seq<char>>,
}

impl View for ImageReply {
    type V = ImageReplyV;

    open spec fn view(&self) -> ImageReplyV {
        ImageReplyV {
            status: self.status,
            location: text::text_of(self.location),
            content_length: self.content_length,
            content_type: text::text_of(self.content_type),
        }
    }
}

/// What a reply leads to: a request for another URL, or its body, of a known kind.
#[derive(Debug)]
pub enum AfterReply {
    Follow(String),
    Read(String),
}

pub enum AfterReplyV {
    Follow(Seq<char>),
    Read(Seq<char>),
}

impl View for AfterReply {
    type V = AfterReplyV;

    open spec fn view(&self) -> AfterReplyV {
        match self {
            AfterReply::Follow(s) => AfterReplyV::Follow(s@),
            AfterReply::Read(s) => AfterReplyV::Read(s@),
        }
    }
}

/// The kind of image that a content type names, where it is one that is taken.
pub open spec fn mime_of(value: Seq<char>) -> Option<Seq<char>> {
    let kind = text::lowercase(text::trimmed(text::split(value, ';')[0]));
    if kind == "image/jpeg"@ || kind == "image/png"@ || kind == "image/webp"@ {
        Some(kind)
    } else {
        None
    }
}

pub fn supported_mime(value: &str) -> (r: Option<String>)
    ensures
        text::text_of(r) == mime_of(value@),
{
    let pieces: Vec<String> = text::split_at_char(value, ';');
    assert(text::texts(pieces@)[0] == pieces@[0]@);
    let bare: String = text::trim(pieces[0].as_str());
    let kind: String = text::to_ascii_lowercase(bare.as_str());
    if text::same(kind.as_str(), "image/jpeg") || text::same(kind.as_str(), "image/png")
        || text::same(kind.as_str(), "image/webp") {
        Some(kind)
    } else {
        None
    }
}

/// Where a redirection from a URL leads.
pub open spec fn redirected(url: Seq<char>, location: Option<Seq<char>>) -> Result<
    AfterReplyV,
    FailureV,
> {
    match location {
        None => Err(image_hosts::blocked("invalid image redirect"@)),
        Some(to) => if text::utf8_len(to) > MAX_URL_BYTES {
            Err(image_hosts::blocked("invalid image redirect"@))
        } else {
            match address::joined_text(url, to) {
                Err(_) => Err(image_hosts::blocked("invalid image redirect"@)),
                Ok(next) => match image_url(next) {
                    Err(e) => Err(e),
                    Ok(a) => Ok(AfterReplyV::Follow(a.text)),
                },
            }
        },
    }
}

/// What the head of a reply leads to, after so many redirections.
pub open spec fn next_step(url: Seq<char>, redirects: nat, reply: ImageReplyV) -> Result<
    AfterReplyV,
    FailureV,
> {
    if 300 <= reply.status <= 399 {
        if redirects >= MAX_REDIRECTS {
            Err(image_hosts::blocked("image redirect limit exceeded"@))
        } else {
            redirected(url, reply.location)
        }
    } else if reply.status == 404 {
        Err(FailureV::Message("NOT_FOUND: image source was not found"@))
    } else if !(200 <= reply.status <= 299) {
        Err(image_hosts::blocked("image source did not return an image"@))
    } else if reply.content_length matches Some(n) && n > MAX_SOURCE_BYTES {
        Err(too_large("compressed image exceeds 4 MiB"@))
    } else {
        match reply.content_type {
            Some(value) => match mime_of(value) {
                Some(kind) => Ok(AfterReplyV::Read(kind)),
                None => Err(changed("unsupported image content type"@)),
            },
            None => Err(changed("unsupported image content type"@)),
        }
    }
}

fn follow_redirect(url: &str, location: &Option<String>) -> (r: Result<AfterReply, Failure>)
    ensures
        failure::outcome(r) == redirected(url@, text::text_of(*location)),
{
    match location {
        None => Err(image_hosts::blocked_failure("invalid image redirect")),
        Some(to) => {
            if text::utf8_length(to.as_str()) > MAX_URL_BYTES {
                return Err(image_hosts::blocked_failure("invalid image redirect"));
            }
            match address::join_text(url, to.as_str()) {
                Err(_) => Err(image_hosts::blocked_failure("invalid image redirect")),
                Ok(next) => match validate_url(next.as_str()) {
                    Err(e) => Err(e),
                    Ok(a) => Ok(AfterReply::Follow(a.text)),
                },
            }
        },
    }
}

/// What the head of a reply leads to, after so many redirections.
pub fn after_reply(url: &str, redirects: usize, reply: &ImageReply) -> (r: Result<
    AfterReply,
    Failure,
>)
    ensures
        failure::outcome(r) == next_step(url@, redirects as nat, reply@),
{
    if 300 <= reply.status && reply.status <= 399 {
        if redirects >= MAX_REDIRECTS {
            return Err(image_hosts::blocked_failure("image redirect limit exceeded"));
        }
        return follow_redirect(url, &reply.location);
    }
    if reply.status == 404 {
        return Err(Failure::new("NOT_FOUND: image source was not found"));
    }
    if reply.status < 200 || reply.status > 299 {
        return Err(image_hosts::blocked_failure("image source did not return an image"));
    }
    if let Some(n) = reply.content_length {
        if n > MAX_SOURCE_BYTES as u64 {
            return Err(too_large_failure("compressed image exceeds 4 MiB"));
        }
    }
    match &reply.content_type {
        Some(value) => match supported_mime(value.as_str()) {
            Some(kind) => Ok(AfterReply::Read(kind)),
            None => Err(changed_failure("unsupported image content type")),
        },
        None => Err(changed_failure("unsupported image content type")),
    }
}

/// A reply leads to another request only on the image host, and only while redirections are
/// left.
pub proof fn redirects_stay_on_the_image_host(url: Seq<char>, redirects: nat, reply: ImageReplyV)
    ensures
        next_step(url, redirects, reply) matches Ok(AfterReplyV::Follow(next)) ==> {
            &&& redirects < MAX_REDIRECTS
            &&& exists|raw: Seq<char>|
                #[trigger] image_url(raw) matches Ok(a) && allowed(a) && a.text == next
        },
{
    if let Ok(AfterReplyV::Follow(next)) = next_step(url, redirects, reply) {
        let raw = address::joined_text(url, reply.location->Some_0)->Ok_0;
        assert(image_url(raw) is Ok);
    }
}

/// Bytes with a chunk behind them, where they stay within a limit.
pub open spec fn appended(target: Seq<u8>, chunk: Seq<u8>, limit: nat) -> Option<Seq<u8>> {
    if target.len() + chunk.len() > limit {
        None
    } else {
        Some(target + chunk)
    }
}

fn append_within(target: &mut Vec<u8>, chunk: &[u8], limit: usize) -> (r: bool)
    ensures
        r == (appended(old(target)@, chunk@, limit as nat) is Some),
        final(target)@ == match appended(old(target)@, chunk@, limit as nat) {
            Some(v) => v,
            None => old(target)@,
        },
{
    if target.len() > limit || chunk.len() > limit - target.len() {
        return false;
    }
    target.extend_from_slice(chunk);
    assert(target@ =~= old(target)@ + chunk@);
    true
}

/// Adds a chunk of a download, whole or not at all.
pub fn append_bounded(target: &mut Vec<u8>, chunk: &[u8]) -> (r: Result<(), Failure>)
    ensures
        image_hosts::plain(r) == (if old(target)@.len() + chunk@.len() > MAX_SOURCE_BYTES {
            Err::<(), FailureV>(too_large("compressed image exceeds 4 MiB"@))
        } else {
            Ok(())
        }),
        final(target)@ == if r is Ok {
            old(target)@ + chunk@
        } else {
            old(target)@
        },
{
    if append_within(target, chunk, MAX_SOURCE_BYTES) {
        Ok(())
    } else {
        Err(too_large_failure("compressed image exceeds 4 MiB"))
    }
}

/// Adds a chunk of an answer of the secure resolver, whole or not at all.
pub fn append_doh(target: &mut Vec<u8>, chunk: &[u8]) -> (r: Result<(), Failure>)
    ensures
        image_hosts::plain(r) == (if old(target)@.len() + chunk@.len()
            > image_hosts::DOH_RESPONSE_BYTES {
            Err::<(), FailureV>(
                image_hosts::blocked("secure image DNS response exceeds size limit"@),
            )
        } else {
            Ok(())
        }),
        final(target)@ == if r is Ok {
            old(target)@ + chunk@
        } else {
            old(target)@
        },
{
    if append_within(target, chunk, image_hosts::DOH_RESPONSE_BYTES) {
        Ok(())
    } else {
        Err(image_hosts::blocked_failure("secure image DNS response exceeds size limit"))
    }
}

/// The format that the first bytes of an image show.
#[derive(Clone, Copy, Debug, PartialEq, Eq, Structural)]
pub enum Signature {
    Jpeg,
    Png,
    Webp,
    Other,
    Unknown,
}

/// A format that is taken.
#[derive(Clone, Copy, Debug, PartialEq, Eq, Structural)]
pub enum Format {
    Jpeg,
    Png,
    Webp,
}

/// What `image::guess_format` says of bytes.
pub uninterp spec fn guessed_format(source: Seq<u8>) -> Signature;

pub open spec fn begins(source: Seq<u8>, start: Seq<u8>) -> bool {
    source.len() >= start.len() && source.take(start.len() as int) == start
}

pub open spec fn begins_png(source: Seq<u8>) -> bool {
    begins(source, seq![0x89u8, 0x50, 0x4e, 0x47, 0x0d, 0x0a, 0x1a, 0x0a])
}

pub open spec fn begins_jpeg(source: Seq<u8>) -> bool {
    begins(source, seq![0xffu8, 0xd8, 0xff])
}

/// `RIFF`, four bytes of any value, `WEBP`.
pub open spec fn begins_webp(source: Seq<u8>) -> bool {
    &&& begins(source, seq![0x52u8, 0x49, 0x46, 0x46])
    &&& source.len() >= 12
    &&& source.subrange(8, 12) == seq![0x57u8, 0x45, 0x42, 0x50]
}

/// `image::guess_format`: a function of the bytes. It is one of the formats that are taken
/// exactly where the bytes begin as that format does.
#[verifier::external_body]
pub(crate) fn guess_format(source: &[u8]) -> (r: Signature)
    ensures
        r == guessed_format(source@),
        (r == Signature::Png) == begins_png(source@),
        (r == Signature::Jpeg) == begins_jpeg(source@),
        (r == Signature::Webp) == begins_webp(source@),
{
    match image::guess_format(source) {
        Ok(image::ImageFormat::Jpeg) => Signature::Jpeg,
        Ok(image::ImageFormat::Png) => Signature::Png,
        Ok(image::ImageFormat::WebP) => Signature::Webp,
        Ok(_) => Signature::Other,
        Err(_) => Signature::Unknown,
    }
}

/// The format type of `image`.
#[verifier::external_type_specification]
#[verifier::external_body]
pub struct ExImageFormat(image::ImageFormat);

/// A format as `image` names it, one variant for each.
#[verifier::external_body]
fn to_format(format: Format) -> ImageFormat {
    match format {
        Format::Jpeg => ImageFormat::Jpeg,
        Format::Png => ImageFormat::Png,
        Format::Webp => ImageFormat::WebP,
    }
}

/// The width and height that the head of an image gives, as `image` reads it.
pub uninterp spec fn dimensions_of(source: Seq<u8>, format: Format) -> Option<(u32, u32)>;

/// `into_dimensions` of `image::ImageReader`: a function of the bytes and the format. Nothing
/// where the bytes are no image of that format.
#[verifier::external_body]
pub(crate) fn read_dimensions(source: &[u8], format: Format) -> (r: Option<(u32, u32)>)
    ensures
        r == dimensions_of(source@, format),
{
    ImageReader::with_format(Cursor::new(source), to_format(format)).into_dimensions().ok()
}

pub open spec fn format_mime(format: Format) -> Seq<char> {
    match format {
        Format::Jpeg => "image/jpeg"@,
        Format::Png => "image/png"@,
        Format::Webp => "image/webp"@,
    }
}

pub fn mime_type(format: Format) -> (r: &'static str)
    ensures
        r@ == format_mime(format),
{
    match format {
        Format::Jpeg => "image/jpeg",
        Format::Png => "image/png",
        Format::Webp => "image/webp",
    }
}

/// Whether the size of an image is one that is decoded.
pub open spec fn sized(width: u32, height: u32) -> Result<(), FailureV> {
    if width == 0 || height == 0 || width * height > MAX_SOURCE_PIXELS {
        Err(too_large("decoded image exceeds 20 megapixels"@))
    } else {
        Ok(())
    }
}

pub fn validate_dimensions(width: u32, height: u32) -> (r: Result<(), Failure>)
    ensures
        image_hosts::plain(r) == sized(width, height),
{
    assert(width * height <= 0xffff_ffff * 0xffff_ffff) by (nonlinear_arith)
        requires
            0 <= width <= 0xffff_ffff,
            0 <= height <= 0xffff_ffff,
    ;
    if width == 0 || height == 0 || width as u64 * height as u64 > MAX_SOURCE_PIXELS {
        Err(too_large_failure("decoded image exceeds 20 megapixels"))
    } else {
        Ok(())
    }
}

/// The format of an image whose first bytes show `signature`, where it is the declared one.
pub open spec fn declared_format(signature: Signature, declared: Seq<char>) -> Result<
    Format,
    FailureV,
> {
    match signature {
        Signature::Unknown => Err(changed("image signature is invalid"@)),
        Signature::Other => Err(changed("unsupported raster image format"@)),
        _ => {
            let format = match signature {
                Signature::Jpeg => Format::Jpeg,
                Signature::Png => Format::Png,
                _ => Format::Webp,
            };
            if declared == format_mime(format) {
                Ok(format)
            } else {
                Err(changed("image content type does not match its bytes"@))
            }
        },
    }
}

pub fn check_format(signature: Signature, declared: &str) -> (r: Result<Format, Failure>)
    ensures
        image_hosts::plain(r) == declared_format(signature, declared@),
{
    let format: Format = match signature {
        Signature::Jpeg => Format::Jpeg,
        Signature::Png => Format::Png,
        Signature::Webp => Format::Webp,
        Signature::Other => {
            return Err(changed_failure("unsupported raster image format"));
        },
        Signature::Unknown => {
            return Err(changed_failure("image signature is invalid"));
        },
    };
    if text::same(declared, mime_type(format)) {
        Ok(format)
    } else {
        Err(changed_failure("image content type does not match its bytes"))
    }
}

/// Whether an image of these dimensions is decoded.
pub open spec fn measured(dimensions: Option<(u32, u32)>) -> Result<(), FailureV> {
    match dimensions {
        Some((width, height)) => sized(width, height),
        None => Err(changed("image dimensions are invalid"@)),
    }
}

pub fn check_dimensions(dimensions: Option<(u32, u32)>) -> (r: Result<(), Failure>)
    ensures
        image_hosts::plain(r) == measured(dimensions),
{
    match dimensions {
        Some((width, height)) => validate_dimensions(width, height),
        None => Err(changed_failure("image dimensions are invalid")),
    }
}

/// The format of an image that may be decoded: one that its first bytes show, that was
/// declared, and whose size is within the limit.
pub open spec fn inspected(source: Seq<u8>, declared: Seq<char>) -> Result<Format, FailureV> {
    match declared_format(guessed_format(source), declared) {
        Err(e) => Err(e),
        Ok(format) => match measured(dimensions_of(source, format)) {
            Err(e) => Err(e),
            Ok(_) => Ok(format),
        },
    }
}

/// The format of an image that may be decoded.
pub fn inspect_image(source: &[u8], declared: &str) -> (r: Result<Format, Failure>)
    ensures
        image_hosts::plain(r) == inspected(source@, declared@),
        r == Ok::<Format, Failure>(Format::Png) ==> begins_png(source@),
        r == Ok::<Format, Failure>(Format::Jpeg) ==> begins_jpeg(source@),
        r == Ok::<Format, Failure>(Format::Webp) ==> begins_webp(source@),
{
    let signature: Signature = guess_format(source);
    let format: Format = match check_format(signature, declared) {
        Ok(format) => format,
        Err(e) => {
            return Err(e);
        },
    };
    match check_dimensions(read_dimensions(source, format)) {
        Ok(_) => Ok(format),
        Err(e) => Err(e),
    }
}

/// Whether an image is scaled down before it is encoded.
pub fn exceeds_edge(width: u32, height: u32) -> (r: bool)
    ensures
        r == (width > MAX_OUTPUT_EDGE || height > MAX_OUTPUT_EDGE),
{
    width > MAX_OUTPUT_EDGE || height > MAX_OUTPUT_EDGE
}

/// What follows an encoding: it is taken, or the image is made smaller and encoded again.
#[derive(Clone, Copy, Debug, PartialEq, Eq, Structural)]
pub enum AfterEncoding {
    Done,
    Shrink,
}

/// What follows the `attempts`th encoding, of so many bytes.
pub open spec fn encoding_step(size: nat, width: u32, height: u32, attempts: nat) -> Result<
    AfterEncoding,
    FailureV,
> {
    if size <= MAX_OUTPUT_BYTES {
        Ok(AfterEncoding::Done)
    } else if (width == 1 && height == 1) || attempts >= MAX_ENCODE_ATTEMPTS {
        Err(too_large("image cannot fit the encoded payload limit"@))
    } else {
        Ok(AfterEncoding::Shrink)
    }
}

pub fn after_encoding(size: usize, width: u32, height: u32, attempts: usize) -> (r: Result<
    AfterEncoding,
    Failure,
>)
    ensures
        image_hosts::plain(r) == encoding_step(size as nat, width, height, attempts as nat),
{
    if size <= MAX_OUTPUT_BYTES {
        Ok(AfterEncoding::Done)
    } else if (width == 1 && height == 1) || attempts >= MAX_ENCODE_ATTEMPTS {
        Err(too_large_failure("image cannot fit the encoded payload limit"))
    } else {
        Ok(AfterEncoding::Shrink)
    }
}

/// `chrono::Utc::now`, written by `to_rfc3339_opts` with whole seconds: the present time, of
/// which nothing can be said.
#[verifier::external_body]
pub(crate) fn retrieval_time() -> String {
    chrono::Utc::now().to_rfc3339_opts(chrono::SecondsFormat::Secs, true)
}

/// The image that so encoded bytes make, fetched at `retrieved_at`.
pub open spec fn fetched(
    bytes: Seq<u8>,
    format: Format,
    width: u32,
    height: u32,
    retrieved_at: Seq<char>,
) -> FetchedImageV {
    FetchedImageV {
        data: digest::base64_text(bytes),
        mime_type: format_mime(format),
        width,
        height,
        sha256: digest::sha256_text(bytes),
        retrieved_at,
    }
}

/// The image that encoded bytes make, fetched now.
pub fn finish_image(bytes: &[u8], format: Format, width: u32, height: u32) -> (r: FetchedImage)
    requires
        bytes@.len() <= MAX_OUTPUT_BYTES,
    ensures
        r@ == fetched(bytes@, format, width, height, r.retrieved_at@),
        text::utf8_len(r.data@) == digest::base64_size(bytes@.len()),
        digest::is_digest(r.sha256@),
{
    FetchedImage {
        data: digest::base64_encode(bytes),
        mime_type: mime_type(format).to_owned(),
        width,
        height,
        sha256: digest::sha256_hex(bytes),
        retrieved_at: retrieval_time(),
    }
}

/// Why the pixels of an image could not be had.
#[derive(Clone, Copy, Debug, PartialEq, Eq, Structural)]
pub enum PixelFault {
    Limits,
    Decoding,
    Orientation,
    Encoding,
}

/// Why an image could not be fetched.
#[derive(Clone, Copy, Debug, PartialEq, Eq, Structural)]
pub enum FetchFault {
    Cancelled,
    Deadline,
    QueueFull,
    ProcessingUnavailable,
    ProcessingFailed,
    TransportUnavailable,
    SourceUnavailable,
    DownloadFailed,
    HostUnresolved,
    SecureTransportUnavailable,
}

/// What is said of pixels that could not be had.
pub open spec fn pixel_fault(fault: PixelFault) -> FailureV {
    match fault {
        PixelFault::Limits => too_large("image cannot be decoded within limits"@),
        PixelFault::Decoding => changed("image decode failed"@),
        PixelFault::Orientation => changed("image orientation is invalid"@),
        PixelFault::Encoding => changed("image encoding failed"@),
    }
}

pub fn pixel_failure(fault: PixelFault) -> (r: Failure)
    ensures
        r@ == pixel_fault(fault),
{
    match fault {
        PixelFault::Limits => too_large_failure("image cannot be decoded within limits"),
        PixelFault::Decoding => changed_failure("image decode failed"),
        PixelFault::Orientation => changed_failure("image orientation is invalid"),
        PixelFault::Encoding => changed_failure("image encoding failed"),
    }
}

pub fn fetch_failure(fault: FetchFault) -> (r: Failure)
    ensures
        r@ == match fault {
            FetchFault::Cancelled => FailureV::Message("CANCELLED: image fetch cancelled"@),
            FetchFault::Deadline => FailureV::Message(
                "UPSTREAM_TIMEOUT: image fetch exceeded its deadline"@,
            ),
            FetchFault::QueueFull => FailureV::Message(
                "SERVER_BUSY: image processing queue is full"@,
            ),
            FetchFault::ProcessingUnavailable => image_hosts::blocked(
                "image processing is unavailable"@,
            ),
            FetchFault::ProcessingFailed => changed("image processing failed"@),
            FetchFault::TransportUnavailable => image_hosts::blocked(
                "image transport is unavailable"@,
            ),
            FetchFault::SourceUnavailable => image_hosts::blocked("image source is unavailable"@),
            FetchFault::DownloadFailed => image_hosts::blocked("image download failed"@),
            FetchFault::HostUnresolved => image_hosts::blocked("image host could not be resolved"@),
            FetchFault::SecureTransportUnavailable => image_hosts::blocked(
                "secure DNS transport is unavailable"@,
            ),
        },
{
    match fault {
        FetchFault::Cancelled => Failure::new("CANCELLED: image fetch cancelled"),
        FetchFault::Deadline => Failure::new("UPSTREAM_TIMEOUT: image fetch exceeded its deadline"),
        FetchFault::QueueFull => Failure::new("SERVER_BUSY: image processing queue is full"),
        FetchFault::ProcessingUnavailable => image_hosts::blocked_failure(
            "image processing is unavailable",
        ),
        FetchFault::ProcessingFailed => changed_failure("image processing failed"),
        FetchFault::TransportUnavailable => image_hosts::blocked_failure(
            "image transport is unavailable",
        ),
        FetchFault::SourceUnavailable => image_hosts::blocked_failure(
            "image source is unavailable",
        ),
        FetchFault::DownloadFailed => image_hosts::blocked_failure("image download failed"),
        FetchFault::HostUnresolved => image_hosts::blocked_failure(
            "image host could not be resolved",
        ),
        FetchFault::SecureTransportUnavailable => image_hosts::blocked_failure(
            "secure DNS transport is unavailable",
        ),
    }
}

/// What a pixel is made of.
#[derive(Clone, Copy, Debug, PartialEq, Eq, Structural)]
pub enum Color {
    Luma,
    LumaAlpha,
    Rgb,
    Rgba,
}

/// The samples of a picture, row by row: of eight bits, or of sixteen.
#[derive(Debug)]
pub enum Pixels {
    Bytes(Vec<u8>),
    Words(Vec<u16>),
}

/// What [`Pixels`] hold.
pub enum PixelsV {
    Bytes(Seq<u8>),
    Words(Seq<u16>),
}

impl View for Pixels {
    type V = PixelsV;

    open spec fn view(&self) -> PixelsV {
        match self {
            Pixels::Bytes(v) => PixelsV::Bytes(v@),
            Pixels::Words(v) => PixelsV::Words(v@),
        }
    }
}

/// A decoded image.
#[derive(Debug)]
pub struct Picture {
    pub color: Color,
    pub width: u32,
    pub height: u32,
    pub pixels: Pixels,
}

/// What a [`Picture`] holds.
pub struct PictureV {
    pub color: Color,
    pub width: u32,
    pub height: u32,
    pub pixels: PixelsV,
}

impl View for Picture {
    type V = PictureV;

    open spec fn view(&self) -> PictureV {
        PictureV {
            color: self.color,
            width: self.width,
            height: self.height,
            pixels: self.pixels@,
        }
    }
}

/// How many samples make a pixel.
pub open spec fn channels(color: Color) -> int {
    match color {
        Color::Luma => 1,
        Color::LumaAlpha => 2,
        Color::Rgb => 3,
        Color::Rgba => 4,
    }
}

impl PixelsV {
    /// How many samples there are.
    pub open spec fn count(self) -> nat {
        match self {
            PixelsV::Bytes(v) => v.len(),
            PixelsV::Words(v) => v.len(),
        }
    }
}

impl PictureV {
    /// Whether a picture has a size that is decoded, and the samples of all its pixels.
    pub open spec fn is_whole(self) -> bool {
        &&& sized(self.width, self.height) is Ok
        &&& self.pixels.count() == self.width * self.height * channels(self.color)
    }

    /// Whether a picture is larger than an image that is handed out.
    pub open spec fn is_too_wide(self) -> bool {
        self.width > MAX_OUTPUT_EDGE || self.height > MAX_OUTPUT_EDGE
    }
}

/// What a decoding returned.
pub open spec fn picture_in(r: Result<Picture, PixelFault>) -> Result<PictureV, PixelFault> {
    match r {
        Ok(p) => Ok(p@),
        Err(fault) => Err(fault),
    }
}

/// What an encoding returned.
pub open spec fn bytes_in(r: Result<Vec<u8>, PixelFault>) -> Result<Seq<u8>, PixelFault> {
    match r {
        Ok(bytes) => Ok(bytes@),
        Err(fault) => Err(fault),
    }
}

/// The image type of `image`.
#[verifier::external_type_specification]
#[verifier::external_body]
pub struct ExDynamicImage(image::DynamicImage);

/// The picture that `image` holds, with the samples as they stand there. The decoders of the
/// formats that are taken give samples of eight or sixteen bits.
#[verifier::external_body]
fn from_image(image: &DynamicImage) -> Picture {
    let color = match image.color() {
        ColorType::L8 | ColorType::L16 => Color::Luma,
        ColorType::La8 | ColorType::La16 => Color::LumaAlpha,
        ColorType::Rgb8 | ColorType::Rgb16 | ColorType::Rgb32F => Color::Rgb,
        _ => Color::Rgba,
    };
    let pixels = match image.as_flat_samples_u16() {
        Some(words) => Pixels::Words(words.samples.to_vec()),
        None => Pixels::Bytes(image.as_bytes().to_vec()),
    };
    Picture { color, width: image.width(), height: image.height(), pixels }
}

/// Samples of eight bits as an image of `image`; none where they are too few.
#[verifier::external_body]
fn bytes_image(color: Color, width: u32, height: u32, samples: Vec<u8>) -> Option<DynamicImage> {
    match color {
        Color::Luma => ImageBuffer::from_raw(width, height, samples).map(DynamicImage::ImageLuma8),
        Color::LumaAlpha => ImageBuffer::from_raw(width, height, samples).map(
            DynamicImage::ImageLumaA8,
        ),
        Color::Rgb => ImageBuffer::from_raw(width, height, samples).map(DynamicImage::ImageRgb8),
        Color::Rgba => ImageBuffer::from_raw(width, height, samples).map(DynamicImage::ImageRgba8),
    }
}

/// Samples of sixteen bits as an image of `image`; none where they are too few.
#[verifier::external_body]
fn words_image(color: Color, width: u32, height: u32, samples: Vec<u16>) -> Option<DynamicImage> {
    match color {
        Color::Luma => ImageBuffer::from_raw(width, height, samples).map(DynamicImage::ImageLuma16),
        Color::LumaAlpha => ImageBuffer::from_raw(width, height, samples).map(
            DynamicImage::ImageLumaA16,
        ),
        Color::Rgb => ImageBuffer::from_raw(width, height, samples).map(DynamicImage::ImageRgb16),
        Color::Rgba => ImageBuffer::from_raw(width, height, samples).map(DynamicImage::ImageRgba16),
    }
}

/// The image that `image` holds for a picture, one variant for each kind; none where samples
/// are missing.
fn to_image(p: &Picture) -> Option<DynamicImage> {
    match &p.pixels {
        Pixels::Bytes(v) => bytes_image(p.color, p.width, p.height, v.clone()),
        Pixels::Words(v) => words_image(p.color, p.width, p.height, v.clone()),
    }
}

/// What `image` decodes bytes to, within a largest edge and a number of allocated bytes, and
/// turns as their orientation says.
pub uninterp spec fn decoded_picture(source: Seq<u8>, format: Format, edge: u32, alloc: u64) -> Result<
    PictureV,
    PixelFault,
>;

/// The colour, width and height of what `image` decodes bytes to, and whether its samples have
/// eight bits; or why it decodes them to nothing.
pub uninterp spec fn decoded_shape(source: Seq<u8>, format: Format, edge: u32, alloc: u64) -> Result<
    (Color, u32, u32, bool),
    PixelFault,
>;

/// What a decoding returned, but for the samples.
pub open spec fn shape_in(decoded: Result<PictureV, PixelFault>) -> Result<
    (Color, u32, u32, bool),
    PixelFault,
> {
    match decoded {
        Ok(p) => Ok((p.color, p.width, p.height, p.pixels is Bytes)),
        Err(fault) => Err(fault),
    }
}

/// Whether a picture has the size that the head of an image gives, upright or on its side.
pub open spec fn is_sized_as(p: PictureV, dimensions: Option<(u32, u32)>) -> bool {
    &&& p.is_whole()
    &&& dimensions == Some((p.width, p.height)) || dimensions == Some((p.height, p.width))
}

/// `into_decoder` of `image::ImageReader` with limits, `orientation` of the decoder, then
/// `from_decoder` and `apply_orientation` of `image::DynamicImage`. A picture has the size that
/// `into_dimensions` gives, or, where it is turned on its side, that size with width and height
/// exchanged, and all its samples. Its shape, or the fault where there is no picture, is a
/// function of the bytes and the limits. So are the samples of PNG and WebP, which are decoded
/// in integer arithmetic. That is not said of those of JPEG, which are filled in by functions
/// of which there are several, each for one kind of processor.
#[verifier::external_body]
pub(crate) fn decode_picture(source: &[u8], format: Format, edge: u32, alloc: u64) -> (r: Result<
    Picture,
    PixelFault,
>)
    requires
        measured(dimensions_of(source@, format)) is Ok,
    ensures
        shape_in(picture_in(r)) == decoded_shape(source@, format, edge, alloc),
        format != Format::Jpeg ==> picture_in(r) == decoded_picture(source@, format, edge, alloc),
        r matches Ok(p) ==> is_sized_as(p@, dimensions_of(source@, format)),
{
    let mut reader = ImageReader::with_format(Cursor::new(source), to_format(format));
    let mut limits = Limits::default();
    limits.max_image_width = Some(edge);
    limits.max_image_height = Some(edge);
    limits.max_alloc = Some(alloc);
    reader.limits(limits);
    let fault = |e: ImageError| match e {
        ImageError::Limits(_) => PixelFault::Limits,
        _ => PixelFault::Decoding,
    };
    let mut decoder = reader.into_decoder().map_err(fault)?;
    let orientation = decoder.orientation().map_err(|_| PixelFault::Orientation)?;
    let mut image = DynamicImage::from_decoder(decoder).map_err(fault)?;
    image.apply_orientation(orientation);
    Ok(from_image(&image))
}

/// Whether an edge of `x` is less than one away from `a * n / d`, what an edge of `a` becomes
/// where one of `d` becomes `n`.
pub open spec fn is_near(x: u32, a: u32, n: u32, d: u32) -> bool {
    -(d as int) < x * d - a * n < d as int
}

/// Whether a picture is another one made to fit a width and a height: of the same kind and the
/// same proportion, with one edge as long as it may be, and the same where it had that size.
pub open spec fn is_resized(r: PictureV, p: PictureV, width: u32, height: u32) -> bool {
    &&& r.is_whole()
    &&& r.color == p.color
    &&& (r.pixels is Bytes) == (p.pixels is Bytes)
    &&& r.width <= width
    &&& r.height <= height
    &&& (r.width == width && is_near(r.height, p.height, width, p.width)) || (r.height == height
        && is_near(r.width, p.width, height, p.height))
    &&& p.width == width && p.height == height ==> r == p
}

/// `resize` of `image::DynamicImage` with its Lanczos filter. The result fits the width and the
/// height and reaches one of them; the other edge is that of the same proportion, rounded, and
/// at least 1. It is the picture itself where that has this size. Its samples are left to the
/// crate: the filter rests on the sine of the machine.
#[verifier::external_body]
pub(crate) fn resize_picture(p: &Picture, width: u32, height: u32) -> (r: Picture)
    requires
        p@.is_whole(),
        0 < width <= MAX_OUTPUT_EDGE,
        0 < height <= MAX_OUTPUT_EDGE,
    ensures
        is_resized(r@, p@, width, height),
{
    from_image(&to_image(p).unwrap().resize(width, height, FilterType::Lanczos3))
}

/// Whether an encoder writes the samples of a picture as they are: those of JPEG have eight
/// bits and no alpha, those of WebP eight bits.
pub open spec fn is_written_directly(p: PictureV, format: Format) -> bool {
    match format {
        Format::Jpeg => p.pixels is Bytes && (p.color == Color::Luma || p.color == Color::Rgb),
        Format::Png => true,
        Format::Webp => p.pixels is Bytes,
    }
}

/// What an encoder of `image` writes of a picture; the quality is that of JPEG.
pub uninterp spec fn encoded_picture(p: PictureV, format: Format, quality: u8) -> Result<
    Seq<u8>,
    PixelFault,
>;

/// `write_with_encoder` of `image::DynamicImage` with `JpegEncoder` of a quality, `PngEncoder`
/// or the lossless `WebPEncoder`: a function of the picture, the format and the quality, where
/// the encoder takes the samples as they are. What it converts other samples to is left to the
/// crate.
#[verifier::external_body]
pub(crate) fn encode_picture(p: &Picture, format: Format, quality: u8) -> (r: Result<
    Vec<u8>,
    PixelFault,
>)
    requires
        p@.is_whole(),
    ensures
        is_written_directly(p@, format) ==> bytes_in(r) == encoded_picture(p@, format, quality),
        r matches Err(fault) ==> fault == PixelFault::Encoding,
{
    let image = to_image(p).unwrap();
    let mut out = Vec::new();
    let written = match format {
        Format::Jpeg => image.write_with_encoder(JpegEncoder::new_with_quality(&mut out, quality)),
        Format::Png => image.write_with_encoder(PngEncoder::new(&mut out)),
        Format::Webp => image.write_with_encoder(WebPEncoder::new_lossless(&mut out)),
    };
    written.map(|_| out).map_err(|_| PixelFault::Encoding)
}

/// What a decoding leads to: a picture that is too wide is made to fit, any other stays.
pub open spec fn is_fitted(
    decoded: Result<PictureV, PixelFault>,
    r: Result<PictureV, FailureV>,
) -> bool {
    match decoded {
        Err(fault) => r == Err::<PictureV, FailureV>(pixel_fault(fault)),
        Ok(p) => r matches Ok(q) && (if p.is_too_wide() {
            is_resized(q, p, MAX_OUTPUT_EDGE, MAX_OUTPUT_EDGE)
        } else {
            q == p
        }),
    }
}

/// What a fitted picture, or the failure to have one, is.
pub open spec fn fitted_in(r: Result<Picture, Failure>) -> Result<PictureV, FailureV> {
    match r {
        Ok(p) => Ok(p@),
        Err(e) => Err(e@),
    }
}

/// Makes a decoded picture fit, where it is too wide.
pub fn fit_picture(decoded: Result<Picture, PixelFault>) -> (r: Result<Picture, Failure>)
    requires
        decoded matches Ok(p) ==> p@.is_whole(),
    ensures
        is_fitted(picture_in(decoded), fitted_in(r)),
        r matches Ok(p) ==> p@.is_whole() && !p@.is_too_wide(),
{
    match decoded {
        Err(fault) => Err(pixel_failure(fault)),
        Ok(p) => if exceeds_edge(p.width, p.height) {
            Ok(resize_picture(&p, MAX_OUTPUT_EDGE, MAX_OUTPUT_EDGE))
        } else {
            Ok(p)
        },
    }
}

/// The longest edge that is decoded.
pub const MAX_SOURCE_EDGE: u32 = 20_000_000;

/// The quality of a JPEG that is handed out.
pub const JPEG_QUALITY: u8 = 82;

/// Whether this is what the bytes of an image are decoded to.
pub open spec fn is_decoded(
    source: Seq<u8>,
    format: Format,
    decoded: Result<PictureV, PixelFault>,
) -> bool {
    &&& shape_in(decoded) == decoded_shape(source, format, MAX_SOURCE_EDGE, MAX_DECODE_ALLOC)
    &&& format != Format::Jpeg ==> decoded == decoded_picture(
        source,
        format,
        MAX_SOURCE_EDGE,
        MAX_DECODE_ALLOC,
    )
    &&& decoded matches Ok(p) ==> is_sized_as(p, dimensions_of(source, format))
}

/// The format of an image, and the picture that its bytes decode to, made to fit where it is
/// too wide.
pub fn open_image(source: &[u8], declared: &str) -> (r: Result<(Format, Picture), Failure>)
    ensures
        match inspected(source@, declared@) {
            Err(e) => r matches Err(f) && f@ == e,
            Ok(format) => exists|decoded: Result<PictureV, PixelFault>| #[trigger]
                is_decoded(source@, format, decoded) && match r {
                    Ok(opened) => opened.0 == format && is_fitted(decoded, Ok(opened.1@)),
                    Err(f) => is_fitted(decoded, Err(f@)),
                },
        },
        r matches Ok(opened) ==> opened.1@.is_whole() && !opened.1@.is_too_wide(),
{
    let format: Format = match inspect_image(source, declared) {
        Ok(format) => format,
        Err(e) => return Err(e),
    };
    let decoded: Result<Picture, PixelFault> = decode_picture(
        source,
        format,
        MAX_SOURCE_EDGE,
        MAX_DECODE_ALLOC,
    );
    let ghost found = picture_in(decoded);
    assert(is_decoded(source@, format, found));
    match fit_picture(decoded) {
        Ok(p) => Ok((format, p)),
        Err(e) => Err(e),
    }
}

/// What an attempt to encode a picture leads to: an image, or the picture again with the
/// number of bytes that it took.
#[derive(Debug)]
pub enum Encoding {
    Done(FetchedImage),
    Again(Picture, usize),
}

/// What the `attempts`th attempt to encode a picture leads to.
pub open spec fn is_encoding(
    p: PictureV,
    format: Format,
    attempts: nat,
    encoded: Result<Seq<u8>, PixelFault>,
    r: Result<Encoding, Failure>,
) -> bool {
    match encoded {
        Err(fault) => r matches Err(f) && f@ == pixel_fault(fault),
        Ok(bytes) => match encoding_step(bytes.len(), p.width, p.height, attempts) {
            Err(e) => r matches Err(f) && f@ == e,
            Ok(AfterEncoding::Done) => {
                &&& r matches Ok(Encoding::Done(image))
                &&& image@ == fetched(bytes, format, p.width, p.height, image.retrieved_at@)
            },
            Ok(AfterEncoding::Shrink) => {
                &&& r matches Ok(Encoding::Again(picture, size))
                &&& picture@ == p
                &&& size == bytes.len()
            },
        },
    }
}

/// Takes what a picture was encoded to, or hands the picture back to be made smaller.
pub fn finish_encoding(
    p: Picture,
    format: Format,
    attempts: usize,
    encoded: Result<Vec<u8>, PixelFault>,
) -> (r: Result<Encoding, Failure>)
    ensures
        is_encoding(p@, format, attempts as nat, bytes_in(encoded), r),
        r matches Ok(Encoding::Done(image)) ==> {
            &&& image.width == p@.width
            &&& image.height == p@.height
            &&& text::utf8_len(image.data@) <= digest::base64_size(MAX_OUTPUT_BYTES as nat)
        },
{
    let bytes: Vec<u8> = match encoded {
        Ok(bytes) => bytes,
        Err(fault) => return Err(pixel_failure(fault)),
    };
    match after_encoding(bytes.len(), p.width, p.height, attempts) {
        Err(e) => Err(e),
        Ok(AfterEncoding::Done) => Ok(
            Encoding::Done(finish_image(bytes.as_slice(), format, p.width, p.height)),
        ),
        Ok(AfterEncoding::Shrink) => Ok(Encoding::Again(p, bytes.len())),
    }
}

/// Whether this is what a picture is encoded to.
pub open spec fn is_encoded(
    p: PictureV,
    format: Format,
    encoded: Result<Seq<u8>, PixelFault>,
) -> bool {
    &&& is_written_directly(p, format) ==> encoded == encoded_picture(p, format, JPEG_QUALITY)
    &&& encoded matches Err(fault) ==> fault == PixelFault::Encoding
}

/// Encodes a picture, for the `attempts`th time. An image that comes of it has the size of the
/// picture and is small enough to be handed out; a picture that is handed back is the same.
pub fn encode_image(p: Picture, format: Format, attempts: usize) -> (r: Result<Encoding, Failure>)
    requires
        p@.is_whole(),
        !p@.is_too_wide(),
    ensures
        exists|encoded: Result<Seq<u8>, PixelFault>| #[trigger]
            is_encoded(p@, format, encoded) && is_encoding(p@, format, attempts as nat, encoded, r),
        r matches Ok(Encoding::Done(image)) ==> {
            &&& 0 < image.width <= MAX_OUTPUT_EDGE
            &&& 0 < image.height <= MAX_OUTPUT_EDGE
            &&& text::utf8_len(image.data@) <= digest::base64_size(MAX_OUTPUT_BYTES as nat)
        },
        r matches Ok(Encoding::Again(picture, size)) ==> {
            &&& picture@ == p@
            &&& size > MAX_OUTPUT_BYTES
            &&& attempts < MAX_ENCODE_ATTEMPTS
            &&& picture.width > 1 || picture.height > 1
        },
{
    let encoded: Result<Vec<u8>, PixelFault> = encode_picture(&p, format, JPEG_QUALITY);
    let ghost found = bytes_in(encoded);
    assert(is_encoded(p@, format, found));
    finish_encoding(p, format, attempts, encoded)
}

/// Makes a picture smaller, to fit a width and a height.
pub fn shrink_image(p: Picture, width: u32, height: u32) -> (r: Picture)
    requires
        p@.is_whole(),
        0 < width <= MAX_OUTPUT_EDGE,
        0 < height <= MAX_OUTPUT_EDGE,
    ensures
        is_resized(r@, p@, width, height),
        !r@.is_too_wide(),
{
    resize_picture(&p, width, height)
}

} // verus!
