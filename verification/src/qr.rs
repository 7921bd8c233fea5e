//! The pairing code as an image.

use crate::codec::{base64_standard, encode_standard, MAX_ENCODABLE_BYTES};
use vstd::prelude::*;

verus! {

/// The error type of the `qrcode` crate.
#[verifier::external_type_specification]
#[verifier::external_body]
pub struct ExQrError(qrcode::types::QrError);

/// Why no image of a pairing code could be made.
#[derive(Clone, Copy, Debug, PartialEq, Eq, Structural)]
pub enum QrFailure {
    DataTooLong,
    InvalidVersion,
    UnsupportedCharacterSet,
    InvalidEciDesignator,
    InvalidCharacter,
    /// The image came out too large to be put into an address.
    ImageTooLarge,
}

/// The least width and height of the image, in pixels.
pub const QR_MIN_SIDE: u32 = 256;

/// The largest least side that an image may be asked for.
pub const MAX_QR_SIDE: u32 = 65_535;

/// The colour of the dark modules.
pub open spec fn qr_dark() -> Seq<char> {
    "#000000"@
}

/// The colour of the light modules.
pub open spec fn qr_light() -> Seq<char> {
    "#ffffff"@
}

/// The SVG text of the QR code of `data`, with sides of at least `min_side`
/// pixels and the given colours, or `None` where the data cannot be put
/// into a QR code.
pub uninterp spec fn qr_svg(
    data: Seq<char>,
    min_side: u32,
    dark: Seq<char>,
    light: Seq<char>,
) -> Option<Seq<char>>;

/// `qrcode::QrCode::new` on the bytes of `data`, rendered by the crate's
/// SVG renderer with `min_dimensions`, `dark_color` and `light_color` set.
/// The image, or the refusal, depends on the arguments alone. The renderer
/// computes the size of the image in 32 bits; the bound on `min_side`
/// keeps that from overflowing.
#[verifier::external_body]
pub(crate) fn render_qr_svg(data: &str, min_side: u32, dark: &str, light: &str) -> (svg: Result<
    String,
    qrcode::types::QrError,
>)
    requires
        min_side <= MAX_QR_SIDE,
    ensures
        match svg {
            Ok(image) => qr_svg(data@, min_side, dark@, light@) == Some(image@),
            Err(_) => qr_svg(data@, min_side, dark@, light@) is None,
        },
{
    let code = qrcode::QrCode::new(data.as_bytes())?;
    Ok(
        code.render::<qrcode::render::svg::Color>().min_dimensions(min_side, min_side).dark_color(
            qrcode::render::svg::Color(dark),
        ).light_color(qrcode::render::svg::Color(light)).build(),
    )
}

/// Tells the variants of `qrcode::types::QrError` apart.
#[verifier::external_body]
pub(crate) fn qr_failure_of(error: qrcode::types::QrError) -> (failure: QrFailure)
    ensures
        failure != QrFailure::ImageTooLarge,
{
    match error {
        qrcode::types::QrError::DataTooLong => QrFailure::DataTooLong,
        qrcode::types::QrError::InvalidVersion => QrFailure::InvalidVersion,
        qrcode::types::QrError::UnsupportedCharacterSet => QrFailure::UnsupportedCharacterSet,
        qrcode::types::QrError::InvalidEciDesignator => QrFailure::InvalidEciDesignator,
        qrcode::types::QrError::InvalidCharacter => QrFailure::InvalidCharacter,
    }
}

/// The words for a failure.
pub open spec fn qr_failure_text(failure: QrFailure) -> Seq<char> {
    match failure {
        QrFailure::DataTooLong => "data too long"@,
        QrFailure::InvalidVersion => "invalid version"@,
        QrFailure::UnsupportedCharacterSet => "unsupported character set"@,
        QrFailure::InvalidEciDesignator => "invalid ECI designator"@,
        QrFailure::InvalidCharacter => "invalid character"@,
        QrFailure::ImageTooLarge => "image too large"@,
    }
}

impl QrFailure {
    /// The words for the failure.
    pub fn message(&self) -> (words: &'static str)
        ensures
            words@ == qr_failure_text(*self),
    {
        match self {
            QrFailure::DataTooLong => "data too long",
            QrFailure::InvalidVersion => "invalid version",
            QrFailure::UnsupportedCharacterSet => "unsupported character set",
            QrFailure::InvalidEciDesignator => "invalid ECI designator",
            QrFailure::InvalidCharacter => "invalid character",
            QrFailure::ImageTooLarge => "image too large",
        }
    }
}

/// The `data:` address of an SVG image.
pub open spec fn svg_data_url_of(svg_bytes: Seq<u8>) -> Seq<char> {
    "data:image/svg+xml;base64,"@ + base64_standard(svg_bytes)
}

/// The `data:` address of an SVG image, given as bytes, that is small
/// enough to encode.
pub fn svg_data_url(svg: &[u8]) -> (url: String)
    requires
        svg@.len() <= MAX_ENCODABLE_BYTES,
    ensures
        url@ == svg_data_url_of(svg@),
{
    let encoded = encode_standard(svg);
    let mut url = "data:image/svg+xml;base64,".to_owned();
    url.append(encoded.as_str());
    url
}

/// The QR code of `data` as the `data:` address of an SVG image, black on
/// white and at least `QR_MIN_SIDE` pixels wide and high.
///
/// It fails where the data cannot be put into a QR code, and where the
/// image is longer than `MAX_ENCODABLE_BYTES`.
pub fn qr_to_svg_data_url(data: &str) -> (url: Result<String, QrFailure>)
    ensures
        ({
            let image = qr_svg(data@, QR_MIN_SIDE, qr_dark(), qr_light());
            match url {
                Ok(address) => {
                    &&& image is Some
                    &&& vstd::utf8::encode_utf8(image->0).len() <= MAX_ENCODABLE_BYTES
                    &&& address@ == svg_data_url_of(vstd::utf8::encode_utf8(image->0))
                },
                Err(failure) => {
                    ||| image is None && failure != QrFailure::ImageTooLarge
                    ||| image is Some && failure == QrFailure::ImageTooLarge
                        && vstd::utf8::encode_utf8(image->0).len() > MAX_ENCODABLE_BYTES
                },
            }
        }),
{
    match render_qr_svg(data, QR_MIN_SIDE, "#000000", "#ffffff") {
        Err(error) => Err(qr_failure_of(error)),
        Ok(svg) => {
            let bytes = svg.as_str().as_bytes();
            if bytes.len() <= MAX_ENCODABLE_BYTES {
                Ok(svg_data_url(bytes))
            } else {
                Err(QrFailure::ImageTooLarge)
            }
        },
    }
}

} // verus!
