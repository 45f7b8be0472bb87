//! Images in formats other than PNG are kept as they are and shown, and
//! sent, as a bounded PNG of their first frame.
use vstd::prelude::*;
use crate::attachments::AssetKind;

verus! {

/// An image is shown only up to this many pixels.
pub const MAX_PIXELS: u64 = 4_000_000;

/// What `image::ImageReader::with_format(..).into_dimensions()` returns for
/// the bytes read as the given format: width and height, or the error text.
pub uninterp spec fn image_dimensions(kind: AssetKind, bytes: Seq<u8>) -> Result<(u32, u32), Seq<char>>;

/// What `image::load_from_memory_with_format` reports for the bytes read as
/// the given format: `None` when they decode, otherwise the error text.
pub uninterp spec fn decode_error(kind: AssetKind, bytes: Seq<u8>) -> Option<Seq<char>>;

/// `image::ImageReader::with_format(..).into_dimensions()`: the size stated
/// in the image header, read as BMP, GIF or JPEG.
#[verifier::external_body]
fn read_dimensions(kind: AssetKind, bytes: &[u8]) -> (r: Result<(u32, u32), String>)
    requires
        kind == AssetKind::ImageBmp || kind == AssetKind::ImageGif || kind == AssetKind::ImageJpeg,
    ensures
        match image_dimensions(kind, bytes@) {
            Ok(d) => r == Ok::<(u32, u32), String>(d),
            Err(e) => r matches Err(m) && m@ == e,
        },
{
    let format = match kind {
        AssetKind::ImageBmp => image::ImageFormat::Bmp,
        AssetKind::ImageGif => image::ImageFormat::Gif,
        _ => image::ImageFormat::Jpeg,
    };
    image::ImageReader::with_format(std::io::Cursor::new(bytes), format).into_dimensions().map_err(
        |e| e.to_string(),
    )
}

/// What writing as PNG (`DynamicImage::write_to` with `ImageFormat::Png`)
/// gives for the image that `image::load_from_memory_with_format` decodes
/// from the bytes read as the given format: the PNG bytes, or the error text.
pub uninterp spec fn encoded_png(kind: AssetKind, bytes: Seq<u8>) -> Result<Seq<u8>, Seq<char>>;

/// Why converting an image to PNG failed, with the error text of the step
/// that failed.
#[derive(Debug)]
pub enum DisplayError {
    /// The bytes could not be decoded as the given format.
    Decode(String),
    /// The decoded image could not be written as PNG.
    Encode(String),
}

/// `image::load_from_memory_with_format` (read as BMP, GIF or JPEG; for a
/// GIF its first frame), then `DynamicImage::write_to` with
/// `ImageFormat::Png` into memory: the PNG bytes, or the error text of the
/// step that failed.
#[verifier::external_body]
fn png_from(kind: AssetKind, bytes: &[u8]) -> (r: Result<Vec<u8>, DisplayError>)
    requires
        kind == AssetKind::ImageBmp || kind == AssetKind::ImageGif || kind == AssetKind::ImageJpeg,
    ensures
        match decode_error(kind, bytes@) {
            Some(e) => r matches Err(DisplayError::Decode(m)) && m@ == e,
            None => match encoded_png(kind, bytes@) {
                Ok(p) => r matches Ok(v) && v@ == p,
                Err(t) => r matches Err(DisplayError::Encode(m)) && m@ == t,
            },
        },
{
    let format = match kind {
        AssetKind::ImageBmp => image::ImageFormat::Bmp,
        AssetKind::ImageGif => image::ImageFormat::Gif,
        _ => image::ImageFormat::Jpeg,
    };
    let img = image::load_from_memory_with_format(bytes, format).map_err(|e| DisplayError::Decode(e.to_string()))?;
    let mut png = std::io::Cursor::new(Vec::new());
    img.write_to(&mut png, image::ImageFormat::Png).map_err(|e| DisplayError::Encode(e.to_string()))?;
    Ok(png.into_inner())
}

/// The message for the outcome of a conversion to PNG.
pub open spec fn spec_display_outcome(converted: Result<Seq<u8>, DisplayErrorView>) -> Result<Seq<u8>, Seq<char>> {
    match converted {
        Ok(p) => Ok(p),
        Err(DisplayErrorView::Decode(e)) => Err("画像を読み取れません："@ + e),
        Err(DisplayErrorView::Encode(e)) => Err("表示用画像を作れません："@ + e),
    }
}

/// A conversion error as text.
pub enum DisplayErrorView {
    Decode(Seq<char>),
    Encode(Seq<char>),
}

pub open spec fn converted_view(c: Result<Vec<u8>, DisplayError>) -> Result<Seq<u8>, DisplayErrorView> {
    match c {
        Ok(v) => Ok(v@),
        Err(DisplayError::Decode(e)) => Err(DisplayErrorView::Decode(e@)),
        Err(DisplayError::Encode(e)) => Err(DisplayErrorView::Encode(e@)),
    }
}

/// The PNG of a converted image, or the message for the step that failed.
pub fn display_outcome(converted: Result<Vec<u8>, DisplayError>) -> (r: Result<Vec<u8>, String>)
    ensures
        match spec_display_outcome(converted_view(converted)) {
            Ok(p) => r matches Ok(v) && v@ == p,
            Err(m) => r matches Err(e) && e@ == m,
        },
{
    match converted {
        Ok(png) => Ok(png),
        Err(DisplayError::Decode(e)) => {
            let mut m = String::from_str("画像を読み取れません：");
            m.append(e.as_str());
            Err(m)
        },
        Err(DisplayError::Encode(e)) => {
            let mut m = String::from_str("表示用画像を作れません：");
            m.append(e.as_str());
            Err(m)
        },
    }
}

pub open spec fn unsupported_message() -> Seq<char> {
    "表示用画像に変換できない形式です。"@
}

pub open spec fn too_large_message() -> Seq<char> {
    "画像の寸法が上限を超えています（最大400万画素）。"@
}

/// Why an image cannot be shown as PNG, if it cannot: an unsupported
/// format, an unreadable header, a size of zero or above four million
/// pixels, or undecodable data. `None` means the image is converted, and
/// only writing the PNG can still fail.
pub open spec fn display_refusal(kind: AssetKind, bytes: Seq<u8>) -> Option<Seq<char>> {
    if !(kind == AssetKind::ImageBmp || kind == AssetKind::ImageGif || kind == AssetKind::ImageJpeg) {
        Some(unsupported_message())
    } else {
        match image_dimensions(kind, bytes) {
            Err(e) => Some("画像の寸法を読めません："@ + e),
            Ok((w, h)) => if w == 0 || h == 0 || w * h > MAX_PIXELS {
                Some(too_large_message())
            } else {
                match decode_error(kind, bytes) {
                    Some(e) => Some("画像を読み取れません："@ + e),
                    None => None,
                }
            },
        }
    }
}

/// The outcome of reading an image's size: the size when it is known and
/// holds between one and four million pixels, otherwise the reason.
pub open spec fn spec_checked_dimensions(dims: Result<(u32, u32), Seq<char>>) -> Result<(u32, u32), Seq<char>> {
    match dims {
        Err(e) => Err("画像の寸法を読めません："@ + e),
        Ok((w, h)) => if w == 0 || h == 0 || w * h > MAX_PIXELS {
            Err(too_large_message())
        } else {
            Ok((w, h))
        },
    }
}

/// Checks the size read from an image header.
pub fn check_dimensions(dims: Result<(u32, u32), String>) -> (r: Result<(u32, u32), String>)
    ensures
        match spec_checked_dimensions(
            match dims {
                Ok(d) => Ok(d),
                Err(e) => Err(e@),
            },
        ) {
            Ok(d) => r == Ok::<(u32, u32), String>(d),
            Err(m) => r matches Err(e) && e@ == m,
        },
{
    let (width, height) = match dims {
        Ok(d) => d,
        Err(e) => {
            let mut m = String::from_str("画像の寸法を読めません：");
            m.append(e.as_str());
            return Err(m);
        },
    };
    let w = width as u64;
    let h = height as u64;
    assert(w * h <= u32::MAX as u64 * u32::MAX as u64) by (nonlinear_arith)
        requires
            w <= u32::MAX,
            h <= u32::MAX,
    ;
    if width == 0 || height == 0 || w * h > MAX_PIXELS {
        return Err(String::from_str("画像の寸法が上限を超えています（最大400万画素）。"));
    }
    Ok((width, height))
}

/// The PNG shown, and sent, for a BMP, GIF or JPEG attachment: the PNG
/// written from the decoded image (for a GIF its first frame), or the reason
/// it cannot be shown.
pub fn image_display_png(kind: AssetKind, bytes: &[u8]) -> (r: Result<Vec<u8>, String>)
    ensures
        match display_refusal(kind, bytes@) {
            Some(m) => r matches Err(e) && e@ == m,
            None => match encoded_png(kind, bytes@) {
                Ok(p) => r matches Ok(v) && v@ == p,
                Err(t) => r matches Err(e) && e@ == "表示用画像を作れません："@ + t,
            },
        },
{
    if !(kind == AssetKind::ImageBmp || kind == AssetKind::ImageGif || kind == AssetKind::ImageJpeg) {
        return Err(String::from_str("表示用画像に変換できない形式です。"));
    }
    match check_dimensions(read_dimensions(kind, bytes)) {
        Ok(_) => {},
        Err(m) => return Err(m),
    }
    display_outcome(png_from(kind, bytes))
}

} // verus!
