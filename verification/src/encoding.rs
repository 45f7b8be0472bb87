//! Base64 data URLs for images and recordings sent to Codex.
use vstd::prelude::*;
use base64::Engine;

verus! {

/// The character of the standard Base64 alphabet for `i < 64`.
pub open spec fn b64_char(i: nat) -> char {
    if i < 26 {
        ((65 + i) as u32) as char
    } else if i < 52 {
        ((97 + i - 26) as u32) as char
    } else if i < 62 {
        ((48 + i - 52) as u32) as char
    } else if i == 62 {
        '+'
    } else {
        '/'
    }
}

/// Standard Base64 with padding (RFC 4648): each three bytes become four
/// characters, and a final one or two bytes are padded with `=`.
pub open spec fn base64_standard(b: Seq<u8>) -> Seq<char>
    decreases b.len(),
{
    if b.len() == 0 {
        Seq::empty()
    } else if b.len() == 1 {
        seq![b64_char(b[0] as nat / 4), b64_char((b[0] as nat % 4) * 16), '=', '=']
    } else if b.len() == 2 {
        seq![
            b64_char(b[0] as nat / 4),
            b64_char((b[0] as nat % 4) * 16 + b[1] as nat / 16),
            b64_char((b[1] as nat % 16) * 4),
            '=',
        ]
    } else {
        seq![
            b64_char(b[0] as nat / 4),
            b64_char((b[0] as nat % 4) * 16 + b[1] as nat / 16),
            b64_char((b[1] as nat % 16) * 4 + b[2] as nat / 64),
            b64_char(b[2] as nat % 64),
        ] + base64_standard(b.skip(3))
    }
}

/// `base64::engine::general_purpose::STANDARD.encode`: standard Base64 with
/// padding. The crate panics when the encoded length overflows `usize`,
/// which no input below half the address space reaches.
#[verifier::external_body]
fn encode_base64(bytes: &[u8]) -> (r: String)
    requires
        bytes@.len() < usize::MAX / 2,
    ensures
        r@ == base64_standard(bytes@),
{
    base64::engine::general_purpose::STANDARD.encode(bytes)
}

/// A `data:` URL carrying the bytes in Base64.
pub open spec fn spec_data_url(mime: Seq<char>, bytes: Seq<u8>) -> Seq<char> {
    "data:"@ + mime + ";base64,"@ + base64_standard(bytes)
}

/// The `data:` URL of the bytes with the given media type.
pub fn data_url(mime: &str, bytes: &[u8]) -> (r: String)
    requires
        bytes@.len() < usize::MAX / 2,
    ensures
        r@ == spec_data_url(mime@, bytes@),
{
    let mut url = String::from_str("data:");
    url.append(mime);
    url.append(";base64,");
    let encoded = encode_base64(bytes);
    url.append(encoded.as_str());
    url
}

pub open spec fn recording_too_large_message() -> Seq<char> {
    "録音が大きすぎます。30秒以内にしてください。"@
}

/// A recording is sent for transcription only up to 12 MB.
pub const MAX_RECORDING_BYTES: usize = 12_000_000;

/// The `data:` URL of a WAV recording for transcription, refused above
/// 12 MB.
pub fn recording_url(wav: &[u8]) -> (r: Result<String, String>)
    ensures
        match r {
            Ok(u) => wav@.len() <= MAX_RECORDING_BYTES && u@ == spec_data_url("audio/wav"@, wav@),
            Err(m) => wav@.len() > MAX_RECORDING_BYTES && m@ == recording_too_large_message(),
        },
{
    if wav.len() > MAX_RECORDING_BYTES {
        return Err(String::from_str("録音が大きすぎます。30秒以内にしてください。"));
    }
    Ok(data_url("audio/wav", wav))
}

/// The `data:` URL of a PNG image.
pub fn png_url(png: &[u8]) -> (r: String)
    requires
        png@.len() < usize::MAX / 2,
    ensures
        r@ == spec_data_url("image/png"@, png@),
{
    data_url("image/png", png)
}

} // verus!
