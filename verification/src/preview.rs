//! Whether an attached file can be shown as text, and the text shown.
use vstd::prelude::*;
use vstd::utf8::{decode_utf8, valid_utf8};
use crate::chars::{chars_of, push_chars};

verus! {

/// At most this many characters of a file are shown.
pub const MAX_PREVIEW_CHARS: usize = 100_000;

/// Characters of the Unicode general category `Cc`.
pub open spec fn is_control_char(c: char) -> bool {
    let u = c as u32;
    u <= 0x1F || (0x7F <= u <= 0x9F)
}

/// Whether the character is of the general category `Cc`, as
/// `char::is_control` tells.
pub fn is_control_exec(c: char) -> (r: bool)
    ensures
        r == is_control_char(c),
{
    let u = c as u32;
    u <= 0x1F || (0x7F <= u && u <= 0x9F)
}

/// The text of a UTF-16 code unit sequence, `None` where a surrogate is
/// unpaired.
pub open spec fn utf16_decode(units: Seq<u16>) -> Option<Seq<char>>
    decreases units.len(),
{
    if units.len() == 0 {
        Some(Seq::empty())
    } else {
        let u = units[0];
        if u < 0xD800 || u > 0xDFFF {
            match utf16_decode(units.drop_first()) {
                Some(rest) => Some(seq![u as char] + rest),
                None => None,
            }
        } else if u <= 0xDBFF && units.len() >= 2 && 0xDC00 <= units[1] <= 0xDFFF {
            let c = 0x10000 + (u - 0xD800) * 0x400 + (units[1] - 0xDC00);
            match utf16_decode(units.skip(2)) {
                Some(rest) => Some(seq![c as char] + rest),
                None => None,
            }
        } else {
            None
        }
    }
}

/// `String::from_utf16`: the decoded text, or `None` for invalid UTF-16.
#[verifier::external_body]
fn text_from_utf16(units: &[u16]) -> (r: Option<String>)
    ensures
        match utf16_decode(units@) {
            Some(t) => r matches Some(s) && s@ == t,
            None => r is None,
        },
{
    String::from_utf16(units).ok()
}

/// `std::str::from_utf8`: the decoded text, or `None` for invalid UTF-8.
#[verifier::external_body]
fn text_from_utf8(bytes: &[u8]) -> (r: Option<String>)
    ensures
        r is Some <==> valid_utf8(bytes@),
        r matches Some(s) ==> s@ == decode_utf8(bytes@),
{
    std::str::from_utf8(bytes).ok().map(|s| s.to_owned())
}

/// The signatures of binary formats that are never shown as text: PDF, ZIP,
/// executables, GIF, PNG, JPEG, BMP and RIFF.
pub open spec fn binary_signatures() -> Seq<Seq<u8>> {
    seq![
        seq![0x25u8, 0x50, 0x44, 0x46, 0x2D],
        seq![0x50u8, 0x4B, 0x03, 0x04],
        seq![0x4Du8, 0x5A],
        seq![0x47u8, 0x49, 0x46, 0x38],
        seq![0x89u8, 0x50, 0x4E, 0x47, 0x0D, 0x0A, 0x1A, 0x0A],
        seq![0xFFu8, 0xD8, 0xFF],
        seq![0x42u8, 0x4D],
        seq![0x52u8, 0x49, 0x46, 0x46],
    ]
}

pub open spec fn is_binary(bytes: Seq<u8>) -> bool {
    exists|k: int| 0 <= k < binary_signatures().len() && #[trigger] binary_signatures()[k].is_prefix_of(
        bytes,
    )
}

/// Little-endian code units of a byte sequence of even length.
pub open spec fn le_units(raw: Seq<u8>) -> Seq<u16> {
    Seq::new((raw.len() / 2) as nat, |i: int| (raw[2 * i] + 256 * raw[2 * i + 1]) as u16)
}

/// Big-endian code units of a byte sequence of even length.
pub open spec fn be_units(raw: Seq<u8>) -> Seq<u16> {
    Seq::new((raw.len() / 2) as nat, |i: int| (256 * raw[2 * i] + raw[2 * i + 1]) as u16)
}

/// The text of a file: UTF-16 after a byte order mark (little- or
/// big-endian), otherwise UTF-8 with an optional byte order mark.
pub open spec fn decoded(bytes: Seq<u8>) -> Option<Seq<char>> {
    if seq![0xFFu8, 0xFE].is_prefix_of(bytes) {
        let raw = bytes.skip(2);
        if raw.len() % 2 != 0 {
            None
        } else {
            utf16_decode(le_units(raw))
        }
    } else if seq![0xFEu8, 0xFF].is_prefix_of(bytes) {
        let raw = bytes.skip(2);
        if raw.len() % 2 != 0 {
            None
        } else {
            utf16_decode(be_units(raw))
        }
    } else {
        let raw = if seq![0xEFu8, 0xBB, 0xBF].is_prefix_of(bytes) {
            bytes.skip(3)
        } else {
            bytes
        };
        if valid_utf8(raw) {
            Some(decode_utf8(raw))
        } else {
            None
        }
    }
}

/// Control characters other than newline, carriage return and tab mark a
/// binary file.
pub open spec fn has_stray_control(t: Seq<char>) -> bool {
    exists|k: int|
        0 <= k < t.len() && is_control_char(#[trigger] t[k]) && t[k] != '\n' && t[k] != '\r'
            && t[k] != '\t'
}

/// The preview of a file: its first characters and whether there were more,
/// or `None` where the file is binary or not text.
pub open spec fn spec_text_preview(bytes: Seq<u8>) -> Option<(Seq<char>, bool)> {
    if is_binary(bytes) {
        None
    } else {
        match decoded(bytes) {
            None => None,
            Some(t) => if has_stray_control(t) {
                None
            } else {
                Some((t.take(min_len(t.len(), MAX_PREVIEW_CHARS as nat)), t.len() > MAX_PREVIEW_CHARS))
            },
        }
    }
}

pub open spec fn min_len(a: nat, b: nat) -> int {
    if a <= b { a as int } else { b as int }
}

fn starts(bytes: &[u8], prefix: &[u8]) -> (r: bool)
    ensures
        r == prefix@.is_prefix_of(bytes@),
{
    if prefix.len() > bytes.len() {
        return false;
    }
    let mut i: usize = 0;
    while i < prefix.len()
        invariant
            prefix@.len() <= bytes@.len(),
            i <= prefix@.len(),
            forall|j: int| 0 <= j < i ==> bytes@[j] == prefix@[j],
        decreases prefix@.len() - i,
    {
        if bytes[i] != prefix[i] {
            return false;
        }
        i = i + 1;
    }
    assert(prefix@ =~= bytes@.take(prefix@.len() as int));
    true
}

fn binary(bytes: &[u8]) -> (r: bool)
    ensures
        r == is_binary(bytes@),
{
    let ghost sigs = binary_signatures();
    let r = starts(bytes, &[0x25u8, 0x50, 0x44, 0x46, 0x2D]) || starts(bytes, &[0x50u8, 0x4B, 0x03, 0x04])
        || starts(bytes, &[0x4Du8, 0x5A]) || starts(bytes, &[0x47u8, 0x49, 0x46, 0x38]) || starts(
        bytes,
        &[0x89u8, 0x50, 0x4E, 0x47, 0x0D, 0x0A, 0x1A, 0x0A],
    ) || starts(bytes, &[0xFFu8, 0xD8, 0xFF]) || starts(bytes, &[0x42u8, 0x4D]) || starts(
        bytes,
        &[0x52u8, 0x49, 0x46, 0x46],
    );
    proof {
        if r {
            assert(sigs[0].is_prefix_of(bytes@) || sigs[1].is_prefix_of(bytes@) || sigs[2].is_prefix_of(bytes@)
                || sigs[3].is_prefix_of(bytes@) || sigs[4].is_prefix_of(bytes@) || sigs[5].is_prefix_of(
                bytes@,
            ) || sigs[6].is_prefix_of(bytes@) || sigs[7].is_prefix_of(bytes@));
        } else {
            assert forall|k: int| 0 <= k < sigs.len() implies !(#[trigger] sigs[k]).is_prefix_of(
                bytes@,
            ) by {
                assert(k == 0 || k == 1 || k == 2 || k == 3 || k == 4 || k == 5 || k == 6 || k == 7);
            }
        }
    }
    r
}

fn units(raw: &[u8], little: bool) -> (r: Vec<u16>)
    requires
        raw@.len() % 2 == 0,
    ensures
        r@ == if little { le_units(raw@) } else { be_units(raw@) },
{
    let mut out: Vec<u16> = Vec::new();
    let mut i: usize = 0;
    while i + 1 < raw.len()
        invariant
            raw@.len() % 2 == 0,
            i % 2 == 0,
            i <= raw@.len(),
            out@.len() == i / 2,
            forall|k: int|
                0 <= k < out@.len() ==> #[trigger] out@[k] == (if little {
                    (raw@[2 * k] + 256 * raw@[2 * k + 1]) as u16
                } else {
                    (256 * raw@[2 * k] + raw@[2 * k + 1]) as u16
                }),
        decreases raw@.len() - i,
    {
        let a = raw[i] as u16;
        let b = raw[i + 1] as u16;
        let u = if little { a + b * 256 } else { a * 256 + b };
        out.push(u);
        i = i + 2;
    }
    let ghost expected = if little { le_units(raw@) } else { be_units(raw@) };
    assert(out@ =~= expected);
    out
}

/// Shows a file as text when it is UTF-8 or UTF-16 text: its first
/// characters, and whether the file holds more than those.
pub fn text_preview(bytes: &[u8]) -> (r: Option<(String, bool)>)
    ensures
        match spec_text_preview(bytes@) {
            None => r is None,
            Some((t, more)) => r matches Some((s, m)) && s@ == t && m == more,
        },
{
    if binary(bytes) {
        return None;
    }
    let text = if starts(bytes, &[0xFFu8, 0xFE]) || starts(bytes, &[0xFEu8, 0xFF]) {
        let little = starts(bytes, &[0xFFu8, 0xFE]);
        let raw = slice_from(bytes, 2);
        if raw.len() % 2 != 0 {
            return None;
        }
        let us = units(raw, little);
        match text_from_utf16(us.as_slice()) {
            Some(t) => t,
            None => return None,
        }
    } else {
        let raw = if starts(bytes, &[0xEFu8, 0xBB, 0xBF]) {
            slice_from(bytes, 3)
        } else {
            bytes
        };
        match text_from_utf8(raw) {
            Some(t) => t,
            None => return None,
        }
    };
    let ghost t = decoded(bytes@)->0;
    assert(decoded(bytes@) == Some(text@));
    assert(text@ == t);
    assert(!is_binary(bytes@));
    let cs = chars_of(text.as_str());
    let mut i: usize = 0;
    while i < cs.len()
        invariant
            i <= cs@.len(),
            cs@ == t,
            decoded(bytes@) == Some(t),
            !is_binary(bytes@),
            forall|k: int|
                0 <= k < i ==> !(is_control_char(#[trigger] cs@[k]) && cs@[k] != '\n' && cs@[k]
                    != '\r' && cs@[k] != '\t'),
        decreases cs@.len() - i,
    {
        let c = cs[i];
        if is_control_exec(c) && c != '\n' && c != '\r' && c != '\t' {
            assert(has_stray_control(t)) by {
                assert(t[i as int] == c);
            }
            assert(spec_text_preview(bytes@) is None);
            return None;
        }
        i = i + 1;
    }
    let n = if cs.len() <= MAX_PREVIEW_CHARS { cs.len() } else { MAX_PREVIEW_CHARS };
    let mut preview = String::new();
    push_chars(&mut preview, cs.as_slice(), 0, n);
    assert(cs@.subrange(0, n as int) == t.take(n as int));
    Some((preview, cs.len() > MAX_PREVIEW_CHARS))
}

/// The bytes after the first `n`.
fn slice_from(bytes: &[u8], n: usize) -> (r: &[u8])
    requires
        n <= bytes@.len(),
    ensures
        r@ == bytes@.skip(n as int),
{
    let (_, rest) = bytes.split_at(n);
    rest
}

} // verus!
