//! The limits on what the handwriting board accepts: the English source that
//! is drawn as its fixed background, and the number of ink points.
use vstd::prelude::*;
use crate::chars::chars_of;
use crate::text::{is_blank, trimmed};

verus! {

/// The longest source text the board draws, in characters.
pub const MAX_SOURCE_CHARS: usize = 2000;

/// The most ink points the board keeps over all strokes.
pub const MAX_INK_POINTS: usize = 30_000;

pub open spec fn source_message() -> Seq<char> {
    "注釈対象の英文を1〜2,000文字で入力してください。"@
}

pub open spec fn ink_limit_message() -> Seq<char> {
    "筆跡が上限を超えています。"@
}

/// A source text is drawn only if it is not blank, holds at most 2000
/// characters and no NUL character.
pub fn check_source_text(text: &str) -> (r: Result<(), String>)
    ensures
        r is Ok <==> (trimmed(text@).len() != 0 && text@.len() <= MAX_SOURCE_CHARS
            && !text@.contains('\0')),
        r matches Err(m) ==> m@ == source_message(),
{
    let cs = chars_of(text);
    let mut has_nul = false;
    let mut i: usize = 0;
    while i < cs.len()
        invariant
            i <= cs@.len(),
            cs@ == text@,
            has_nul == exists|j: int| 0 <= j < i && cs@[j] == '\0',
        decreases cs@.len() - i,
    {
        if cs[i] == '\0' {
            has_nul = true;
        }
        i = i + 1;
    }
    if is_blank(text) || cs.len() > MAX_SOURCE_CHARS || has_nul {
        return Err(String::from_str("注釈対象の英文を1〜2,000文字で入力してください。"));
    }
    Ok(())
}

/// The number of points over all strokes.
pub open spec fn ink_total(lengths: Seq<usize>) -> int
    decreases lengths.len(),
{
    if lengths.len() == 0 {
        0
    } else {
        ink_total(lengths.drop_last()) + lengths.last()
    }
}

/// Counts the points over all strokes, given the length of each stroke.
pub fn count_ink_points(lengths: &[usize]) -> (r: usize)
    requires
        ink_total(lengths@) <= usize::MAX,
    ensures
        r == ink_total(lengths@),
{
    let mut total: usize = 0;
    let mut i: usize = 0;
    while i < lengths.len()
        invariant
            i <= lengths@.len(),
            total == ink_total(lengths@.take(i as int)),
            ink_total(lengths@) <= usize::MAX,
        decreases lengths@.len() - i,
    {
        proof {
            assert(lengths@.take(i + 1).drop_last() == lengths@.take(i as int));
            lemma_ink_total_prefix(lengths@, i + 1);
        }
        total = total + lengths[i];
        i = i + 1;
    }
    assert(lengths@.take(lengths@.len() as int) == lengths@);
    total
}

proof fn lemma_ink_total_prefix(lengths: Seq<usize>, n: int)
    requires
        0 <= n <= lengths.len(),
    ensures
        ink_total(lengths.take(n)) <= ink_total(lengths),
    decreases lengths.len(),
{
    if n < lengths.len() {
        assert(lengths.drop_last().take(n) == lengths.take(n));
        lemma_ink_total_prefix(lengths.drop_last(), n);
    } else {
        assert(lengths.take(n) == lengths);
    }
}

/// While drawing, a new point is kept only while fewer than the limit are
/// held.
pub fn ink_accepts_point(total: usize) -> (r: bool)
    ensures
        r == (total < MAX_INK_POINTS),
{
    total < MAX_INK_POINTS
}

/// The ink is composed onto the background only within the limit.
pub fn check_ink_points(total: usize) -> (r: Result<(), String>)
    ensures
        r is Ok <==> total <= MAX_INK_POINTS,
        r matches Err(m) ==> m@ == ink_limit_message(),
{
    if total > MAX_INK_POINTS {
        return Err(String::from_str("筆跡が上限を超えています。"));
    }
    Ok(())
}

} // verus!
