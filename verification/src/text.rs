//! Whitespace rules on text: trimming, splitting into words and compacting a
//! line for display.
use vstd::prelude::*;
use crate::chars::{chars_of, push_chars, string_of};

verus! {

/// The characters with the Unicode `White_Space` property.
pub open spec fn is_white(c: char) -> bool {
    let u = c as u32;
    ||| 0x09 <= u <= 0x0D
    ||| u == 0x20
    ||| u == 0x85
    ||| u == 0xA0
    ||| u == 0x1680
    ||| 0x2000 <= u <= 0x200A
    ||| u == 0x2028
    ||| u == 0x2029
    ||| u == 0x202F
    ||| u == 0x205F
    ||| u == 0x3000
}

/// Whether the character has the Unicode `White_Space` property, as
/// `char::is_whitespace` tells.
pub fn is_whitespace_char(c: char) -> (r: bool)
    ensures
        r == is_white(c),
{
    let u = c as u32;
    (0x09 <= u && u <= 0x0D) || u == 0x20 || u == 0x85 || u == 0xA0 || u == 0x1680 || (0x2000
        <= u && u <= 0x200A) || u == 0x2028 || u == 0x2029 || u == 0x202F || u == 0x205F || u
        == 0x3000
}

/// The text without its leading whitespace.
pub open spec fn trim_start(s: Seq<char>) -> Seq<char>
    decreases s.len(),
{
    if s.len() > 0 && is_white(s[0]) {
        trim_start(s.drop_first())
    } else {
        s
    }
}

/// The text without its trailing whitespace.
pub open spec fn trim_end(s: Seq<char>) -> Seq<char>
    decreases s.len(),
{
    if s.len() > 0 && is_white(s.last()) {
        trim_end(s.drop_last())
    } else {
        s
    }
}

/// The text without leading and trailing whitespace.
pub open spec fn trimmed(s: Seq<char>) -> Seq<char> {
    trim_end(trim_start(s))
}

/// The number of non-whitespace characters that begin the text.
pub open spec fn run_len(s: Seq<char>) -> nat
    decreases s.len(),
{
    if s.len() == 0 || is_white(s[0]) {
        0
    } else {
        1 + run_len(s.drop_first())
    }
}

/// The maximal runs of non-whitespace characters, in order.
pub open spec fn words(s: Seq<char>) -> Seq<Seq<char>>
    decreases s.len(),
{
    if s.len() == 0 {
        Seq::empty()
    } else if is_white(s[0]) {
        words(s.drop_first())
    } else {
        let n = run_len(s);
        proof {
            lemma_run_len_bounds(s);
        }
        seq![s.take(n as int)] + words(s.skip(n as int))
    }
}

/// The parts joined with one separator between neighbours.
pub open spec fn join(parts: Seq<Seq<char>>, sep: Seq<char>) -> Seq<char>
    decreases parts.len(),
{
    if parts.len() == 0 {
        Seq::empty()
    } else if parts.len() == 1 {
        parts[0]
    } else {
        join(parts.drop_last(), sep) + sep + parts.last()
    }
}

/// The words of the text separated by single spaces.
pub open spec fn collapsed(s: Seq<char>) -> Seq<char> {
    join(words(s), seq![' '])
}

/// The first run of non-whitespace characters lies within the text, is not
/// empty when the text starts with such a character, and ends at whitespace
/// or at the end of the text.
pub proof fn lemma_run_len_bounds(s: Seq<char>)
    ensures
        run_len(s) <= s.len(),
        s.len() > 0 && !is_white(s[0]) ==> run_len(s) > 0,
        forall|k: int| 0 <= k < run_len(s) ==> !is_white(#[trigger] s[k]),
        run_len(s) < s.len() ==> is_white(s[run_len(s) as int]),
    decreases s.len(),
{
    if s.len() > 0 && !is_white(s[0]) {
        lemma_run_len_bounds(s.drop_first());
        assert forall|k: int| 0 <= k < run_len(s) implies !is_white(#[trigger] s[k]) by {
            if k > 0 {
                assert(s[k] == s.drop_first()[k - 1]);
            }
        }
    }
}

proof fn lemma_run_len_skip(s: Seq<char>, i: int, j: int)
    requires
        0 <= i <= j <= s.len(),
        forall|k: int| i <= k < j ==> !is_white(#[trigger] s[k]),
        j == s.len() || is_white(s[j]),
    ensures
        run_len(s.skip(i)) == j - i,
    decreases j - i,
{
    if i < j {
        assert(s.skip(i).drop_first() == s.skip(i + 1));
        lemma_run_len_skip(s, i + 1, j);
    } else {
        if j < s.len() {
            assert(s.skip(i)[0] == s[j]);
        }
    }
}

proof fn lemma_words_skip_white(s: Seq<char>, i: int)
    requires
        0 <= i < s.len(),
        is_white(s[i]),
    ensures
        words(s.skip(i)) == words(s.skip(i + 1)),
{
    assert(s.skip(i).drop_first() == s.skip(i + 1));
    assert(s.skip(i)[0] == s[i]);
}

proof fn lemma_words_skip_run(s: Seq<char>, i: int, j: int)
    requires
        0 <= i < j <= s.len(),
        forall|k: int| i <= k < j ==> !is_white(#[trigger] s[k]),
        j == s.len() || is_white(s[j]),
    ensures
        words(s.skip(i)) == seq![s.subrange(i, j)] + words(s.skip(j)),
{
    lemma_run_len_skip(s, i, j);
    let t = s.skip(i);
    assert(t[0] == s[i]);
    assert(t.take(j - i) == s.subrange(i, j));
    assert(t.skip(j - i) == s.skip(j));
}

/// The words of a text: its maximal runs of non-whitespace characters.
pub fn split_words(s: &[char]) -> (r: Vec<Vec<char>>)
    ensures
        r@.len() == words(s@).len(),
        forall|k: int| 0 <= k < r@.len() ==> #[trigger] r@[k]@ == words(s@)[k],
{
    let mut out: Vec<Vec<char>> = Vec::new();
    let ghost mut acc: Seq<Seq<char>> = Seq::empty();
    let mut i: usize = 0;
    assert(s@.skip(0) == s@);
    while i < s.len()
        invariant
            i <= s@.len(),
            out@.len() == acc.len(),
            forall|k: int| 0 <= k < out@.len() ==> #[trigger] out@[k]@ == acc[k],
            words(s@) == acc + words(s@.skip(i as int)),
        decreases s@.len() - i,
    {
        if is_whitespace_char(s[i]) {
            proof {
                lemma_words_skip_white(s@, i as int);
            }
            i = i + 1;
        } else {
            let mut j = i;
            while j < s.len() && !is_whitespace_char(s[j])
                invariant
                    i <= j <= s@.len(),
                    forall|k: int| i <= k < j ==> !is_white(#[trigger] s@[k]),
                decreases s@.len() - j,
            {
                j = j + 1;
            }
            let mut w: Vec<char> = Vec::new();
            let mut k = i;
            while k < j
                invariant
                    i <= k <= j <= s@.len(),
                    w@ == s@.subrange(i as int, k as int),
                decreases j - k,
            {
                w.push(s[k]);
                k = k + 1;
            }
            proof {
                lemma_words_skip_run(s@, i as int, j as int);
                acc = acc.push(w@);
                assert(words(s@) == acc + words(s@.skip(j as int)));
            }
            out.push(w);
            i = j;
        }
    }
    proof {
        assert(s@.skip(i as int).len() == 0);
        assert(acc + Seq::<Seq<char>>::empty() == acc);
    }
    out
}

/// The words joined with single spaces.
fn join_spaced(parts: &Vec<Vec<char>>, expected: Ghost<Seq<Seq<char>>>) -> (r: String)
    requires
        parts@.len() == expected@.len(),
        forall|k: int| 0 <= k < parts@.len() ==> #[trigger] parts@[k]@ == expected@[k],
    ensures
        r@ == join(expected@, seq![' ']),
{
    let mut out = String::new();
    let mut k: usize = 0;
    while k < parts.len()
        invariant
            k <= parts@.len(),
            parts@.len() == expected@.len(),
            forall|m: int| 0 <= m < parts@.len() ==> #[trigger] parts@[m]@ == expected@[m],
            out@ == join(expected@.take(k as int), seq![' ']),
        decreases parts@.len() - k,
    {
        proof {
            let t = expected@.take(k as int + 1);
            assert(t.drop_last() == expected@.take(k as int));
            assert(t.last() == expected@[k as int]);
        }
        if k > 0 {
            out.push(' ');
        }
        let w = &parts[k];
        push_chars(&mut out, w.as_slice(), 0, w.len());
        assert(w@.subrange(0, w@.len() as int) == w@);
        k = k + 1;
    }
    assert(expected@.take(parts@.len() as int) =~= expected@);
    out
}

/// The text with every run of whitespace replaced by one space and no
/// whitespace at either end.
pub fn collapse_whitespace(text: &str) -> (r: String)
    ensures
        r@ == collapsed(text@),
{
    let cs = chars_of(text);
    let ws = split_words(cs.as_slice());
    join_spaced(&ws, Ghost(words(text@)))
}

/// A one-line summary of a text: whitespace collapsed, and cut to at most
/// `limit` characters, the last of them an ellipsis when it was cut.
pub open spec fn compacted(text: Seq<char>, limit: nat) -> Seq<char> {
    let n = collapsed(text);
    if n.len() <= limit {
        n
    } else {
        n.take(if limit == 0 { 0 } else { limit - 1 }).push('…')
    }
}

/// Collapses whitespace and shortens the text to `limit` characters.
pub fn compact_text(text: &str, limit: usize) -> (r: String)
    ensures
        r@ == compacted(text@, limit as nat),
{
    let normalized = collapse_whitespace(text);
    let cs = chars_of(normalized.as_str());
    if cs.len() <= limit {
        return normalized;
    }
    let keep = if limit == 0 { 0 } else { limit - 1 };
    let mut result = String::new();
    push_chars(&mut result, cs.as_slice(), 0, keep);
    result.push('…');
    result
}

/// The text without whitespace at either end.
pub fn trim(text: &str) -> (r: String)
    ensures
        r@ == trimmed(text@),
{
    let cs = chars_of(text);
    let mut i: usize = 0;
    assert(cs@.skip(0) =~= cs@);
    while i < cs.len() && is_whitespace_char(cs[i])
        invariant
            i <= cs@.len(),
            cs@ == text@,
            trim_start(text@) == trim_start(cs@.skip(i as int)),
        decreases cs@.len() - i,
    {
        assert(cs@.skip(i as int).drop_first() == cs@.skip(i as int + 1));
        i = i + 1;
    }
    assert(trim_start(cs@.skip(i as int)) == cs@.skip(i as int));
    let mut j: usize = cs.len();
    assert(cs@.skip(i as int) =~= cs@.subrange(i as int, cs@.len() as int));
    while j > i && is_whitespace_char(cs[j - 1])
        invariant
            i <= j <= cs@.len(),
            trim_end(cs@.skip(i as int)) == trim_end(cs@.subrange(i as int, j as int)),
        decreases j,
    {
        assert(cs@.subrange(i as int, j as int).drop_last() == cs@.subrange(i as int, j - 1));
        j = j - 1;
    }
    assert(cs@.skip(i as int) == cs@.subrange(i as int, cs@.len() as int));
    let mut out = String::new();
    push_chars(&mut out, cs.as_slice(), i, j);
    out
}

/// Whether the text holds nothing but whitespace.
pub fn is_blank(text: &str) -> (r: bool)
    ensures
        r == (trimmed(text@).len() == 0),
{
    let t = trim(text);
    t.as_str().is_empty()
}

/// A compacted line never exceeds a positive limit.
pub proof fn lemma_compacted_within_limit(text: Seq<char>, limit: nat)
    requires
        limit > 0,
    ensures
        compacted(text, limit).len() <= limit,
{
}

/// Whether no character of the text is whitespace.
pub open spec fn white_free(w: Seq<char>) -> bool {
    forall|j: int| 0 <= j < w.len() ==> !is_white(#[trigger] w[j])
}

/// Text in the form that collapsing whitespace produces: every whitespace
/// character is a single space between two non-whitespace characters.
pub open spec fn collapsed_form(s: Seq<char>) -> bool {
    forall|i: int|
        0 <= i < s.len() && is_white(#[trigger] s[i]) ==> s[i] == ' ' && 0 < i < s.len() - 1
            && !is_white(s[i - 1]) && !is_white(s[i + 1])
}

proof fn lemma_words_are_white_free(s: Seq<char>)
    ensures
        forall|k: int|
            0 <= k < words(s).len() ==> (#[trigger] words(s)[k]).len() > 0 && white_free(
                words(s)[k],
            ),
    decreases s.len(),
{
    if s.len() == 0 {
    } else if is_white(s[0]) {
        lemma_words_are_white_free(s.drop_first());
        assert(words(s) == words(s.drop_first()));
    } else {
        let n = run_len(s);
        lemma_run_len_bounds(s);
        lemma_words_are_white_free(s.skip(n as int));
        let ws = words(s);
        assert(ws == seq![s.take(n as int)] + words(s.skip(n as int)));
        assert forall|k: int| 0 <= k < ws.len() implies (#[trigger] ws[k]).len() > 0 && white_free(
            ws[k],
        ) by {
            if k > 0 {
                assert(ws[k] == words(s.skip(n as int))[k - 1]);
            } else {
                assert(ws[0] == s.take(n as int));
                assert forall|j: int| 0 <= j < ws[0].len() implies !is_white(#[trigger] ws[0][j]) by {
                    assert(ws[0][j] == s[j]);
                }
            }
        }
    }
}

proof fn lemma_join_form(ws: Seq<Seq<char>>)
    requires
        forall|k: int| 0 <= k < ws.len() ==> (#[trigger] ws[k]).len() > 0 && white_free(ws[k]),
    ensures
        collapsed_form(join(ws, seq![' '])),
        ws.len() > 0 ==> join(ws, seq![' ']).len() > 0 && !is_white(join(ws, seq![' '])[0])
            && !is_white(join(ws, seq![' ']).last()),
    decreases ws.len(),
{
    if ws.len() == 0 {
    } else if ws.len() == 1 {
        let w = ws[0];
        assert(white_free(w));
        assert(!is_white(w[0]));
        assert(!is_white(w[w.len() - 1]));
    } else {
        let init = ws.drop_last();
        let last = ws.last();
        assert(last == ws[ws.len() - 1]);
        assert(white_free(last));
        lemma_join_form(init);
        let a = join(init, seq![' ']);
        let j = join(ws, seq![' ']);
        assert(j == a + seq![' '] + last);
        assert(!is_white(last[0]));
        assert(!is_white(last[last.len() - 1]));
        assert(j[0] == a[0]);
        assert(j.last() == last[last.len() - 1]);
        assert forall|i: int| 0 <= i < j.len() && is_white(#[trigger] j[i]) implies j[i] == ' '
            && 0 < i < j.len() - 1 && !is_white(j[i - 1]) && !is_white(j[i + 1]) by {
            if i < a.len() {
                assert(j[i] == a[i]);
                assert(is_white(a[i]));
                assert(j[i - 1] == a[i - 1]);
                assert(j[i + 1] == a[i + 1]);
            } else if i == a.len() {
                assert(j[i - 1] == a[a.len() - 1]);
                assert(j[i + 1] == last[0]);
            } else {
                assert(j[i] == last[i - a.len() - 1]);
            }
        }
    }
}

proof fn lemma_join_cons(w: Seq<char>, ws: Seq<Seq<char>>, sep: Seq<char>)
    requires
        ws.len() > 0,
    ensures
        join(seq![w] + ws, sep) == w + sep + join(ws, sep),
    decreases ws.len(),
{
    let p = seq![w] + ws;
    if ws.len() == 1 {
        assert(p.drop_last() == seq![w]);
        assert(p.last() == ws[0]);
        assert(join(seq![w], sep) == w);
        assert(join(ws, sep) == ws[0]);
        assert(join(p, sep) == join(p.drop_last(), sep) + sep + p.last());
        assert(join(p, sep) =~= w + sep + join(ws, sep));
    } else {
        assert(p.drop_last() == seq![w] + ws.drop_last());
        lemma_join_cons(w, ws.drop_last(), sep);
        assert(p.last() == ws.last());
        assert(join(p, sep) =~= w + sep + join(ws, sep));
    }
}

proof fn lemma_form_collapses(s: Seq<char>)
    requires
        collapsed_form(s),
    ensures
        collapsed(s) == s,
    decreases s.len(),
{
    if s.len() == 0 {
        assert(words(s) == Seq::<Seq<char>>::empty());
    } else {
        assert(!is_white(s[0]));
        lemma_run_len_bounds(s);
        let r = run_len(s) as int;
        assert(s.skip(0) == s);
        if r == s.len() {
            lemma_words_skip_run(s, 0, r);
            assert(s.skip(r).len() == 0);
            assert(words(s.skip(r)) == Seq::<Seq<char>>::empty());
            assert(s.subrange(0, r) == s);
            assert(words(s) == seq![s]);
        } else {
            assert(is_white(s[r]));
            assert(s[r] == ' ' && r < s.len() - 1 && !is_white(s[r + 1]));
            lemma_words_skip_run(s, 0, r);
            lemma_words_skip_white(s, r);
            let rest = s.skip(r + 1);
            assert forall|i: int| 0 <= i < rest.len() && is_white(#[trigger] rest[i]) implies rest[i]
                == ' ' && 0 < i < rest.len() - 1 && !is_white(rest[i - 1]) && !is_white(rest[i + 1]) by {
                assert(rest[i] == s[r + 1 + i]);
                assert(rest[0] == s[r + 1]);
                if i > 0 {
                    assert(rest[i - 1] == s[r + i]);
                }
                if i + 1 < rest.len() {
                    assert(rest[i + 1] == s[r + 2 + i]);
                }
            }
            lemma_form_collapses(rest);
            assert(rest[0] == s[r + 1]);
            assert(words(rest) == seq![rest.take(run_len(rest) as int)] + words(rest.skip(
                run_len(rest) as int,
            )));
            assert(words(s) == seq![s.subrange(0, r)] + words(rest));
            lemma_join_cons(s.subrange(0, r), words(rest), seq![' ']);
            assert(collapsed(s) =~= s);
        }
    }
}

/// What collapsing whitespace produces is in collapsed form.
proof fn lemma_collapsed_is_form(t: Seq<char>)
    ensures
        collapsed_form(collapsed(t)),
{
    lemma_words_are_white_free(t);
    lemma_join_form(words(t));
}

/// Compacting is idempotent: a line already compacted to a limit is left as
/// it is when compacted to the same limit again.
pub proof fn lemma_compacted_idempotent(text: Seq<char>, limit: nat)
    ensures
        compacted(compacted(text, limit), limit) == compacted(text, limit),
{
    let n = collapsed(text);
    lemma_collapsed_is_form(text);
    if n.len() <= limit {
        lemma_form_collapses(n);
    } else {
        let k: int = if limit == 0 { 0 } else { limit - 1 };
        let m = n.take(k).push('…');
        assert(!is_white('…'));
        assert forall|i: int| 0 <= i < m.len() && is_white(#[trigger] m[i]) implies m[i] == ' ' && 0
            < i < m.len() - 1 && !is_white(m[i - 1]) && !is_white(m[i + 1]) by {
            if i < k {
                assert(m[i] == n[i]);
                assert(is_white(n[i]));
                assert(m[i - 1] == n[i - 1]);
                if i + 1 < k {
                    assert(m[i + 1] == n[i + 1]);
                } else {
                    assert(m[i + 1] == '…');
                }
            } else {
                assert(m[i] == '…');
            }
        }
        lemma_form_collapses(m);
        if limit == 0 {
            assert(m.take(0).push('…') =~= m);
        }
    }
}

} // verus!
