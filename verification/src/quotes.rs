//! Marking the quoted evidence inside a transcript line: every occurrence of
//! a quote is highlighted, and the line is cut into runs of highlighted and
//! plain characters.
use vstd::prelude::*;
use crate::chars::chars_of;

verus! {

/// Whether `q` occurs in `t` starting at position `i`.
pub open spec fn occurs_at(t: Seq<char>, q: Seq<char>, i: int) -> bool {
    0 <= i && i + q.len() <= t.len() && t.subrange(i, i + q.len()) == q
}

/// Whether position `j` lies inside one of the occurrences of `q` that a
/// left-to-right scan from `from` finds, an occurrence never overlapping the
/// one before it. An empty quote covers nothing.
pub open spec fn covered_from(t: Seq<char>, q: Seq<char>, from: int, j: int) -> bool
    decreases t.len() - from,
{
    if q.len() == 0 || from < 0 || from + q.len() > t.len() {
        false
    } else if occurs_at(t, q, from) {
        (from <= j < from + q.len()) || covered_from(t, q, from + q.len(), j)
    } else {
        covered_from(t, q, from + 1, j)
    }
}

/// Whether position `j` of `t` is inside an occurrence of one of the quotes.
pub open spec fn marked(t: Seq<char>, quotes: Seq<Seq<char>>, j: int) -> bool {
    exists|k: int| 0 <= k < quotes.len() && covered_from(t, #[trigger] quotes[k], 0, j)
}

/// The maximal runs of characters that share one flag, each with the flag.
pub open spec fn runs(t: Seq<char>, m: Seq<bool>) -> Seq<(Seq<char>, bool)>
    decreases t.len(),
{
    if t.len() == 0 || m.len() < t.len() {
        Seq::empty()
    } else {
        let n = (t.len() - 1) as int;
        let rest = runs(t.take(n), m.take(n));
        if rest.len() > 0 && rest.last().1 == m[n] {
            rest.update(rest.len() - 1, (rest.last().0.push(t[n]), m[n]))
        } else {
            rest.push((seq![t[n]], m[n]))
        }
    }
}

/// The runs of `text` in which each character is flagged by whether a quote
/// covers it.
pub open spec fn quote_runs(text: Seq<char>, quotes: Seq<Seq<char>>) -> Seq<(Seq<char>, bool)> {
    runs(text, Seq::new(text.len(), |j: int| marked(text, quotes, j)))
}

/// The views of the runs handed back.
pub open spec fn spans_view(r: Seq<(String, bool)>) -> Seq<(Seq<char>, bool)> {
    r.map_values(|g: (String, bool)| (g.0@, g.1))
}

/// The texts of the runs, one after another.
pub open spec fn joined(r: Seq<(Seq<char>, bool)>) -> Seq<char>
    decreases r.len(),
{
    if r.len() == 0 {
        Seq::empty()
    } else {
        joined(r.drop_last()) + r.last().0
    }
}

/// Cutting a text into flagged runs loses and adds nothing: the runs read
/// back as the text, none is empty, and neighbouring runs differ in flag.
pub proof fn lemma_runs_rebuild_text(t: Seq<char>, m: Seq<bool>)
    requires
        t.len() <= m.len(),
    ensures
        joined(runs(t, m)) == t,
        forall|k: int| 0 <= k < runs(t, m).len() ==> #[trigger] runs(t, m)[k].0.len() > 0,
        forall|k: int| 0 < k < runs(t, m).len() ==> #[trigger] runs(t, m)[k].1 != runs(t, m)[k - 1].1,
        t.len() > 0 ==> runs(t, m).last().1 == m[t.len() - 1],
    decreases t.len(),
{
    if t.len() > 0 {
        let n = (t.len() - 1) as int;
        lemma_runs_rebuild_text(t.take(n), m.take(n));
        let rest = runs(t.take(n), m.take(n));
        let r = runs(t, m);
        if rest.len() > 0 && rest.last().1 == m[n] {
            assert(r.drop_last() =~= rest.drop_last());
            assert(joined(rest) == joined(rest.drop_last()) + rest.last().0);
            assert(t =~= t.take(n).push(t[n]));
            assert(joined(r) =~= t);
        } else {
            assert(r.drop_last() =~= rest);
            assert(joined(r) =~= t);
            if rest.len() > 0 {
                assert(rest.last().1 == m.take(n)[n - 1]);
            }
        }
    }
}

proof fn lemma_covered_after_start(t: Seq<char>, q: Seq<char>, from: int, j: int)
    requires
        covered_from(t, q, from, j),
    ensures
        from <= j,
    decreases t.len() - from,
{
    if q.len() == 0 || from < 0 || from + q.len() > t.len() {
    } else if occurs_at(t, q, from) {
        if !(from <= j < from + q.len()) {
            lemma_covered_after_start(t, q, from + q.len(), j);
        }
    } else {
        lemma_covered_after_start(t, q, from + 1, j);
    }
}

fn occurs_at_exec(t: &Vec<char>, q: &Vec<char>, i: usize) -> (r: bool)
    requires
        i + q@.len() <= t@.len(),
    ensures
        r == occurs_at(t@, q@, i as int),
{
    let tl = t.len();
    let mut k: usize = 0;
    while k < q.len()
        invariant
            tl == t@.len(),
            i + q@.len() <= t@.len(),
            k <= q@.len(),
            forall|m: int| 0 <= m < k ==> t@[i + m] == q@[m],
        decreases q@.len() - k,
    {
        if t[i + k] != q[k] {
            assert(t@.subrange(i as int, i + q@.len())[k as int] != q@[k as int]);
            return false;
        }
        k = k + 1;
    }
    assert(t@.subrange(i as int, i + q@.len()) =~= q@);
    true
}

/// Sets the flag of every position that an occurrence of `q` covers.
fn mark_quote(t: &Vec<char>, q: &Vec<char>, marks: &mut Vec<bool>)
    requires
        old(marks)@.len() == t@.len(),
    ensures
        final(marks)@.len() == t@.len(),
        forall|j: int|
            0 <= j < t@.len() ==> #[trigger] final(marks)@[j] == (old(marks)@[j]
                || covered_from(t@, q@, 0, j)),
{
    if q.len() == 0 {
        return;
    }
    let ghost before = marks@;
    let mut i: usize = 0;
    while q.len() <= t.len() && i <= t.len() - q.len()
        invariant
            0 < q@.len(),
            i <= t@.len(),
            marks@.len() == t@.len(),
            before.len() == t@.len(),
            forall|j: int| i <= j ==> covered_from(t@, q@, 0, j) == covered_from(t@, q@, i as int, j),
            forall|j: int|
                0 <= j < t@.len() ==> #[trigger] marks@[j] == (before[j] || (j < i
                    && covered_from(t@, q@, 0, j))),
        decreases t@.len() - i,
    {
        if occurs_at_exec(t, q, i) {
            let end = i + q.len();
            let mut k = i;
            while k < end
                invariant
                    i <= k <= end,
                    end == i + q@.len(),
                    end <= t@.len(),
                    marks@.len() == t@.len(),
                    forall|j: int| i <= j < k ==> #[trigger] marks@[j] == true,
                    forall|j: int| 0 <= j < i ==> #[trigger] marks@[j] == (before[j] || (j < i
                        && covered_from(t@, q@, 0, j))),
                    forall|j: int| k <= j < t@.len() ==> #[trigger] marks@[j] == (before[j] || (
                    j < i && covered_from(t@, q@, 0, j))),
                decreases end - k,
            {
                marks.set(k, true);
                k = k + 1;
            }
            assert forall|j: int| i <= j < end implies covered_from(t@, q@, 0, j) by {
                assert(covered_from(t@, q@, i as int, j));
            }
            assert forall|j: int| end <= j implies covered_from(t@, q@, 0, j) == covered_from(
                t@,
                q@,
                end as int,
                j,
            ) by {
                assert(covered_from(t@, q@, i as int, j) == covered_from(t@, q@, end as int, j));
            }
            i = end;
        } else {
            assert forall|j: int| i + 1 <= j implies covered_from(t@, q@, 0, j) == covered_from(
                t@,
                q@,
                i + 1,
                j,
            ) by {
                assert(covered_from(t@, q@, i as int, j) == covered_from(t@, q@, i + 1, j));
            }
            assert(!covered_from(t@, q@, 0, i as int)) by {
                assert(covered_from(t@, q@, i as int, i as int) == covered_from(t@, q@, i + 1, i as int));
                if covered_from(t@, q@, i + 1, i as int) {
                    lemma_covered_after_start(t@, q@, i + 1, i as int);
                }
            }
            i = i + 1;
        }
    }
    assert forall|j: int| 0 <= j < t@.len() && i <= j implies !covered_from(t@, q@, 0, j) by {
        assert(!covered_from(t@, q@, i as int, j));
    }
}

proof fn lemma_runs_step(t: Seq<char>, m: Seq<bool>, n: int)
    requires
        0 <= n < t.len(),
        t.len() <= m.len(),
    ensures
        ({
            let rest = runs(t.take(n), m.take(n));
            runs(t.take(n + 1), m.take(n + 1)) == if rest.len() > 0 && rest.last().1 == m[n] {
                rest.update(rest.len() - 1, (rest.last().0.push(t[n]), m[n]))
            } else {
                rest.push((seq![t[n]], m[n]))
            }
        }),
{
    assert(t.take(n + 1).take(n) == t.take(n));
    assert(m.take(n + 1).take(n) == m.take(n));
}

/// Cuts `t` into maximal runs of characters with the same flag.
fn group_runs(t: &Vec<char>, marks: &Vec<bool>) -> (r: Vec<(String, bool)>)
    requires
        marks@.len() == t@.len(),
    ensures
        spans_view(r@) == runs(t@, marks@),
{
    let mut done: Vec<(String, bool)> = Vec::new();
    if t.len() == 0 {
        assert(spans_view(done@) =~= runs(t@, marks@));
        return done;
    }
    let mut cur = String::new();
    cur.push(t[0]);
    let mut flag = marks[0];
    proof {
        lemma_runs_step(t@, marks@, 0);
        assert(t@.take(0).len() == 0);
        assert(spans_view(done@).push((cur@, flag)) =~= runs(t@.take(1), marks@.take(1)));
    }
    let mut i: usize = 1;
    while i < t.len()
        invariant
            1 <= i <= t@.len(),
            marks@.len() == t@.len(),
            spans_view(done@).push((cur@, flag)) == runs(t@.take(i as int), marks@.take(i as int)),
            done@.len() == 0 || done@.last().1 != flag,
        decreases t@.len() - i,
    {
        proof {
            lemma_runs_step(t@, marks@, i as int);
        }
        let ghost prev = spans_view(done@).push((cur@, flag));
        if marks[i] == flag {
            cur.push(t[i]);
            assert(spans_view(done@).push((cur@, flag)) =~= prev.update(
                prev.len() - 1,
                (prev.last().0.push(t@[i as int]), marks@[i as int]),
            ));
        } else {
            let finished = cur;
            done.push((finished, flag));
            cur = String::new();
            cur.push(t[i]);
            flag = marks[i];
            assert(spans_view(done@) =~= prev);
            assert(spans_view(done@).push((cur@, flag)) =~= prev.push(
                (seq![t@[i as int]], marks@[i as int]),
            ));
        }
        i = i + 1;
    }
    let last = cur;
    done.push((last, flag));
    assert(t@.take(t@.len() as int) == t@);
    assert(marks@.take(marks@.len() as int) == marks@);
    assert(spans_view(done@) =~= runs(t@.take(i as int), marks@.take(i as int)));
    done
}

/// The text cut into runs, each flagged by whether an occurrence of one of
/// the quotes covers it. Each quote is searched left to right, an occurrence
/// starting only after the one before it ends; an empty quote marks nothing.
pub fn quote_spans(text: &str, quotes: &[&str]) -> (r: Vec<(String, bool)>)
    ensures
        spans_view(r@) == quote_runs(text@, quotes@.map_values(|q: &str| q@)),
{
    let t = chars_of(text);
    let ghost qs = quotes@.map_values(|q: &str| q@);
    let mut marks: Vec<bool> = Vec::new();
    while marks.len() < t.len()
        invariant
            marks@.len() <= t@.len(),
            forall|j: int| 0 <= j < marks@.len() ==> marks@[j] == false,
        decreases t@.len() - marks@.len(),
    {
        marks.push(false);
    }
    let mut k: usize = 0;
    while k < quotes.len()
        invariant
            k <= quotes@.len(),
            t@ == text@,
            qs == quotes@.map_values(|q: &str| q@),
            marks@.len() == t@.len(),
            forall|j: int|
                0 <= j < t@.len() ==> #[trigger] marks@[j] == exists|p: int|
                    0 <= p < k && covered_from(t@, #[trigger] qs[p], 0, j),
        decreases quotes@.len() - k,
    {
        let q = chars_of(quotes[k]);
        let ghost old_marks = marks@;
        mark_quote(&t, &q, &mut marks);
        assert forall|j: int| 0 <= j < t@.len() implies #[trigger] marks@[j] == exists|p: int|
            0 <= p < k + 1 && covered_from(t@, #[trigger] qs[p], 0, j) by {
            assert(qs[k as int] == q@);
            if covered_from(t@, q@, 0, j) {
                assert(0 <= k < k + 1 && covered_from(t@, qs[k as int], 0, j));
            }
            if old_marks[j] {
                let p = choose|p: int| 0 <= p < k && covered_from(t@, #[trigger] qs[p], 0, j);
                assert(0 <= p < k + 1 && covered_from(t@, qs[p], 0, j));
            }
        }
        k = k + 1;
    }
    let ghost want = Seq::new(text@.len(), |j: int| marked(text@, qs, j));
    assert(marks@ =~= want);
    group_runs(&t, &marks)
}

} // verus!
