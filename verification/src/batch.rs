//! Batch generation of teaching material: which words join the queue, and
//! the daily limit on generation requests.
use vstd::prelude::*;
use crate::distinct::{contains_text, texts};

verus! {

/// A word offered for generation.
pub struct Candidate {
    /// The word as given.
    pub word: String,
    /// The normalized form under which words count as the same.
    pub key: String,
    /// Whether generated material with examples already exists for the word.
    pub existing: bool,
}

impl Clone for Candidate {
    fn clone(&self) -> (r: Candidate)
        ensures
            r == *self,
    {
        Candidate { word: self.word.clone(), key: self.key.clone(), existing: self.existing }
    }
}

/// The words of candidates without material yet.
pub open spec fn fresh(s: Seq<Candidate>) -> Seq<Candidate>
    decreases s.len(),
{
    if s.len() == 0 {
        Seq::empty()
    } else if s.last().existing {
        fresh(s.drop_last())
    } else {
        fresh(s.drop_last()).push(s.last())
    }
}

pub open spec fn keys_of(s: Seq<Candidate>) -> Seq<Seq<char>> {
    s.map_values(|c: Candidate| c.key@)
}

pub open spec fn words_of(s: Seq<Candidate>) -> Seq<Seq<char>> {
    s.map_values(|c: Candidate| c.word@)
}

/// The candidates, keeping only the first of those with the same key.
pub open spec fn first_per_key(s: Seq<Candidate>) -> Seq<Candidate>
    decreases s.len(),
{
    if s.len() == 0 {
        Seq::empty()
    } else {
        let rest = first_per_key(s.drop_last());
        if keys_of(rest).contains(s.last().key@) {
            rest
        } else {
            rest.push(s.last())
        }
    }
}

/// The queue after appending each selected word that it does not hold yet.
pub open spec fn appended(queue: Seq<Candidate>, selected: Seq<Candidate>) -> Seq<Candidate>
    decreases selected.len(),
{
    if selected.len() == 0 {
        queue
    } else {
        let q = appended(queue, selected.drop_last());
        if words_of(q).contains(selected.last().word@) {
            q
        } else {
            q.push(selected.last())
        }
    }
}

pub open spec fn take_at_most(s: Seq<Candidate>, n: nat) -> Seq<Candidate> {
    if s.len() <= n {
        s
    } else {
        s.take(n as int)
    }
}

/// The words selected from a request: those without material, at most
/// `batch_words` of them, one per key.
pub open spec fn selected(words: Seq<Candidate>, batch_words: nat) -> Seq<Candidate> {
    first_per_key(take_at_most(fresh(words), batch_words))
}

/// The queue after a request: the interrupted queue keeps its words and
/// order, the newly selected words are appended when not queued yet, and
/// every word that has material by now leaves the queue.
pub open spec fn planned(queue: Seq<Candidate>, words: Seq<Candidate>, batch_words: nat) -> Seq<
    Candidate,
> {
    fresh(appended(queue, selected(words, batch_words)))
}

fn fresh_of(s: &Vec<Candidate>) -> (r: Vec<Candidate>)
    ensures
        r@ == fresh(s@),
{
    let mut out: Vec<Candidate> = Vec::new();
    let mut i: usize = 0;
    while i < s.len()
        invariant
            i <= s@.len(),
            out@ == fresh(s@.take(i as int)),
        decreases s@.len() - i,
    {
        let c = s[i].clone();
        proof {
            assert(s@.take(i as int + 1).drop_last() == s@.take(i as int));
            assert(s@.take(i as int + 1).last() == s@[i as int]);
        }
        if !c.existing {
            out.push(c);
        }
        i = i + 1;
    }
    assert(s@.take(s@.len() as int) == s@);
    out
}

/// Builds the queue for a batch request and tells whether anything is left
/// to generate.
pub fn plan_batch(queue: &mut Vec<Candidate>, words: Vec<Candidate>, batch_words: usize) -> (r:
    bool)
    ensures
        final(queue)@ == planned(old(queue)@, words@, batch_words as nat),
        r == (final(queue)@.len() > 0),
{
    let mut chosen = fresh_of(&words);
    if chosen.len() > batch_words {
        chosen.truncate(batch_words);
    }
    let ghost limited = chosen@;
    proof {
        assert(limited == take_at_most(fresh(words@), batch_words as nat));
    }
    // One word per key, in order.
    let mut firsts: Vec<Candidate> = Vec::new();
    let mut seen: Vec<String> = Vec::new();
    let mut i: usize = 0;
    while i < chosen.len()
        invariant
            chosen@ == limited,
            i <= limited.len(),
            firsts@ == first_per_key(limited.take(i as int)),
            texts(seen@) == keys_of(firsts@),
        decreases limited.len() - i,
    {
        let c = chosen[i].clone();
        proof {
            assert(limited.take(i as int + 1).drop_last() == limited.take(i as int));
            assert(limited.take(i as int + 1).last() == limited[i as int]);
        }
        let known = contains_text(&seen, &c.key);
        if !known {
            let ghost s0 = seen@;
            let ghost f0 = firsts@;
            seen.push(c.key.clone());
            firsts.push(c);
            proof {
                assert(texts(seen@) =~= texts(s0).push(c.key@));
                assert(keys_of(firsts@) =~= keys_of(f0).push(c.key@));
            }
        }
        i = i + 1;
    }
    assert(limited.take(limited.len() as int) == limited);
    // Append the words not queued yet.
    let ghost q0 = queue@;
    let ghost sel = firsts@;
    let mut queued: Vec<String> = Vec::new();
    let mut j: usize = 0;
    while j < queue.len()
        invariant
            queue@ == q0,
            j <= q0.len(),
            texts(queued@) == words_of(q0.take(j as int)),
        decreases q0.len() - j,
    {
        let ghost s0 = queued@;
        queued.push(queue[j].word.clone());
        proof {
            assert(q0.take(j as int + 1) == q0.take(j as int).push(q0[j as int]));
            assert(texts(queued@) =~= texts(s0).push(q0[j as int].word@));
            assert(words_of(q0.take(j as int + 1)) =~= words_of(q0.take(j as int)).push(
                q0[j as int].word@,
            ));
        }
        j = j + 1;
    }
    proof {
        assert(q0.take(q0.len() as int) == q0);
    }
    let mut k: usize = 0;
    while k < firsts.len()
        invariant
            firsts@ == sel,
            k <= sel.len(),
            queue@ == appended(q0, sel.take(k as int)),
            texts(queued@) == words_of(queue@),
        decreases sel.len() - k,
    {
        let c = firsts[k].clone();
        proof {
            assert(sel.take(k as int + 1).drop_last() == sel.take(k as int));
            assert(sel.take(k as int + 1).last() == sel[k as int]);
        }
        let present = contains_text(&queued, &c.word);
        if !present {
            let ghost s0 = queued@;
            let ghost w0 = queue@;
            queued.push(c.word.clone());
            queue.push(c);
            proof {
                assert(texts(queued@) =~= texts(s0).push(c.word@));
                assert(words_of(queue@) =~= words_of(w0).push(c.word@));
            }
        }
        k = k + 1;
    }
    proof {
        assert(sel.take(sel.len() as int) == sel);
    }
    let kept = fresh_of(queue);
    *queue = kept;
    queue.len() > 0
}

proof fn lemma_fresh_members(s: Seq<Candidate>)
    ensures
        forall|i: int| 0 <= i < fresh(s).len() ==> !(#[trigger] fresh(s)[i]).existing,
        forall|c: Candidate| s.contains(c) && !c.existing ==> #[trigger] fresh(s).contains(c),
    decreases s.len(),
{
    if s.len() > 0 {
        lemma_fresh_members(s.drop_last());
        let r = fresh(s.drop_last());
        assert forall|c: Candidate| s.contains(c) && !c.existing implies #[trigger] fresh(s).contains(
            c,
        ) by {
            let j = choose|j: int| 0 <= j < s.len() && s[j] == c;
            if j < s.len() - 1 {
                assert(s.drop_last()[j] == c);
                assert(s.drop_last().contains(c));
                assert(r.contains(c));
                let q = choose|q: int| 0 <= q < r.len() && r[q] == c;
                assert(fresh(s)[q] == c);
            } else {
                assert(fresh(s)[r.len() as int] == c);
            }
        }
    }
}

proof fn lemma_appended_extends(queue: Seq<Candidate>, sel: Seq<Candidate>)
    ensures
        appended(queue, sel).len() >= queue.len(),
        appended(queue, sel).take(queue.len() as int) == queue,
    decreases sel.len(),
{
    if sel.len() > 0 {
        lemma_appended_extends(queue, sel.drop_last());
        let q = appended(queue, sel.drop_last());
        if !words_of(q).contains(sel.last().word@) {
            assert(q.push(sel.last()).take(queue.len() as int) == q.take(queue.len() as int));
        }
    }
}

/// Planning a batch never queues a word that already has material, and
/// keeps every word of the interrupted queue that has none yet.
pub proof fn lemma_planned_queue(queue: Seq<Candidate>, words: Seq<Candidate>, batch_words: nat)
    ensures
        forall|i: int|
            0 <= i < planned(queue, words, batch_words).len() ==> !(#[trigger] planned(
                queue,
                words,
                batch_words,
            )[i]).existing,
        forall|c: Candidate|
            queue.contains(c) && !c.existing ==> #[trigger] planned(queue, words, batch_words).contains(
                c,
            ),
{
    let a = appended(queue, selected(words, batch_words));
    lemma_fresh_members(a);
    lemma_appended_extends(queue, selected(words, batch_words));
    assert forall|c: Candidate| queue.contains(c) && !c.existing implies #[trigger] planned(
        queue,
        words,
        batch_words,
    ).contains(c) by {
        let j = choose|j: int| 0 <= j < queue.len() && queue[j] == c;
        assert(a.take(queue.len() as int)[j] == c);
        assert(a[j] == c);
        assert(a.contains(c));
    }
}

pub open spec fn limit_message() -> Seq<char> {
    "本日の生成上限に達した。設定の上限を変更するか、翌日「未処理の語から再開」を押してください。"@
}

/// Reserves one generation request for today: refused once today's count
/// has reached the daily limit, otherwise the count goes up by one.
pub fn reserve_generation(calls_today: &mut u32, daily_limit: u32) -> (r: Result<(), String>)
    ensures
        r is Ok <==> *old(calls_today) < daily_limit,
        r is Ok ==> *final(calls_today) == *old(calls_today) + 1,
        r matches Err(m) ==> *final(calls_today) == *old(calls_today) && m@ == limit_message(),
{
    if *calls_today >= daily_limit {
        return Err(
            String::from_str(
                "本日の生成上限に達した。設定の上限を変更するか、翌日「未処理の語から再開」を押してください。",
            ),
        );
    }
    *calls_today = *calls_today + 1;
    Ok(())
}


proof fn lemma_push_member(r: Seq<Candidate>, x: Candidate, c: Candidate)
    requires
        r.push(x).contains(c),
    ensures
        r.contains(c) || c == x,
{
    let j = choose|j: int| 0 <= j < r.push(x).len() && r.push(x)[j] == c;
    if j < r.len() {
        assert(r[j] == c);
    }
}

proof fn lemma_init_member(s: Seq<Candidate>, c: Candidate)
    requires
        s.len() > 0,
        s.drop_last().contains(c),
    ensures
        s.contains(c),
{
    let j = choose|j: int| 0 <= j < s.drop_last().len() && s.drop_last()[j] == c;
    assert(s[j] == c);
}

proof fn lemma_fresh_within(s: Seq<Candidate>, c: Candidate)
    requires
        fresh(s).contains(c),
    ensures
        s.contains(c),
    decreases s.len(),
{
    if s.len() > 0 {
        let r = fresh(s.drop_last());
        if s.last().existing || !(c == s.last()) {
            if !s.last().existing {
                lemma_push_member(r, s.last(), c);
            }
            lemma_fresh_within(s.drop_last(), c);
            lemma_init_member(s, c);
        } else {
            assert(s[s.len() - 1] == c);
        }
    }
}

proof fn lemma_first_per_key_within(s: Seq<Candidate>, c: Candidate)
    requires
        first_per_key(s).contains(c),
    ensures
        s.contains(c),
    decreases s.len(),
{
    if s.len() > 0 {
        let r = first_per_key(s.drop_last());
        if r.contains(c) {
            lemma_first_per_key_within(s.drop_last(), c);
            lemma_init_member(s, c);
        } else {
            lemma_push_member(r, s.last(), c);
            assert(s[s.len() - 1] == c);
        }
    }
}

proof fn lemma_appended_within(queue: Seq<Candidate>, sel: Seq<Candidate>, c: Candidate)
    requires
        appended(queue, sel).contains(c),
    ensures
        queue.contains(c) || sel.contains(c),
    decreases sel.len(),
{
    if sel.len() > 0 {
        let q = appended(queue, sel.drop_last());
        if q.contains(c) {
            lemma_appended_within(queue, sel.drop_last(), c);
            if sel.drop_last().contains(c) {
                lemma_init_member(sel, c);
            }
        } else {
            lemma_push_member(q, sel.last(), c);
            assert(sel[sel.len() - 1] == c);
        }
    }
}

/// A planned queue holds only words without material, each taken from the
/// interrupted queue or from the request; no word is made up.
pub proof fn lemma_planned_words_come_from_queue_or_request(
    queue: Seq<Candidate>,
    words: Seq<Candidate>,
    batch_words: nat,
    c: Candidate,
)
    requires
        planned(queue, words, batch_words).contains(c),
    ensures
        !c.existing,
        queue.contains(c) || words.contains(c),
{
    let sel = selected(words, batch_words);
    let a = appended(queue, sel);
    lemma_fresh_members(a);
    let k = choose|k: int| 0 <= k < fresh(a).len() && fresh(a)[k] == c;
    lemma_fresh_within(a, c);
    lemma_appended_within(queue, sel, c);
    if sel.contains(c) {
        let t = take_at_most(fresh(words), batch_words);
        lemma_first_per_key_within(t, c);
        let j = choose|j: int| 0 <= j < t.len() && t[j] == c;
        assert(fresh(words)[j] == c);
        assert(fresh(words).contains(c));
        lemma_fresh_within(words, c);
    }
}

} // verus!
