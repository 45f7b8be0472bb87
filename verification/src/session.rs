//! The study session: its clock and time credit, which task comes next, and
//! the totals shown when it ends.
use vstd::prelude::*;
use crate::distinct::{count_distinct, texts};

verus! {

/// At most this much time counts from one frame to the next.
pub const MAX_FRAME_MS: u64 = 1000;

/// An answer graded "again" comes back only while this much time remains.
pub const RETRY_MARGIN_MS: u64 = 120_000;

/// The abstract clock of a session.
pub struct ClockView {
    pub elapsed_ms: nat,
    pub budget_secs: nat,
    pub paused: bool,
    pub completed: nat,
    pub credited: nat,
}

impl ClockView {
    /// Whole seconds studied.
    pub open spec fn elapsed_secs(self) -> nat {
        self.elapsed_ms / 1000
    }

    /// The whole seconds that can be credited: the study time, capped at the
    /// largest `u32`.
    pub open spec fn creditable(self) -> nat {
        if self.elapsed_secs() <= u32::MAX as nat {
            self.elapsed_secs()
        } else {
            u32::MAX as nat
        }
    }

    /// Credit never runs ahead of the study time.
    pub open spec fn wf(self) -> bool {
        self.credited <= self.creditable()
    }

    /// The clock after a frame of `delta_ms`: time runs only while the
    /// session is counted and not paused, and a frame counts at most one
    /// second.
    pub open spec fn advanced(self, delta_ms: nat, counting: bool) -> ClockView {
        if counting && !self.paused {
            let step = if delta_ms <= MAX_FRAME_MS as nat {
                delta_ms
            } else {
                MAX_FRAME_MS as nat
            };
            ClockView { elapsed_ms: self.elapsed_ms + step, ..self }
        } else {
            self
        }
    }

    /// The clock after crediting all whole seconds not yet credited.
    pub open spec fn credited_now(self) -> ClockView {
        ClockView { credited: self.creditable(), ..self }
    }

    /// The seconds a credit adds to today's study time.
    pub open spec fn credit_delta(self) -> nat {
        if self.creditable() >= self.credited {
            (self.creditable() - self.credited) as nat
        } else {
            0
        }
    }

    /// The clock after one more answer; the count stops at the largest
    /// `u64`.
    pub open spec fn answered(self) -> ClockView {
        ClockView {
            completed: if self.completed < u64::MAX as nat {
                self.completed + 1
            } else {
                self.completed
            },
            ..self
        }
    }

    /// Whether an answer graded "again" comes back in this session: while at
    /// least two minutes remain.
    pub open spec fn retry_fits(self) -> bool {
        self.budget_secs * 1000 >= self.elapsed_ms + RETRY_MARGIN_MS
    }

    /// The budget has been used up.
    pub open spec fn timed_out(self) -> bool {
        self.elapsed_ms >= self.budget_secs * 1000
    }
}

/// The clock of a study session.
pub struct StudyClock {
    elapsed_ms: u64,
    budget_secs: u64,
    paused: bool,
    completed: u64,
    credited: u32,
}

impl View for StudyClock {
    type V = ClockView;

    closed spec fn view(&self) -> ClockView {
        ClockView {
            elapsed_ms: self.elapsed_ms as nat,
            budget_secs: self.budget_secs as nat,
            paused: self.paused,
            completed: self.completed as nat,
            credited: self.credited as nat,
        }
    }
}

impl StudyClock {
    /// The clock stays within the range of its counters.
    pub closed spec fn inv(&self) -> bool {
        &&& self@.wf()
        &&& self.budget_secs <= u32::MAX as u64 * 60
        &&& self.elapsed_ms < u64::MAX
    }

    /// A new session of `minutes` minutes.
    pub fn new(minutes: u32) -> (r: StudyClock)
        ensures
            r.inv(),
            r@ == (ClockView {
                elapsed_ms: 0,
                budget_secs: minutes as nat * 60,
                paused: false,
                completed: 0,
                credited: 0,
            }),
    {
        StudyClock {
            elapsed_ms: 0,
            budget_secs: minutes as u64 * 60,
            paused: false,
            completed: 0,
            credited: 0,
        }
    }

    /// Whole seconds studied.
    pub fn elapsed_secs(&self) -> (r: u64)
        ensures
            r == self@.elapsed_secs(),
    {
        self.elapsed_ms / 1000
    }

    /// The planned length of the session in seconds.
    pub fn budget_secs(&self) -> (r: u64)
        ensures
            r == self@.budget_secs,
    {
        self.budget_secs
    }

    /// Whether the session is paused.
    pub fn paused(&self) -> (r: bool)
        ensures
            r == self@.paused,
    {
        self.paused
    }

    /// The number of answers given in the session.
    pub fn completed(&self) -> (r: u64)
        ensures
            r == self@.completed,
    {
        self.completed
    }

    /// Whole seconds left before the planned end, zero once it is reached.
    pub fn remaining_secs(&self) -> (r: u64)
        ensures
            r == if self@.budget_secs >= self@.elapsed_secs() {
                (self@.budget_secs - self@.elapsed_secs()) as nat
            } else {
                0
            },
    {
        let e = self.elapsed_ms / 1000;
        if self.budget_secs >= e {
            self.budget_secs - e
        } else {
            0
        }
    }

    /// Pauses a running session or resumes a paused one.
    pub fn toggle_pause(&mut self)
        requires
            old(self).inv(),
        ensures
            final(self).inv(),
            final(self)@ == (ClockView { paused: !old(self)@.paused, ..old(self)@ }),
    {
        self.paused = !self.paused;
    }

    /// Lets a frame of `delta_ms` pass; `counting` says whether the study
    /// page is in front, focused and not waiting for other work. The clock
    /// stops just short of the largest count of milliseconds.
    pub fn advance(&mut self, delta_ms: u64, counting: bool)
        requires
            old(self).inv(),
        ensures
            final(self).inv(),
            old(self)@.elapsed_ms + MAX_FRAME_MS < u64::MAX ==> final(self)@ == old(self)@.advanced(
                delta_ms as nat,
                counting,
            ),
            final(self)@.elapsed_ms >= old(self)@.elapsed_ms,
            final(self)@.elapsed_ms <= old(self)@.elapsed_ms + MAX_FRAME_MS,
            !counting || old(self)@.paused ==> final(self)@ == old(self)@,
            counting && !old(self)@.paused && delta_ms <= MAX_FRAME_MS && old(self)@.elapsed_ms
                + MAX_FRAME_MS < u64::MAX ==> final(self)@.elapsed_ms == old(self)@.elapsed_ms
                + delta_ms,
            final(self)@.budget_secs == old(self)@.budget_secs && final(self)@.paused == old(
                self,
            )@.paused && final(self)@.completed == old(self)@.completed && final(self)@.credited
                == old(self)@.credited,
    {
        if counting && !self.paused {
            let step = if delta_ms <= MAX_FRAME_MS {
                delta_ms
            } else {
                MAX_FRAME_MS
            };
            if self.elapsed_ms <= u64::MAX - 1 - step {
                self.elapsed_ms = self.elapsed_ms + step;
            }
        }
    }

    /// Whether the planned time is used up.
    pub fn timed_out(&self) -> (r: bool)
        requires
            self.inv(),
        ensures
            r == self@.timed_out(),
    {
        self.elapsed_ms >= self.budget_secs * 1000
    }

    /// Whether an answer graded "again" is asked once more in this session:
    /// only while at least two minutes remain.
    pub fn retry_fits(&self) -> (r: bool)
        requires
            self.inv(),
        ensures
            r == (self@.budget_secs * 1000 >= self@.elapsed_ms + RETRY_MARGIN_MS),
    {
        let budget_ms = self.budget_secs * 1000;
        budget_ms >= self.elapsed_ms && budget_ms - self.elapsed_ms >= RETRY_MARGIN_MS
    }

    /// Counts one more answer.
    pub fn record_answer(&mut self)
        requires
            old(self).inv(),
        ensures
            final(self).inv(),
            final(self)@ == old(self)@.answered(),
    {
        if self.completed < u64::MAX {
            self.completed = self.completed + 1;
        }
    }

    /// Credits the whole seconds studied since the last credit and returns
    /// them, to be added to today's study time.
    pub fn credit(&mut self) -> (r: u32)
        requires
            old(self).inv(),
        ensures
            final(self).inv(),
            r == old(self)@.credit_delta(),
            final(self)@ == old(self)@.credited_now(),
    {
        let secs = self.elapsed_ms / 1000;
        let whole: u32 = if secs <= u32::MAX as u64 {
            secs as u32
        } else {
            u32::MAX
        };
        let delta = if whole >= self.credited {
            whole - self.credited
        } else {
            0
        };
        if delta > 0 {
            self.credited = whole;
        }
        delta
    }
}

/// Crediting twice without studying in between adds nothing the second
/// time, and the credits add up to the study time.
pub proof fn lemma_credit_settles(v: ClockView)
    requires
        v.wf(),
    ensures
        v.credited_now().wf(),
        v.credited_now().credit_delta() == 0,
        v.credited + v.credit_delta() == v.creditable(),
{
}

/// Credits taken across frames add up to the study time: crediting before
/// and after a frame gives the same total as crediting once after it.
pub proof fn lemma_credit_adds_up(v: ClockView, delta_ms: nat, counting: bool)
    requires
        v.wf(),
    ensures
        v.credit_delta() + v.credited_now().advanced(delta_ms, counting).credit_delta()
            == v.advanced(delta_ms, counting).credit_delta(),
        v.advanced(delta_ms, counting).wf(),
{
    assert(v.advanced(delta_ms, counting).elapsed_ms >= v.elapsed_ms);
    assert(v.advanced(delta_ms, counting).elapsed_secs() >= v.elapsed_secs()) by (nonlinear_arith)
        requires
            v.advanced(delta_ms, counting).elapsed_ms >= v.elapsed_ms,
    {
    }
}

/// A paused session does not advance.
pub proof fn lemma_paused_clock_stands_still(v: ClockView, delta_ms: nat, counting: bool)
    requires
        v.paused,
    ensures
        v.advanced(delta_ms, counting) == v,
{
}

/// Short sessions introduce at most one new item: a session of two minutes
/// or less takes at most one of the day's new items.
pub fn max_new_items(minutes: u32, new_per_day: usize) -> (r: usize)
    ensures
        r == if minutes <= 2 {
            if new_per_day <= 1 {
                new_per_day
            } else {
                1
            }
        } else {
            new_per_day
        },
{
    if minutes <= 2 {
        if new_per_day <= 1 {
            new_per_day
        } else {
            1
        }
    } else {
        new_per_day
    }
}

/// A task can be asked now when it introduces an item, or its item has no
/// schedule yet, or its item is due.
pub open spec fn spec_task_ready(introduce: bool, due: Option<i64>, now: i64) -> bool {
    introduce || match due {
        None => true,
        Some(d) => d <= now,
    }
}

/// Whether a queued task can be asked now.
pub fn task_ready(introduce: bool, due: Option<i64>, now: i64) -> (r: bool)
    ensures
        r == spec_task_ready(introduce, due, now),
{
    introduce || match due {
        None => true,
        Some(d) => d <= now,
    }
}

/// The first ready task in queue order, if any.
pub open spec fn first_ready(ready: Seq<bool>) -> Option<int> {
    if exists|i: int| 0 <= i < ready.len() && ready[i] {
        Some(choose|i: int| 0 <= i < ready.len() && ready[i] && forall|j: int| 0 <= j < i ==> !ready[j])
    } else {
        None
    }
}

/// Takes the first ready task out of the queue; `ready` tells, for each
/// queued task in order, whether it can be asked now. Tasks before it keep
/// their place; without a ready task the queue is left as it was.
pub fn take_next_task<T>(queue: &mut Vec<T>, ready: &[bool]) -> (r: Option<T>)
    requires
        old(queue)@.len() == ready@.len(),
    ensures
        match r {
            None => final(queue)@ == old(queue)@ && forall|i: int| 0 <= i < ready@.len() ==> !ready@[i],
            Some(t) => exists|i: int|
                0 <= i < ready@.len() && ready@[i] && (forall|j: int| 0 <= j < i ==> !ready@[j])
                    && t == old(queue)@[i] && final(queue)@ == old(queue)@.remove(i),
        },
{
    let mut i: usize = 0;
    while i < ready.len()
        invariant
            i <= ready@.len(),
            queue@.len() == ready@.len(),
            queue@ == old(queue)@,
            forall|j: int| 0 <= j < i ==> !ready@[j],
        decreases ready@.len() - i,
    {
        if ready[i] {
            let t = queue.remove(i);
            return Some(t);
        }
        i = i + 1;
    }
    None
}

/// After a new item has been shown, it is asked again after at most two
/// other tasks.
pub fn requeue_introduced<T>(queue: &mut Vec<T>, task: T)
    ensures
        final(queue)@ == old(queue)@.insert(
            if old(queue)@.len() < 2 {
                old(queue)@.len() as int
            } else {
                2
            },
            task,
        ),
{
    let pos = if queue.len() < 2 {
        queue.len()
    } else {
        2
    };
    queue.insert(pos, task);
}

/// The seconds recorded for one answer: the time on the card, at most ten
/// minutes.
pub fn answer_seconds(card_secs: u64) -> (r: u32)
    ensures
        r == if card_secs <= 600 {
            card_secs
        } else {
            600
        },
{
    if card_secs <= 600 {
        card_secs as u32
    } else {
        600
    }
}

/// The grades of an answer.
#[derive(Clone, Copy, Debug, PartialEq, Eq, Structural)]
pub enum Grade {
    Again,
    Hard,
    Good,
    Easy,
}

/// How an answer was given: with help when hints were shown or the item was
/// introduced less than 45 seconds ago; self-assessed for usage and sentence
/// tasks, for answers not typed, and for typed answers that did not match.
pub fn answer_flags(
    hints: usize,
    introduced_secs_ago: Option<u64>,
    open_skill: bool,
    keyboard: bool,
    matched: Option<bool>,
) -> (r: (bool, bool))
    ensures
        r.0 == (hints > 0 || match introduced_secs_ago {
            Some(s) => s < 45,
            None => false,
        }),
        r.1 == (open_skill || !keyboard || matched != Some(true)),
{
    let recently_seen = match introduced_secs_ago {
        Some(s) => s < 45,
        None => false,
    };
    (hints > 0 || recently_seen, open_skill || !keyboard || !(matched == Some(true)))
}

/// One answer recorded in the learning history.
pub struct ReviewRecord {
    /// The key of the reviewed skill of an item.
    pub key: String,
    /// The grade given.
    pub grade: Grade,
    /// Whether the answer was given with help.
    pub assisted: bool,
    /// Whether this was the first answer for the key.
    pub first: bool,
    /// When the key is due next, if it is scheduled.
    pub due: Option<i64>,
}

/// Answers given without help and graded good or easy.
pub open spec fn independent_count(records: Seq<ReviewRecord>) -> nat
    decreases records.len(),
{
    if records.len() == 0 {
        0
    } else {
        let r = records.last();
        independent_count(records.drop_last()) + if !r.assisted && (r.grade == Grade::Good
            || r.grade == Grade::Easy) {
            1nat
        } else {
            0
        }
    }
}

/// The keys of the answers that were not the first for their key.
pub open spec fn repeated_keys(records: Seq<ReviewRecord>) -> Seq<Seq<char>>
    decreases records.len(),
{
    if records.len() == 0 {
        Seq::empty()
    } else {
        let rest = repeated_keys(records.drop_last());
        if records.last().first {
            rest
        } else {
            rest.push(records.last().key@)
        }
    }
}

/// The earliest due time among the answered keys.
pub open spec fn earliest_due(records: Seq<ReviewRecord>) -> Option<i64>
    decreases records.len(),
{
    if records.len() == 0 {
        None
    } else {
        let rest = earliest_due(records.drop_last());
        match (rest, records.last().due) {
            (None, d) => d,
            (Some(a), None) => Some(a),
            (Some(a), Some(b)) => Some(if b < a { b } else { a }),
        }
    }
}

/// The totals of a finished session.
pub struct SessionTotals {
    pub seconds: u64,
    pub answers: usize,
    pub independent: usize,
    pub reviewed: usize,
    pub next_due: Option<i64>,
}

/// The records of this session: those from `review_start` on.
pub open spec fn session_records(all: Seq<ReviewRecord>, review_start: int) -> Seq<ReviewRecord> {
    all.skip(if review_start <= all.len() { review_start } else { all.len() as int })
}

/// The totals of the session whose answers start at `review_start` in the
/// history: its seconds, answers, answers without help graded good or easy,
/// distinct keys reviewed again, and the earliest next due time.
pub fn session_totals(seconds: u64, records: &Vec<ReviewRecord>, review_start: usize) -> (r:
    SessionTotals)
    ensures
        r.seconds == seconds,
        r.answers == session_records(records@, review_start as int).len(),
        r.independent == independent_count(session_records(records@, review_start as int)),
        r.reviewed == repeated_keys(session_records(records@, review_start as int)).to_set().len(),
        r.next_due == earliest_due(session_records(records@, review_start as int)),
        r.answers == if review_start <= records@.len() {
            records@.len() - review_start
        } else {
            0
        },
        r.independent == session_records(records@, review_start as int).filter(
            |x: ReviewRecord| !x.assisted && (x.grade == Grade::Good || x.grade == Grade::Easy),
        ).len(),
        r.reviewed == Set::new(
            |k: Seq<char>|
                exists|i: int|
                    0 <= i < session_records(records@, review_start as int).len() && !session_records(
                        records@,
                        review_start as int,
                    )[i].first && session_records(records@, review_start as int)[i].key@ == k,
        ).len(),
        r.next_due is None ==> forall|i: int|
            0 <= i < session_records(records@, review_start as int).len() ==> session_records(
                records@,
                review_start as int,
            )[i].due is None,
        r.next_due matches Some(d) ==> (exists|i: int|
            0 <= i < session_records(records@, review_start as int).len() && session_records(
                records@,
                review_start as int,
            )[i].due == Some(d)) && forall|i: int|
            0 <= i < session_records(records@, review_start as int).len() && session_records(
                records@,
                review_start as int,
            )[i].due is Some ==> d <= session_records(records@, review_start as int)[i].due->0,
{
    proof {
        let recs = session_records(records@, review_start as int);
        lemma_independent_counts_unhelped_good_answers(recs);
        lemma_reviewed_keys(recs);
        lemma_next_due_is_earliest(recs);
    }
    let start = if review_start <= records.len() {
        review_start
    } else {
        records.len()
    };
    let ghost recs = session_records(records@, review_start as int);
    let mut independent: usize = 0;
    let mut keys: Vec<String> = Vec::new();
    let mut next_due: Option<i64> = None;
    let mut i = start;
    while i < records.len()
        invariant
            start <= i <= records@.len(),
            recs == records@.skip(start as int),
            independent == independent_count(recs.take(i - start)),
            independent <= i - start,
            texts(keys@) == repeated_keys(recs.take(i - start)),
            next_due == earliest_due(recs.take(i - start)),
        decreases records@.len() - i,
    {
        let r = &records[i];
        proof {
            let t = recs.take(i - start + 1);
            assert(t.drop_last() == recs.take(i - start));
            assert(t.last() == records@[i as int]);
        }
        if !r.assisted && (r.grade == Grade::Good || r.grade == Grade::Easy) {
            independent = independent + 1;
        }
        if !r.first {
            keys.push(r.key.clone());
        }
        next_due = match (next_due, r.due) {
            (None, d) => d,
            (Some(a), None) => Some(a),
            (Some(a), Some(b)) => Some(if b < a { b } else { a }),
        };
        proof {
            assert(texts(keys@) =~= repeated_keys(recs.take(i - start + 1)));
        }
        i = i + 1;
    }
    assert(recs.take(records@.len() - start) == recs);
    SessionTotals {
        seconds,
        answers: records.len() - start,
        independent,
        reviewed: count_distinct(&keys),
        next_due,
    }
}


/// Records a graded answer: it counts as one more answer, an answer graded
/// "again" goes back to the end of the queue while at least two minutes
/// remain, and the time studied so far is credited. Returns the seconds to
/// add to today's study time.
pub fn grade_step<T>(clock: &mut StudyClock, queue: &mut Vec<T>, task: T, grade: Grade) -> (credited: u32)
    requires
        old(clock).inv(),
    ensures
        final(clock).inv(),
        final(queue)@ == if grade == Grade::Again && old(clock)@.retry_fits() {
            old(queue)@.push(task)
        } else {
            old(queue)@
        },
        final(clock)@ == old(clock)@.answered().credited_now(),
        credited == old(clock)@.credit_delta(),
{
    clock.record_answer();
    if grade == Grade::Again && clock.retry_fits() {
        queue.push(task);
    }
    clock.credit()
}


/// The independent answers are exactly those given without help and graded
/// good or easy.
pub proof fn lemma_independent_counts_unhelped_good_answers(records: Seq<ReviewRecord>)
    ensures
        independent_count(records) == records.filter(
            |x: ReviewRecord| !x.assisted && (x.grade == Grade::Good || x.grade == Grade::Easy),
        ).len(),
    decreases records.len(),
{
    reveal(Seq::filter);
    if records.len() > 0 {
        lemma_independent_counts_unhelped_good_answers(records.drop_last());
    }
}

/// The keys reviewed again are exactly the keys of the answers that were
/// not the first for their key.
pub proof fn lemma_reviewed_keys(records: Seq<ReviewRecord>)
    ensures
        repeated_keys(records).to_set() == Set::new(
            |k: Seq<char>| exists|i: int| 0 <= i < records.len() && !records[i].first && records[i].key@ == k,
        ),
    decreases records.len(),
{
    if records.len() > 0 {
        let init = records.drop_last();
        let n = records.len() - 1;
        lemma_reviewed_keys(init);
        let want = Set::new(
            |k: Seq<char>| exists|i: int| 0 <= i < records.len() && !records[i].first && records[i].key@ == k,
        );
        let prev = Set::new(
            |k: Seq<char>| exists|i: int| 0 <= i < init.len() && !init[i].first && init[i].key@ == k,
        );
        assert forall|k: Seq<char>| #[trigger] repeated_keys(records).to_set().contains(k) <==> want.contains(k) by {
            assert(records.last() == records[n]);
            if records[n].first {
                assert(repeated_keys(records) == repeated_keys(init));
            } else {
                assert(repeated_keys(records) == repeated_keys(init).push(records[n].key@));
                assert(repeated_keys(records).to_set() == repeated_keys(init).to_set().insert(
                    records[n].key@,
                )) by {
                    repeated_keys(init).lemma_push_to_set_commute(records[n].key@);
                }
            }
            if prev.contains(k) {
                let i = choose|i: int| 0 <= i < init.len() && !init[i].first && init[i].key@ == k;
                assert(records[i] == init[i]);
            }
            if want.contains(k) {
                let i = choose|i: int| 0 <= i < records.len() && !records[i].first && records[i].key@ == k;
                if i < n {
                    assert(init[i] == records[i]);
                    assert(prev.contains(k));
                }
            }
        }
        assert(repeated_keys(records).to_set() =~= want);
    } else {
        assert(repeated_keys(records).to_set() =~= Set::new(
            |k: Seq<char>| exists|i: int| 0 <= i < records.len() && !records[i].first && records[i].key@ == k,
        ));
    }
}

/// The next due time is the earliest due time among the answers, and there
/// is none only when no answer is scheduled.
pub proof fn lemma_next_due_is_earliest(records: Seq<ReviewRecord>)
    ensures
        earliest_due(records) is None ==> forall|i: int| 0 <= i < records.len() ==> records[i].due is None,
        earliest_due(records) matches Some(d) ==> (exists|i: int|
            0 <= i < records.len() && records[i].due == Some(d)) && forall|i: int|
            0 <= i < records.len() && records[i].due is Some ==> d <= records[i].due->0,
    decreases records.len(),
{
    if records.len() > 0 {
        let init = records.drop_last();
        let n = records.len() - 1;
        lemma_next_due_is_earliest(init);
        assert(records.last() == records[n]);
        assert forall|i: int| 0 <= i < n implies records[i] == init[i] by {}
        match earliest_due(init) {
            Some(a) => {
                let j = choose|j: int| 0 <= j < init.len() && init[j].due == Some(a);
                assert(records[j] == init[j]);
            },
            None => {},
        }
    }
}

} // verus!
