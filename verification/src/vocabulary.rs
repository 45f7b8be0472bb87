//! How many distinct expressions the learner has registered, and how many of
//! them have been answered at least once.
use vstd::prelude::*;
use crate::distinct::{count_distinct, texts};
use crate::text::{trim, trimmed};

verus! {

/// What `str::to_lowercase` returns for a text.
pub uninterp spec fn lowercase(s: Seq<char>) -> Seq<char>;

/// `str::to_lowercase`: the text in lower case.
#[verifier::external_body]
fn to_lowercase(s: &str) -> (r: String)
    ensures
        r@ == lowercase(s@),
{
    s.to_lowercase()
}

/// One registered expression as the dashboard counts it.
#[derive(Clone, Debug)]
pub struct VocabItem {
    /// The base expression.
    pub base: String,
    /// Whether the learner deleted the expression.
    pub deleted: bool,
    /// Whether the learner suspended the expression; this does not change
    /// what is counted.
    pub suspended: bool,
    /// For each skill of the expression, the number of reviews of its
    /// memory, or `None` where the skill has no memory yet.
    pub reviews: Vec<Option<u32>>,
}

/// An expression counts as answered when some skill has a memory with at
/// least one review.
pub open spec fn was_answered(x: VocabItem) -> bool {
    exists|k: int| 0 <= k < x.reviews@.len() && reviewed(#[trigger] x.reviews@[k])
}

/// A memory with at least one review.
pub open spec fn reviewed(memory: Option<u32>) -> bool {
    match memory {
        Some(n) => n > 0,
        None => false,
    }
}

/// Whether some skill of the expression has been reviewed at least once.
pub fn answered(x: &VocabItem) -> (r: bool)
    ensures
        r == was_answered(*x),
{
    let mut i: usize = 0;
    while i < x.reviews.len()
        invariant
            i <= x.reviews@.len(),
            forall|k: int| 0 <= k < i ==> !reviewed(#[trigger] x.reviews@[k]),
        decreases x.reviews@.len() - i,
    {
        match x.reviews[i] {
            Some(n) => {
                if n > 0 {
                    assert(reviewed(x.reviews@[i as int]));
                    return true;
                }
            },
            None => {},
        }
        i = i + 1;
    }
    false
}

/// Expressions are the same when their trimmed lower-case forms are.
pub open spec fn normalized(base: Seq<char>) -> Seq<char> {
    lowercase(trimmed(base))
}

/// The normalized bases of the expressions that are not deleted.
pub open spec fn live_bases(items: Seq<VocabItem>) -> Seq<Seq<char>>
    decreases items.len(),
{
    if items.len() == 0 {
        Seq::empty()
    } else {
        let rest = live_bases(items.drop_last());
        let x = items.last();
        if x.deleted {
            rest
        } else {
            rest.push(normalized(x.base@))
        }
    }
}

/// The normalized bases of the answered expressions that are not deleted.
pub open spec fn answered_bases(items: Seq<VocabItem>) -> Seq<Seq<char>>
    decreases items.len(),
{
    if items.len() == 0 {
        Seq::empty()
    } else {
        let rest = answered_bases(items.drop_last());
        let x = items.last();
        if x.deleted || !was_answered(x) {
            rest
        } else {
            rest.push(normalized(x.base@))
        }
    }
}

/// An expression under its normalized key, as the dashboard counts it.
pub struct KeyedItem {
    /// The normalized base expression.
    pub key: String,
    /// Whether the learner deleted the expression.
    pub deleted: bool,
    /// Whether some skill of the expression has been reviewed at least once.
    pub answered: bool,
}

/// The keys of the expressions that are not deleted.
pub open spec fn live_keys(items: Seq<KeyedItem>) -> Seq<Seq<char>>
    decreases items.len(),
{
    if items.len() == 0 {
        Seq::empty()
    } else {
        let rest = live_keys(items.drop_last());
        if items.last().deleted {
            rest
        } else {
            rest.push(items.last().key@)
        }
    }
}

/// The keys of the answered expressions that are not deleted.
pub open spec fn answered_keys(items: Seq<KeyedItem>) -> Seq<Seq<char>>
    decreases items.len(),
{
    if items.len() == 0 {
        Seq::empty()
    } else {
        let rest = answered_keys(items.drop_last());
        let x = items.last();
        if x.deleted || !x.answered {
            rest
        } else {
            rest.push(x.key@)
        }
    }
}

/// The number of distinct keys not deleted, and the number of those of
/// which some entry has been answered.
pub fn keyed_counts(items: &[KeyedItem]) -> (r: (usize, usize))
    ensures
        r.0 == live_keys(items@).to_set().len(),
        r.1 == answered_keys(items@).to_set().len(),
{
    let mut live: Vec<String> = Vec::new();
    let mut answered: Vec<String> = Vec::new();
    let mut i: usize = 0;
    while i < items.len()
        invariant
            i <= items@.len(),
            texts(live@) == live_keys(items@.take(i as int)),
            texts(answered@) == answered_keys(items@.take(i as int)),
        decreases items@.len() - i,
    {
        let x = &items[i];
        proof {
            assert(items@.take(i as int + 1).drop_last() == items@.take(i as int));
            assert(items@.take(i as int + 1).last() == items@[i as int]);
        }
        if !x.deleted {
            if x.answered {
                answered.push(x.key.clone());
            }
            live.push(x.key.clone());
        }
        proof {
            assert(texts(live@) =~= live_keys(items@.take(i as int + 1)));
            assert(texts(answered@) =~= answered_keys(items@.take(i as int + 1)));
        }
        i = i + 1;
    }
    assert(items@.take(items@.len() as int) == items@);
    (count_distinct(&live), count_distinct(&answered))
}

/// Whether each keyed item is the expression of the same position under its
/// normalized key.
pub open spec fn keyed_from(keyed: Seq<KeyedItem>, items: Seq<VocabItem>) -> bool {
    &&& keyed.len() == items.len()
    &&& forall|j: int|
        0 <= j < items.len() ==> (#[trigger] keyed[j]).key@ == normalized(items[j].base@)
            && keyed[j].deleted == items[j].deleted && keyed[j].answered == was_answered(items[j])
}

proof fn lemma_keyed_bases(keyed: Seq<KeyedItem>, items: Seq<VocabItem>)
    requires
        keyed_from(keyed, items),
    ensures
        live_keys(keyed) == live_bases(items),
        answered_keys(keyed) == answered_bases(items),
    decreases items.len(),
{
    if items.len() > 0 {
        let n = items.len() - 1;
        assert(keyed_from(keyed.drop_last(), items.drop_last())) by {
            assert forall|j: int| 0 <= j < n implies (#[trigger] keyed.drop_last()[j]).key@
                == normalized(items.drop_last()[j].base@) && keyed.drop_last()[j].deleted
                == items.drop_last()[j].deleted && keyed.drop_last()[j].answered
                == was_answered(items.drop_last()[j]) by {
                assert(keyed.drop_last()[j] == keyed[j]);
                assert(items.drop_last()[j] == items[j]);
            }
        }
        lemma_keyed_bases(keyed.drop_last(), items.drop_last());
        assert(keyed.last() == keyed[n]);
        assert(items.last() == items[n]);
    }
}

/// The number of distinct expressions not deleted, and the number of those
/// of which some entry has been answered (answered, not necessarily
/// mastered).
pub fn vocabulary_counts(items: &[VocabItem]) -> (r: (usize, usize))
    ensures
        r.0 == live_bases(items@).to_set().len(),
        r.1 == answered_bases(items@).to_set().len(),
{
    let mut keyed: Vec<KeyedItem> = Vec::new();
    let mut i: usize = 0;
    while i < items.len()
        invariant
            i <= items@.len(),
            keyed_from(keyed@, items@.take(i as int)),
        decreases items@.len() - i,
    {
        let x = &items[i];
        let key = to_lowercase(trim(x.base.as_str()).as_str());
        let was = answered(x);
        keyed.push(KeyedItem { key, deleted: x.deleted, answered: was });
        proof {
            assert forall|j: int| 0 <= j < i + 1 implies (#[trigger] keyed@[j]).key@ == normalized(
                items@.take(i as int + 1)[j].base@,
            ) && keyed@[j].deleted == items@.take(i as int + 1)[j].deleted && keyed@[j].answered
                == was_answered(items@.take(i as int + 1)[j]) by {
                assert(items@.take(i as int + 1)[j] == items@[j]);
                if j < i {
                    assert(items@.take(i as int)[j] == items@[j]);
                }
            }
        }
        i = i + 1;
    }
    assert(items@.take(items@.len() as int) == items@);
    proof {
        lemma_keyed_bases(keyed@, items@);
    }
    keyed_counts(keyed.as_slice())
}

proof fn lemma_answered_within_live(items: Seq<VocabItem>)
    ensures
        forall|k: Seq<char>| #[trigger] answered_bases(items).contains(k) ==> live_bases(
            items,
        ).contains(k),
    decreases items.len(),
{
    if items.len() > 0 {
        lemma_answered_within_live(items.drop_last());
        let ra = answered_bases(items.drop_last());
        let rl = live_bases(items.drop_last());
        assert forall|k: Seq<char>| #[trigger] answered_bases(items).contains(k) implies live_bases(
            items,
        ).contains(k) by {
            let a = answered_bases(items);
            let j = choose|j: int| 0 <= j < a.len() && a[j] == k;
            if j < ra.len() {
                assert(ra[j] == k);
                assert(ra.contains(k));
                assert(rl.contains(k));
                let m = choose|m: int| 0 <= m < rl.len() && rl[m] == k;
                if items.last().deleted {
                } else {
                    assert(live_bases(items)[m] == k);
                }
            } else {
                assert(live_bases(items)[rl.len() as int] == k);
            }
        }
    }
}

/// The answered count never exceeds the registered count.
pub proof fn lemma_answered_at_most_registered(items: Seq<VocabItem>)
    ensures
        answered_bases(items).to_set().len() <= live_bases(items).to_set().len(),
{
    lemma_answered_within_live(items);
    let a = answered_bases(items).to_set();
    let l = live_bases(items).to_set();
    assert(a.subset_of(l));
    live_bases(items).lemma_cardinality_of_set();
    vstd::seq_lib::seq_to_set_is_finite(live_bases(items));
    vstd::set_lib::lemma_len_subset(a, l);
}


proof fn lemma_live_members(s: Seq<VocabItem>)
    ensures
        forall|k: Seq<char>|
            #[trigger] live_bases(s).contains(k) <==> exists|j: int|
                0 <= j < s.len() && !s[j].deleted && normalized(s[j].base@) == k,
        forall|k: Seq<char>|
            #[trigger] answered_bases(s).contains(k) <==> exists|j: int|
                0 <= j < s.len() && !s[j].deleted && was_answered(s[j]) && normalized(s[j].base@)
                    == k,
    decreases s.len(),
{
    if s.len() > 0 {
        let init = s.drop_last();
        let n = s.len() - 1;
        lemma_live_members(init);
        assert(s.last() == s[n]);
        if s[n].deleted {
            assert(live_bases(s) == live_bases(init));
        } else {
            assert(live_bases(s) == live_bases(init).push(normalized(s[n].base@)));
        }
        if s[n].deleted || !was_answered(s[n]) {
            assert(answered_bases(s) == answered_bases(init));
        } else {
            assert(answered_bases(s) == answered_bases(init).push(normalized(s[n].base@)));
        }
        assert forall|k: Seq<char>| #[trigger] live_bases(s).contains(k) <==> exists|j: int|
            0 <= j < s.len() && !s[j].deleted && normalized(s[j].base@) == k by {
            if live_bases(s).contains(k) {
                if live_bases(init).contains(k) {
                    let j = choose|j: int|
                        0 <= j < init.len() && !init[j].deleted && normalized(init[j].base@) == k;
                    assert(s[j] == init[j]);
                } else {
                    let l = live_bases(s);
                    let p = choose|p: int| 0 <= p < l.len() && l[p] == k;
                    if p < live_bases(init).len() {
                        assert(live_bases(init)[p] == k);
                    }
                    assert(!s[n].deleted && normalized(s[n].base@) == k);
                }
            }
            if exists|j: int| 0 <= j < s.len() && !s[j].deleted && normalized(s[j].base@) == k {
                let j = choose|j: int| 0 <= j < s.len() && !s[j].deleted && normalized(s[j].base@) == k;
                if j < n {
                    assert(init[j] == s[j]);
                    assert(live_bases(init).contains(k));
                    let l = live_bases(init);
                    let p = choose|p: int| 0 <= p < l.len() && l[p] == k;
                    assert(live_bases(s)[p] == k);
                } else {
                    assert(live_bases(s)[live_bases(init).len() as int] == k);
                }
            }
        }
        assert forall|k: Seq<char>| #[trigger] answered_bases(s).contains(k) <==> exists|j: int|
            0 <= j < s.len() && !s[j].deleted && was_answered(s[j]) && normalized(s[j].base@) == k by {
            if answered_bases(s).contains(k) {
                if answered_bases(init).contains(k) {
                    let j = choose|j: int|
                        0 <= j < init.len() && !init[j].deleted && was_answered(init[j]) && normalized(
                            init[j].base@,
                        ) == k;
                    assert(s[j] == init[j]);
                } else {
                    let l = answered_bases(s);
                    let p = choose|p: int| 0 <= p < l.len() && l[p] == k;
                    if p < answered_bases(init).len() {
                        assert(answered_bases(init)[p] == k);
                    }
                    assert(!s[n].deleted && was_answered(s[n]) && normalized(s[n].base@) == k);
                }
            }
            if exists|j: int|
                0 <= j < s.len() && !s[j].deleted && was_answered(s[j]) && normalized(s[j].base@) == k {
                let j = choose|j: int|
                    0 <= j < s.len() && !s[j].deleted && was_answered(s[j]) && normalized(s[j].base@)
                        == k;
                if j < n {
                    assert(init[j] == s[j]);
                    assert(answered_bases(init).contains(k));
                    let l = answered_bases(init);
                    let p = choose|p: int| 0 <= p < l.len() && l[p] == k;
                    assert(answered_bases(s)[p] == k);
                } else {
                    assert(answered_bases(s)[answered_bases(init).len() as int] == k);
                }
            }
        }
    }
}

/// The counts depend only on which entries there are: reordering the
/// entries or repeating one changes neither count.
pub proof fn lemma_counts_depend_on_entries(a: Seq<VocabItem>, b: Seq<VocabItem>)
    requires
        a.to_set() == b.to_set(),
    ensures
        live_bases(a).to_set() == live_bases(b).to_set(),
        answered_bases(a).to_set() == answered_bases(b).to_set(),
{
    lemma_live_members(a);
    lemma_live_members(b);
    assert forall|k: Seq<char>| #[trigger] live_bases(a).contains(k) implies live_bases(b).contains(k) by {
        let j = choose|j: int| 0 <= j < a.len() && !a[j].deleted && normalized(a[j].base@) == k;
        assert(a.to_set().contains(a[j]));
        assert(b.contains(a[j]));
        let q = choose|q: int| 0 <= q < b.len() && b[q] == a[j];
        assert(!b[q].deleted && normalized(b[q].base@) == k);
    }
    assert forall|k: Seq<char>| #[trigger] live_bases(b).contains(k) implies live_bases(a).contains(k) by {
        let j = choose|j: int| 0 <= j < b.len() && !b[j].deleted && normalized(b[j].base@) == k;
        assert(b.to_set().contains(b[j]));
        assert(a.contains(b[j]));
        let q = choose|q: int| 0 <= q < a.len() && a[q] == b[j];
        assert(!a[q].deleted && normalized(a[q].base@) == k);
    }
    assert forall|k: Seq<char>| #[trigger] answered_bases(a).contains(k) implies answered_bases(b).contains(k) by {
        let j = choose|j: int|
            0 <= j < a.len() && !a[j].deleted && was_answered(a[j]) && normalized(a[j].base@) == k;
        assert(a.to_set().contains(a[j]));
        assert(b.contains(a[j]));
        let q = choose|q: int| 0 <= q < b.len() && b[q] == a[j];
        assert(!b[q].deleted && was_answered(b[q]) && normalized(b[q].base@) == k);
    }
    assert forall|k: Seq<char>| #[trigger] answered_bases(b).contains(k) implies answered_bases(a).contains(k) by {
        let j = choose|j: int|
            0 <= j < b.len() && !b[j].deleted && was_answered(b[j]) && normalized(b[j].base@) == k;
        assert(b.to_set().contains(b[j]));
        assert(a.contains(b[j]));
        let q = choose|q: int| 0 <= q < a.len() && a[q] == b[j];
        assert(!a[q].deleted && was_answered(a[q]) && normalized(a[q].base@) == k);
    }
    assert(live_bases(a).to_set() =~= live_bases(b).to_set());
    assert(answered_bases(a).to_set() =~= answered_bases(b).to_set());
}

/// Suspending or resuming expressions changes neither count.
pub proof fn lemma_suspension_changes_nothing(a: Seq<VocabItem>, b: Seq<VocabItem>)
    requires
        a.len() == b.len(),
        forall|j: int| 0 <= j < a.len() ==> (#[trigger] b[j]) == (VocabItem { suspended: b[j].suspended, ..a[j] }),
    ensures
        live_bases(a) == live_bases(b),
        answered_bases(a) == answered_bases(b),
    decreases a.len(),
{
    if a.len() > 0 {
        let n = a.len() - 1;
        assert forall|j: int| 0 <= j < n implies (#[trigger] b.drop_last()[j]) == (VocabItem {
            suspended: b.drop_last()[j].suspended,
            ..a.drop_last()[j]
        }) by {
            assert(b.drop_last()[j] == b[j]);
            assert(a.drop_last()[j] == a[j]);
        }
        lemma_suspension_changes_nothing(a.drop_last(), b.drop_last());
        assert(b[n] == (VocabItem { suspended: b[n].suspended, ..a[n] }));
        assert(a.last() == a[n] && b.last() == b[n]);
        assert(b[n].reviews == a[n].reviews);
        assert(was_answered(a[n]) == was_answered(b[n]));
    }
}

} // verus!
