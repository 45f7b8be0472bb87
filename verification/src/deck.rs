//! Importing teaching material: items replace those with the same id and the
//! others are added; the confirmation counts additions and changes.
use vstd::prelude::*;

verus! {

/// An item of teaching material: its id, its content as text, and the value
/// it stands for.
pub struct Record<T> {
    pub id: String,
    pub body: String,
    pub value: T,
}

/// The position of the first record with the given id.
pub open spec fn position_of<T>(deck: Seq<Record<T>>, id: Seq<char>) -> Option<int> {
    if exists|i: int| 0 <= i < deck.len() && deck[i].id@ == id {
        Some(
            choose|i: int|
                0 <= i < deck.len() && deck[i].id@ == id && forall|j: int| 0 <= j < i ==> deck[j].id@ != id,
        )
    } else {
        None
    }
}

/// The material after an import: each item in turn replaces the first
/// record with its id, or is appended when there is none.
pub open spec fn merged<T>(deck: Seq<Record<T>>, items: Seq<Record<T>>) -> Seq<Record<T>>
    decreases items.len(),
{
    if items.len() == 0 {
        deck
    } else {
        merge_one(merged(deck, items.drop_last()), items.last())
    }
}

/// The material after importing one item.
pub open spec fn merge_one<T>(d: Seq<Record<T>>, it: Record<T>) -> Seq<Record<T>> {
    match position_of(d, it.id@) {
        Some(i) => d.update(i, it),
        None => d.push(it),
    }
}

proof fn lemma_position_unique<T>(deck: Seq<Record<T>>, id: Seq<char>, i: int)
    requires
        0 <= i < deck.len(),
        deck[i].id@ == id,
        forall|j: int| 0 <= j < i ==> deck[j].id@ != id,
    ensures
        position_of(deck, id) == Some(i),
{
    let k = choose|k: int|
        0 <= k < deck.len() && deck[k].id@ == id && forall|j: int| 0 <= j < k ==> deck[j].id@ != id;
    assert(k == i) by {
        if k < i {
        } else if k > i {
            assert(deck[i].id@ != id);
        }
    }
}

fn find_id<T>(deck: &Vec<Record<T>>, id: &String) -> (r: Option<usize>)
    ensures
        match r {
            Some(i) => i < deck@.len() && position_of(deck@, id@) == Some(i as int),
            None => position_of(deck@, id@) is None,
        },
{
    let mut i: usize = 0;
    while i < deck.len()
        invariant
            i <= deck@.len(),
            forall|j: int| 0 <= j < i ==> deck@[j].id@ != id@,
        decreases deck@.len() - i,
    {
        if deck[i].id == *id {
            proof {
                lemma_position_unique(deck@, id@, i as int);
            }
            return Some(i);
        }
        i = i + 1;
    }
    None
}

fn merge_into<T>(deck: &mut Vec<Record<T>>, it: Record<T>)
    ensures
        final(deck)@ == merge_one(old(deck)@, it),
{
    match find_id(deck, &it.id) {
        Some(i) => {
            deck.set(i, it);
        },
        None => {
            deck.push(it);
        },
    }
}

/// Imports the items into the material.
pub fn merge_records<T>(deck: &mut Vec<Record<T>>, items: Vec<Record<T>>)
    ensures
        final(deck)@ == merged(old(deck)@, items@),
{
    let ghost orig = items@;
    let ghost d0 = deck@;
    let mut rest = items;
    let mut k: usize = 0;
    assert(orig.len() == rest.len());
    assert(orig.skip(0) == orig);
    while rest.len() > 0
        invariant
            k <= orig.len(),
            orig.len() <= usize::MAX,
            rest@ == orig.skip(k as int),
            deck@ == merged(d0, orig.take(k as int)),
        decreases rest@.len(),
    {
        let it = rest.remove(0);
        proof {
            assert(it == orig[k as int]);
            assert(orig.take(k as int + 1).drop_last() == orig.take(k as int));
            assert(orig.take(k as int + 1).last() == orig[k as int]);
            assert(rest@ == orig.skip(k as int + 1));
        }
        merge_into(deck, it);
        k = k + 1;
    }
    proof {
        assert(orig.take(k as int) == orig);
    }
}

/// The items whose id is not in the material yet.
pub open spec fn added_count<T>(deck: Seq<Record<T>>, items: Seq<Record<T>>) -> nat
    decreases items.len(),
{
    if items.len() == 0 {
        0
    } else {
        added_count(deck, items.drop_last()) + if position_of(deck, items.last().id@) is None {
            1nat
        } else {
            0
        }
    }
}

/// The items whose id is in the material with a different content.
pub open spec fn updated_count<T>(deck: Seq<Record<T>>, items: Seq<Record<T>>) -> nat
    decreases items.len(),
{
    if items.len() == 0 {
        0
    } else {
        let it = items.last();
        updated_count(deck, items.drop_last()) + if exists|j: int|
            0 <= j < deck.len() && deck[j].id@ == it.id@ && deck[j].body@ != it.body@ {
            1nat
        } else {
            0
        }
    }
}

fn changes_record<T>(deck: &Vec<Record<T>>, it: &Record<T>) -> (r: bool)
    ensures
        r == exists|j: int|
            0 <= j < deck@.len() && deck@[j].id@ == it.id@ && deck@[j].body@ != it.body@,
{
    let mut i: usize = 0;
    while i < deck.len()
        invariant
            i <= deck@.len(),
            forall|j: int| 0 <= j < i ==> !(deck@[j].id@ == it.id@ && deck@[j].body@ != it.body@),
        decreases deck@.len() - i,
    {
        if deck[i].id == it.id && !(deck[i].body == it.body) {
            return true;
        }
        i = i + 1;
    }
    false
}

/// The numbers shown before an import: items added, and items whose
/// content changes.
pub fn import_counts<T>(deck: &Vec<Record<T>>, items: &Vec<Record<T>>) -> (r: (usize, usize))
    ensures
        r.0 == added_count(deck@, items@),
        r.1 == updated_count(deck@, items@),
{
    let mut added: usize = 0;
    let mut updated: usize = 0;
    let mut k: usize = 0;
    while k < items.len()
        invariant
            k <= items@.len(),
            added == added_count(deck@, items@.take(k as int)),
            updated == updated_count(deck@, items@.take(k as int)),
            added <= k,
            updated <= k,
        decreases items@.len() - k,
    {
        proof {
            assert(items@.take(k as int + 1).drop_last() == items@.take(k as int));
            assert(items@.take(k as int + 1).last() == items@[k as int]);
        }
        let it = &items[k];
        if find_id(deck, &it.id).is_none() {
            added = added + 1;
        }
        if changes_record(deck, it) {
            updated = updated + 1;
        }
        k = k + 1;
    }
    assert(items@.take(items@.len() as int) == items@);
    (added, updated)
}

/// No two records share an id.
pub open spec fn ids_unique<T>(deck: Seq<Record<T>>) -> bool {
    forall|i: int, j: int| 0 <= i < j < deck.len() ==> deck[i].id@ != deck[j].id@
}

pub open spec fn has_id<T>(deck: Seq<Record<T>>, id: Seq<char>) -> bool {
    exists|i: int| 0 <= i < deck.len() && deck[i].id@ == id
}

/// An import keeps ids unique, keeps every id of the material, and every
/// imported id is in the material afterwards.
pub proof fn lemma_import_keeps_ids<T>(deck: Seq<Record<T>>, items: Seq<Record<T>>)
    requires
        ids_unique(deck),
    ensures
        ids_unique(merged(deck, items)),
        forall|id: Seq<char>| has_id(deck, id) ==> has_id(merged(deck, items), id),
        forall|k: int| 0 <= k < items.len() ==> has_id(merged(deck, items), #[trigger] items[k].id@),
    decreases items.len(),
{
    if items.len() > 0 {
        let d = merged(deck, items.drop_last());
        lemma_import_keeps_ids(deck, items.drop_last());
        assert(merged(deck, items) == merge_one(d, items.last()));
        let it = items.last();
        match position_of(d, it.id@) {
            Some(i) => {
                let p = choose|p: int|
                    0 <= p < d.len() && d[p].id@ == it.id@ && forall|j: int| 0 <= j < p ==> d[j].id@ != it.id@;
                assert(p == i);
                let m = d.update(i, it);
                assert(m == merged(deck, items));
                assert forall|x: int, y: int| 0 <= x < y < m.len() implies m[x].id@ != m[y].id@ by {
                    assert(d[x].id@ != d[y].id@);
                }
                assert forall|id: Seq<char>| has_id(deck, id) implies has_id(m, id) by {
                    assert(has_id(d, id));
                    let q = choose|q: int| 0 <= q < d.len() && d[q].id@ == id;
                    assert(m[q].id@ == id);
                }
                assert forall|k: int| 0 <= k < items.len() implies has_id(m, #[trigger] items[k].id@) by {
                    if k < items.len() - 1 {
                        assert(items.drop_last()[k] == items[k]);
                        assert(has_id(d, items[k].id@));
                        let q = choose|q: int| 0 <= q < d.len() && d[q].id@ == items[k].id@;
                        assert(m[q].id@ == items[k].id@);
                    } else {
                        assert(m[i].id@ == items[k].id@);
                    }
                }
            },
            None => {
                let m = d.push(it);
                assert(m == merged(deck, items));
                assert forall|x: int, y: int| 0 <= x < y < m.len() implies m[x].id@ != m[y].id@ by {
                    if y == d.len() {
                        assert(!(0 <= x < d.len() && d[x].id@ == it.id@));
                    }
                }
                assert forall|id: Seq<char>| has_id(deck, id) implies has_id(m, id) by {
                    assert(has_id(d, id));
                    let q = choose|q: int| 0 <= q < d.len() && d[q].id@ == id;
                    assert(m[q].id@ == id);
                }
                assert forall|k: int| 0 <= k < items.len() implies has_id(m, #[trigger] items[k].id@) by {
                    if k < items.len() - 1 {
                        assert(items.drop_last()[k] == items[k]);
                        assert(has_id(d, items[k].id@));
                        let q = choose|q: int| 0 <= q < d.len() && d[q].id@ == items[k].id@;
                        assert(m[q].id@ == items[k].id@);
                    } else {
                        assert(m[d.len() as int].id@ == items[k].id@);
                    }
                }
            },
        }
    }
}


/// After an import of items with distinct ids, each of them is in the
/// material with its own content.
pub proof fn lemma_import_holds_items<T>(deck: Seq<Record<T>>, items: Seq<Record<T>>)
    requires
        ids_unique(deck),
        ids_unique(items),
    ensures
        forall|k: int| 0 <= k < items.len() ==> merged(deck, items).contains(#[trigger] items[k]),
    decreases items.len(),
{
    if items.len() > 0 {
        let init = items.drop_last();
        let d = merged(deck, init);
        let it = items.last();
        assert(ids_unique(init)) by {
            assert forall|x: int, y: int| 0 <= x < y < init.len() implies init[x].id@ != init[y].id@ by {
                assert(init[x] == items[x]);
                assert(init[y] == items[y]);
                assert(items[x].id@ != items[y].id@);
            }
        }
        lemma_import_holds_items(deck, init);
        assert(merged(deck, items) == merge_one(d, it));
        let m = merge_one(d, it);
        assert forall|k: int| 0 <= k < items.len() implies m.contains(#[trigger] items[k]) by {
            if k == items.len() - 1 {
                match position_of(d, it.id@) {
                    Some(i) => {
                        lemma_position_found(d, it.id@);
                        assert(m == d.update(i, it));
                        assert(m[i] == it);
                    },
                    None => {
                        assert(m == d.push(it));
                        assert(m[d.len() as int] == it);
                    },
                }
            } else {
                assert(init[k] == items[k]);
                assert(d.contains(items[k]));
                let q = choose|q: int| 0 <= q < d.len() && d[q] == items[k];
                assert(items[k].id@ != it.id@);
                match position_of(d, it.id@) {
                    Some(i) => {
                        lemma_position_found(d, it.id@);
                        assert(m == d.update(i, it));
                        assert(q != i);
                        assert(m[q] == items[k]);
                    },
                    None => {
                        assert(m == d.push(it));
                        assert(m[q] == items[k]);
                    },
                }
            }
        }
    }
}


/// A position found by `position_of` holds the first record with the id.
proof fn lemma_position_found<T>(deck: Seq<Record<T>>, id: Seq<char>)
    requires
        position_of(deck, id) is Some,
    ensures
        0 <= position_of(deck, id)->0 < deck.len(),
        deck[position_of(deck, id)->0].id@ == id,
{
    let w = lemma_least_match(deck, id, deck.len() as int);
    assert(0 <= w < deck.len() && deck[w].id@ == id && forall|j: int| 0 <= j < w ==> deck[j].id@ != id);
}

proof fn lemma_least_match<T>(deck: Seq<Record<T>>, id: Seq<char>, n: int) -> (w: int)
    requires
        0 <= n <= deck.len(),
        exists|i: int| 0 <= i < n && deck[i].id@ == id,
    ensures
        0 <= w < n,
        deck[w].id@ == id,
        forall|j: int| 0 <= j < w ==> deck[j].id@ != id,
    decreases n,
{
    if exists|i: int| 0 <= i < n - 1 && deck[i].id@ == id {
        lemma_least_match(deck, id, n - 1)
    } else {
        n - 1
    }
}

} // verus!
