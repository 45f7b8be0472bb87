//! Counting distinct texts.
use vstd::prelude::*;

verus! {

/// The characters of each string.
pub open spec fn texts(keys: Seq<String>) -> Seq<Seq<char>> {
    keys.map_values(|s: String| s@)
}

/// Whether `key` is among `keys`.
pub fn contains_text(keys: &Vec<String>, key: &String) -> (r: bool)
    ensures
        r == texts(keys@).contains(key@),
{
    let mut i: usize = 0;
    while i < keys.len()
        invariant
            i <= keys@.len(),
            forall|j: int| 0 <= j < i ==> keys@[j]@ != key@,
        decreases keys@.len() - i,
    {
        if keys[i] == *key {
            assert(texts(keys@)[i as int] == key@);
            return true;
        }
        i = i + 1;
    }
    assert forall|j: int| 0 <= j < texts(keys@).len() implies texts(keys@)[j] != key@ by {
        assert(texts(keys@)[j] == keys@[j]@);
    }
    false
}

/// The number of different texts among `keys`.
pub fn count_distinct(keys: &Vec<String>) -> (r: usize)
    ensures
        r == texts(keys@).to_set().len(),
{
    let mut uniq: Vec<String> = Vec::new();
    let mut i: usize = 0;
    while i < keys.len()
        invariant
            i <= keys@.len(),
            uniq@.len() <= i,
            texts(uniq@).no_duplicates(),
            texts(uniq@).to_set() == texts(keys@.take(i as int)).to_set(),
        decreases keys@.len() - i,
    {
        let k = keys[i].clone();
        let ghost prev = uniq@;
        let present = contains_text(&uniq, &k);
        proof {
            assert(keys@.take(i as int + 1) == keys@.take(i as int).push(keys@[i as int]));
            assert(texts(keys@.take(i as int + 1)) =~= texts(keys@.take(i as int)).push(k@));
            lemma_push_to_set(texts(keys@.take(i as int)), k@);
        }
        if !present {
            uniq.push(k);
            proof {
                assert(uniq@ == prev.push(k));
                assert(texts(uniq@) =~= texts(prev).push(k@));
                lemma_push_to_set(texts(prev), k@);
                assert forall|a: int, b: int|
                    0 <= a < texts(uniq@).len() && 0 <= b < texts(uniq@).len() && a != b implies
                    texts(uniq@)[a] != texts(uniq@)[b] by {
                    if a < prev.len() && b < prev.len() {
                    } else if a == prev.len() {
                        assert(texts(prev)[b] == texts(uniq@)[b]);
                    } else {
                        assert(texts(prev)[a] == texts(uniq@)[a]);
                    }
                }
            }
        } else {
            proof {
                assert(texts(uniq@).to_set().contains(k@));
                assert(texts(uniq@).to_set().insert(k@) =~= texts(uniq@).to_set());
            }
        }
        i = i + 1;
    }
    proof {
        assert(keys@.take(keys@.len() as int) == keys@);
        texts(uniq@).unique_seq_to_set();
    }
    uniq.len()
}

proof fn lemma_push_to_set(s: Seq<Seq<char>>, x: Seq<char>)
    ensures
        s.push(x).to_set() =~= s.to_set().insert(x),
{
    assert forall|y: Seq<char>| s.push(x).contains(y) <==> (s.contains(y) || y == x) by {
        if s.push(x).contains(y) {
            let j = choose|j: int| 0 <= j < s.push(x).len() && s.push(x)[j] == y;
            if j < s.len() {
                assert(s[j] == y);
            }
        }
        if s.contains(y) {
            let j = choose|j: int| 0 <= j < s.len() && s[j] == y;
            assert(s.push(x)[j] == y);
        }
        if y == x {
            assert(s.push(x)[s.len() as int] == y);
        }
    }
    assert forall|y: Seq<char>| #[trigger] s.push(x).to_set().contains(y) == s.to_set().insert(
        x,
    ).contains(y) by {
        assert(s.push(x).to_set().contains(y) == s.push(x).contains(y));
        assert(s.to_set().contains(y) == s.contains(y));
    }
}

/// Whether two lists hold the same texts in the same order.
pub open spec fn same_texts(a: Seq<String>, b: Seq<String>) -> bool {
    a.len() == b.len() && forall|i: int| 0 <= i < a.len() ==> (#[trigger] a[i])@ == b[i]@
}

/// Whether two lists hold the same texts in the same order.
pub fn texts_equal(a: &Vec<String>, b: &Vec<String>) -> (r: bool)
    ensures
        r == same_texts(a@, b@),
{
    if a.len() != b.len() {
        return false;
    }
    let mut i: usize = 0;
    while i < a.len()
        invariant
            a@.len() == b@.len(),
            i <= a@.len(),
            forall|j: int| 0 <= j < i ==> (#[trigger] a@[j])@ == b@[j]@,
        decreases a@.len() - i,
    {
        if !(a[i] == b[i]) {
            return false;
        }
        i = i + 1;
    }
    true
}

} // verus!
