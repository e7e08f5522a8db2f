//! Stable sorting by a text key, in the order of `str`'s comparison.
use crate::text::{lex_less, lex_less_chars};
use vstd::prelude::*;
use vstd::seq_lib::to_multiset_insert;

verus! {

/// A value that is sorted by a character sequence.
pub trait SortKey {
    /// The key the value is sorted by.
    spec fn sort_key(&self) -> Seq<char>;

    /// The key, computed.
    fn key_chars(&self) -> (k: Vec<char>)
        ensures
            k@ == self.sort_key(),
    ;
}

/// `lex_less` is irreflexive.
pub proof fn lemma_lex_irreflexive(a: Seq<char>)
    ensures
        !lex_less(a, a),
    decreases a.len(),
{
    if a.len() > 0 {
        lemma_lex_irreflexive(a.drop_first());
    }
}

/// `lex_less` is transitive.
pub proof fn lemma_lex_transitive(a: Seq<char>, b: Seq<char>, c: Seq<char>)
    requires
        lex_less(a, b),
        lex_less(b, c),
    ensures
        lex_less(a, c),
    decreases a.len(),
{
    if a.len() > 0 && b.len() > 0 && c.len() > 0 && a[0] == b[0] && b[0] == c[0] {
        lemma_lex_transitive(a.drop_first(), b.drop_first(), c.drop_first());
    }
}

/// `lex_less` is asymmetric.
pub proof fn lemma_lex_asymmetric(a: Seq<char>, b: Seq<char>)
    requires
        lex_less(a, b),
    ensures
        !lex_less(b, a),
{
    if lex_less(b, a) {
        lemma_lex_transitive(a, b, a);
        lemma_lex_irreflexive(a);
    }
}

/// `lex_less` is total on distinct sequences.
pub proof fn lemma_lex_total(a: Seq<char>, b: Seq<char>)
    requires
        a != b,
    ensures
        lex_less(a, b) || lex_less(b, a),
    decreases a.len(),
{
    if a.len() > 0 && b.len() > 0 {
        if a[0] == b[0] {
            if a.drop_first() == b.drop_first() {
                assert(a =~= seq![a[0]] + a.drop_first());
                assert(b =~= seq![b[0]] + b.drop_first());
            }
            lemma_lex_total(a.drop_first(), b.drop_first());
        } else {
            assert((a[0] as int) != (b[0] as int));
        }
    } else if a.len() == 0 && b.len() == 0 {
        assert(a =~= b);
    }
}

/// Where a value with key `k` goes in `r`: after every element whose key is
/// not greater than `k`.
pub open spec fn insert_pos<T: SortKey>(r: Seq<T>, k: Seq<char>) -> nat
    decreases r.len(),
{
    if r.len() == 0 {
        0
    } else if lex_less(k, r[0].sort_key()) {
        0
    } else {
        1 + insert_pos(r.drop_first(), k)
    }
}

/// `s` sorted by key, each element inserted after the earlier ones with a
/// key not greater than its own (so that equal keys keep their order).
pub open spec fn sorted_by_key<T: SortKey>(s: Seq<T>) -> Seq<T>
    decreases s.len(),
{
    if s.len() == 0 {
        s
    } else {
        let r = sorted_by_key(s.drop_last());
        r.insert(insert_pos(r, s.last().sort_key()) as int, s.last())
    }
}

/// Whether the keys of `s` never decrease.
pub open spec fn keys_ordered<T: SortKey>(s: Seq<T>) -> bool {
    forall|i: int, j: int|
        0 <= i < j < s.len() ==> !lex_less(#[trigger] s[j].sort_key(), #[trigger] s[i].sort_key())
}

proof fn lemma_insert_pos<T: SortKey>(r: Seq<T>, k: Seq<char>)
    ensures
        insert_pos(r, k) <= r.len(),
        forall|m: int| 0 <= m < insert_pos(r, k) ==> !lex_less(k, #[trigger] r[m].sort_key()),
        insert_pos(r, k) < r.len() ==> lex_less(k, r[insert_pos(r, k) as int].sort_key()),
    decreases r.len(),
{
    if r.len() > 0 && !lex_less(k, r[0].sort_key()) {
        lemma_insert_pos(r.drop_first(), k);
        assert forall|m: int| 0 <= m < insert_pos(r, k) implies !lex_less(
            k,
            #[trigger] r[m].sort_key(),
        ) by {
            if m > 0 {
                assert(r[m] == r.drop_first()[m - 1]);
            }
        }
    }
}

/// Sorting keeps the elements and orders the keys.
pub proof fn lemma_sorted_by_key<T: SortKey>(s: Seq<T>)
    ensures
        sorted_by_key(s).len() == s.len(),
        sorted_by_key(s).to_multiset() == s.to_multiset(),
        keys_ordered(sorted_by_key(s)),
    decreases s.len(),
{
    if s.len() > 0 {
        let r = sorted_by_key(s.drop_last());
        let x = s.last();
        let k = x.sort_key();
        lemma_sorted_by_key(s.drop_last());
        lemma_insert_pos(r, k);
        let p = insert_pos(r, k) as int;
        let t = r.insert(p, x);
        to_multiset_insert(r, p, x);
        assert(s =~= s.drop_last().push(x));
        vstd::seq_lib::to_multiset_build(s.drop_last(), x);
        assert forall|i: int, j: int| 0 <= i < j < t.len() implies !lex_less(
            #[trigger] t[j].sort_key(),
            #[trigger] t[i].sort_key(),
        ) by {
            if j < p {
                assert(t[i] == r[i] && t[j] == r[j]);
            } else if j == p {
                assert(t[i] == r[i]);
                assert(!lex_less(k, r[i].sort_key()));
            } else if i < p {
                assert(t[i] == r[i] && t[j] == r[j - 1]);
            } else if i == p {
                assert(t[j] == r[j - 1]);
                assert(lex_less(k, r[p].sort_key()));
                if lex_less(r[j - 1].sort_key(), k) {
                    if j - 1 == p {
                        lemma_lex_asymmetric(k, r[p].sort_key());
                    } else {
                        lemma_lex_transitive(r[j - 1].sort_key(), k, r[p].sort_key());
                        assert(!lex_less(r[j - 1].sort_key(), r[p].sort_key()));
                    }
                }
            } else {
                assert(t[i] == r[i - 1] && t[j] == r[j - 1]);
            }
        }
    }
}

/// Sorting a sequence whose keys are already in order leaves it as it is.
pub proof fn lemma_sorted_is_fixed<T: SortKey>(s: Seq<T>)
    requires
        keys_ordered(s),
    ensures
        sorted_by_key(s) == s,
    decreases s.len(),
{
    if s.len() > 0 {
        let r = s.drop_last();
        assert(keys_ordered(r)) by {
            assert forall|i: int, j: int| 0 <= i < j < r.len() implies !lex_less(
                #[trigger] r[j].sort_key(),
                #[trigger] r[i].sort_key(),
            ) by {
                assert(r[i] == s[i] && r[j] == s[j]);
            }
        }
        lemma_sorted_is_fixed(r);
        let k = s.last().sort_key();
        lemma_insert_pos(r, k);
        if insert_pos(r, k) < r.len() {
            let p = insert_pos(r, k) as int;
            assert(r[p] == s[p]);
            assert(!lex_less(s[s.len() - 1].sort_key(), s[p].sort_key()));
        }
        assert(r.insert(r.len() as int, s.last()) =~= s);
    }
}

fn upper_bound<T: SortKey>(keys: &Vec<Vec<char>>, k: &Vec<char>, Ghost(r): Ghost<Seq<T>>) -> (pos:
    usize)
    requires
        keys@.len() == r.len(),
        forall|j: int| 0 <= j < keys@.len() ==> (#[trigger] keys@[j])@ == r[j].sort_key(),
    ensures
        pos == insert_pos(r, k@),
{
    let mut i: usize = 0;
    assert(r.skip(0) =~= r);
    while i < keys.len() && !lex_less_chars(k, &keys[i])
        invariant
            i <= keys@.len(),
            keys@.len() == r.len(),
            forall|j: int| 0 <= j < keys@.len() ==> (#[trigger] keys@[j])@ == r[j].sort_key(),
            insert_pos(r, k@) == i + insert_pos(r.skip(i as int), k@),
        decreases keys.len() - i,
    {
        assert(r.skip(i as int)[0] == r[i as int]);
        assert(r.skip(i as int).drop_first() =~= r.skip(i + 1));
        i = i + 1;
    }
    if i < keys.len() {
        assert(r.skip(i as int)[0] == r[i as int]);
    }
    i
}

/// Sorts `v` by key, stably, as `sort_by` with a comparison of the keys does.
pub fn sort_by_key<T: SortKey>(v: &mut Vec<T>)
    ensures
        final(v)@ == sorted_by_key(old(v)@),
{
    let mut items: Vec<T> = Vec::new();
    std::mem::swap(&mut items, v);
    let ghost orig = items@;
    let total = items.len();
    assert(orig.len() == total);
    let mut keys: Vec<Vec<char>> = Vec::new();
    let mut done: usize = 0;
    assert(orig.take(0) =~= Seq::<T>::empty());
    assert(orig.skip(0) =~= orig);
    while items.len() > 0
        invariant
            v@ == sorted_by_key(orig.take(done as int)),
            items@ == orig.skip(done as int),
            done + items@.len() == orig.len(),
            orig.len() <= usize::MAX,
            keys@.len() == v@.len(),
            forall|j: int| 0 <= j < keys@.len() ==> (#[trigger] keys@[j])@ == v@[j].sort_key(),
        decreases items.len(),
    {
        let x = items.remove(0);
        let kx = x.key_chars();
        let ghost before = v@;
        let pos = upper_bound::<T>(&keys, &kx, Ghost(before));
        proof {
            lemma_insert_pos(before, kx@);
        }
        let ghost kbefore = keys@;
        v.insert(pos, x);
        keys.insert(pos, kx);
        proof {
            assert(orig.take(done + 1).drop_last() =~= orig.take(done as int));
            assert(orig.take(done + 1).last() == x);
            assert(items@ =~= orig.skip(done + 1));
            assert forall|j: int| 0 <= j < keys@.len() implies (#[trigger] keys@[j])@
                == v@[j].sort_key() by {
                if j < pos {
                } else if j == pos {
                } else {
                    assert(keys@[j] == kbefore[j - 1]);
                    assert(v@[j] == before[j - 1]);
                }
            }
        }
        done = done + 1;
    }
    assert(orig.take(done as int) =~= orig);
}

} // verus!
