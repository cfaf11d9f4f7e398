//! Stable insertion sorting by a total preorder, and the text order of
//! `str`.
use vstd::prelude::*;

use crate::text::text_le;

verus! {

/// `le` is a total preorder: any two elements compare, and comparisons chain.
pub open spec fn total_preorder<T>(le: spec_fn(T, T) -> bool) -> bool {
    &&& forall|a: T, b: T| #[trigger] le(a, b) || le(b, a)
    &&& forall|a: T, b: T, c: T| #[trigger] le(a, b) && #[trigger] le(b, c) ==> le(a, c)
}

/// Every element of `s` compares no later than every element after it.
pub open spec fn sorted_by<T>(s: Seq<T>, le: spec_fn(T, T) -> bool) -> bool {
    forall|i: int, j: int| 0 <= i < j < s.len() ==> le(#[trigger] s[i], #[trigger] s[j])
}

/// `x` inserted into `s` after every element that compares no later.
pub open spec fn insert_sorted<T>(s: Seq<T>, x: T, le: spec_fn(T, T) -> bool) -> Seq<T>
    decreases s.len(),
{
    if s.len() == 0 {
        seq![x]
    } else if le(s.last(), x) {
        s.push(x)
    } else {
        insert_sorted(s.drop_last(), x, le).push(s.last())
    }
}

/// `s` sorted by `le` by insertion, equal elements kept in their order.
pub open spec fn sort_sorted<T>(s: Seq<T>, le: spec_fn(T, T) -> bool) -> Seq<T>
    decreases s.len(),
{
    if s.len() == 0 {
        s
    } else {
        insert_sorted(sort_sorted(s.drop_last(), le), s.last(), le)
    }
}

proof fn lemma_insert_sorted<T>(s: Seq<T>, x: T, le: spec_fn(T, T) -> bool)
    requires
        total_preorder(le),
        sorted_by(s, le),
    ensures
        sorted_by(insert_sorted(s, x, le), le),
        insert_sorted(s, x, le).to_multiset() == s.to_multiset().insert(x),
    decreases s.len(),
{
    broadcast use vstd::seq_lib::group_to_multiset_ensures;

    if s.len() == 0 {
        assert(seq![x] =~= Seq::<T>::empty().push(x));
    } else {
        let last = s.last();
        let d = s.drop_last();
        assert(d.push(last) =~= s);
        if le(last, x) {
            let r = s.push(x);
            assert forall|i: int, j: int| 0 <= i < j < r.len() implies le(#[trigger] r[i], #[trigger] r[j]) by {
                if j == s.len() {
                    if i < s.len() - 1 {
                        assert(le(s[i], s[s.len() - 1]));
                    }
                    assert(r[i] == s[i]);
                }
            }
        } else {
            assert(sorted_by(d, le)) by {
                assert forall|i: int, j: int| 0 <= i < j < d.len() implies le(#[trigger] d[i], #[trigger] d[j]) by {
                    assert(d[i] == s[i] && d[j] == s[j]);
                }
            }
            lemma_insert_sorted(d, x, le);
            let t = insert_sorted(d, x, le);
            let r = t.push(last);
            assert(le(x, last));
            assert forall|k: int| 0 <= k < t.len() implies le(#[trigger] t[k], last) by {
                assert(t.to_multiset().count(t[k]) > 0);
                assert(d.to_multiset().insert(x).count(t[k]) > 0);
                if t[k] != x {
                    assert(d.to_multiset().count(t[k]) > 0);
                    assert(d.contains(t[k]));
                    let m = choose|m: int| 0 <= m < d.len() && d[m] == t[k];
                    assert(le(s[m], s[s.len() - 1]));
                }
            }
            assert forall|i: int, j: int| 0 <= i < j < r.len() implies le(#[trigger] r[i], #[trigger] r[j]) by {
                if j == t.len() {
                    assert(r[i] == t[i]);
                } else {
                    assert(r[i] == t[i] && r[j] == t[j]);
                }
            }
        }
    }
}

/// Sorting by a total preorder gives a sorted arrangement of the same
/// elements.
pub proof fn lemma_sort_sorted<T>(s: Seq<T>, le: spec_fn(T, T) -> bool)
    requires
        total_preorder(le),
    ensures
        sorted_by(sort_sorted(s, le), le),
        sort_sorted(s, le).to_multiset() == s.to_multiset(),
    decreases s.len(),
{
    broadcast use vstd::seq_lib::group_to_multiset_ensures;

    if s.len() > 0 {
        let d = s.drop_last();
        lemma_sort_sorted(d, le);
        lemma_insert_sorted(sort_sorted(d, le), s.last(), le);
        assert(d.push(s.last()) =~= s);
    }
}

/// The text order of `str` compares any two texts.
pub proof fn lemma_text_le_total(a: Seq<char>, b: Seq<char>)
    ensures
        text_le(a, b) || text_le(b, a),
    decreases a.len(),
{
    if a.len() > 0 && b.len() > 0 && a[0] == b[0] {
        lemma_text_le_total(a.drop_first(), b.drop_first());
    }
}

/// The text order of `str` chains.
pub proof fn lemma_text_le_transitive(a: Seq<char>, b: Seq<char>, c: Seq<char>)
    requires
        text_le(a, b),
        text_le(b, c),
    ensures
        text_le(a, c),
    decreases a.len(),
{
    if a.len() > 0 && b.len() > 0 && c.len() > 0 && a[0] == b[0] && b[0] == c[0] {
        lemma_text_le_transitive(a.drop_first(), b.drop_first(), c.drop_first());
    }
}

} // verus!
