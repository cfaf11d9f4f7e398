//! Lists that stand for sets: an element is added only where it is
//! missing, and removing it removes every copy.
use vstd::prelude::*;

verus! {

/// `s` with `x` appended, unless it already holds `x`.
pub open spec fn listed_with<T>(s: Seq<T>, x: T) -> Seq<T> {
    if s.contains(x) {
        s
    } else {
        s.push(x)
    }
}

/// `s` without any copy of `x`, the rest in order.
pub open spec fn listed_without<T>(s: Seq<T>, x: T) -> Seq<T> {
    s.filter(|y: T| y != x)
}

proof fn lemma_filter_keeps_all<T>(s: Seq<T>, x: T)
    requires
        !s.contains(x),
    ensures
        s.filter(|y: T| y != x) == s,
    decreases s.len(),
{
    reveal(Seq::filter);
    if s.len() > 0 {
        let d = s.drop_last();
        assert(!d.contains(x)) by {
            if d.contains(x) {
                let i = choose|i: int| 0 <= i < d.len() && d[i] == x;
                assert(s[i] == x);
            }
        }
        lemma_filter_keeps_all(d, x);
        assert(s[s.len() - 1] == s.last());
        assert(d.push(s.last()) =~= s);
    }
}

proof fn lemma_filter_from<T>(s: Seq<T>, p: spec_fn(T) -> bool)
    ensures
        forall|i: int| 0 <= i < s.filter(p).len() ==> s.contains(#[trigger] s.filter(p)[i]),
    decreases s.len(),
{
    reveal(Seq::filter);
    if s.len() > 0 {
        let d = s.drop_last();
        lemma_filter_from(d, p);
        let f = s.filter(p);
        assert forall|i: int| 0 <= i < f.len() implies s.contains(#[trigger] f[i]) by {
            if i < d.filter(p).len() {
                let j = choose|j: int| 0 <= j < d.len() && d[j] == d.filter(p)[i];
                assert(s[j] == d[j]);
            } else {
                assert(s[s.len() - 1] == s.last());
            }
        }
    }
}

/// Adding an element and then removing it gives the list back, when the
/// list did not hold it.
pub proof fn lemma_add_then_remove<T>(s: Seq<T>, x: T)
    requires
        !s.contains(x),
    ensures
        listed_without(listed_with(s, x), x) == s,
{
    reveal(Seq::filter);
    let t = s.push(x);
    assert(t.drop_last() =~= s);
    lemma_filter_keeps_all(s, x);
}

/// Adding an element twice is adding it once.
pub proof fn lemma_add_twice<T>(s: Seq<T>, x: T)
    ensures
        listed_with(listed_with(s, x), x) == listed_with(s, x),
{
    if !s.contains(x) {
        assert(s.push(x)[s.len() as int] == x);
    }
}

/// After adding, the list holds the element; after removing, it does not;
/// every other element is held after either exactly when it was before.
pub proof fn lemma_listed_membership<T>(s: Seq<T>, x: T, y: T)
    ensures
        listed_with(s, x).contains(x),
        !listed_without(s, x).contains(x),
        y != x ==> (listed_with(s, x).contains(y) == s.contains(y)),
        y != x ==> (listed_without(s, x).contains(y) == s.contains(y)),
{
    let p = |z: T| z != x;
    s.filter_lemma(p);
    if !s.contains(x) {
        assert(s.push(x)[s.len() as int] == x);
        if s.push(x).contains(y) && y != x {
            let i = choose|i: int| 0 <= i < s.push(x).len() && s.push(x)[i] == y;
            assert(s[i] == y);
        }
        if s.contains(y) {
            let i = choose|i: int| 0 <= i < s.len() && s[i] == y;
            assert(s.push(x)[i] == y);
        }
    }
    if y != x && s.contains(y) {
        let i = choose|i: int| 0 <= i < s.len() && s[i] == y;
        assert(p(s[i]));
    }
    let f = s.filter(p);
    lemma_filter_from(s, p);
    if f.contains(y) {
        let i = choose|i: int| 0 <= i < f.len() && f[i] == y;
        assert(s.contains(f[i]));
    }
}

} // verus!
