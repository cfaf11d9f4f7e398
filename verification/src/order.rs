//! Deterministic traversal of integer-keyed hash maps: keys are visited in
//! ascending order, whatever order the map's own iterator uses.
use std::collections::HashMap;
use vstd::prelude::*;
use vstd::std_specs::iter::IteratorSpec;

verus! {

broadcast use vstd::std_specs::hash::group_hash_axioms;

/// The members of `s` that are below `n`, in ascending order.
pub open spec fn keys_below(s: Set<u32>, n: nat) -> Seq<u32>
    decreases n,
{
    if n == 0 {
        Seq::empty()
    } else {
        let prev = keys_below(s, (n - 1) as nat);
        if s.contains((n - 1) as u32) {
            prev.push((n - 1) as u32)
        } else {
            prev
        }
    }
}

/// Every member of `s`, in ascending order.
pub open spec fn ascending(s: Set<u32>) -> Seq<u32> {
    keys_below(s, 0x1_0000_0000)
}

/// The members of `keys` that satisfy `p`, in their order.
pub open spec fn keys_where(keys: Seq<u32>, p: spec_fn(u32) -> bool) -> Seq<u32>
    decreases keys.len(),
{
    if keys.len() == 0 {
        Seq::empty()
    } else {
        let prev = keys_where(keys.drop_last(), p);
        if p(keys.last()) {
            prev.push(keys.last())
        } else {
            prev
        }
    }
}

/// The first member of `keys` that satisfies `p`.
pub open spec fn first_key_where(keys: Seq<u32>, p: spec_fn(u32) -> bool) -> Option<u32> {
    let found = keys_where(keys, p);
    if found.len() > 0 {
        Some(found[0])
    } else {
        None
    }
}

/// Extending a prefix of `keys` by one element extends the selection by
/// that element when it qualifies.
pub proof fn lemma_keys_where_step(keys: Seq<u32>, p: spec_fn(u32) -> bool, i: int)
    requires
        0 <= i < keys.len(),
    ensures
        keys_where(keys.take(i + 1), p) == if p(keys[i]) {
            keys_where(keys.take(i), p).push(keys[i])
        } else {
            keys_where(keys.take(i), p)
        },
{
    assert(keys.take(i + 1).drop_last() =~= keys.take(i));
}

/// Members of a selection satisfy the predicate and come from `keys`.
pub proof fn lemma_keys_where_members(keys: Seq<u32>, p: spec_fn(u32) -> bool)
    ensures
        forall|i: int| 0 <= i < keys_where(keys, p).len() ==> p(#[trigger] keys_where(keys, p)[i]) && keys.contains(keys_where(keys, p)[i]),
        forall|k: u32| keys.contains(k) && p(k) ==> keys_where(keys, p).contains(k),
    decreases keys.len(),
{
    if keys.len() > 0 {
        lemma_keys_where_members(keys.drop_last(), p);
        let prev = keys_where(keys.drop_last(), p);
        assert forall|i: int| 0 <= i < keys_where(keys, p).len() implies p(#[trigger] keys_where(keys, p)[i]) && keys.contains(keys_where(keys, p)[i]) by {
            if i < prev.len() {
                let j = choose|j: int| 0 <= j < keys.drop_last().len() && keys.drop_last()[j] == prev[i];
                assert(keys[j] == prev[i]);
            } else {
                assert(keys[keys.len() - 1] == keys.last());
            }
        }
        assert forall|k: u32| keys.contains(k) && p(k) implies keys_where(keys, p).contains(k) by {
            let j = choose|j: int| 0 <= j < keys.len() && keys[j] == k;
            if j < keys.len() - 1 {
                assert(keys.drop_last()[j] == k);
                assert(keys.drop_last().contains(k));
                assert(prev.contains(k));
                let t = choose|t: int| 0 <= t < prev.len() && prev[t] == k;
                assert(keys_where(keys, p)[t] == k);
            } else {
                assert(keys_where(keys, p)[prev.len() as int] == k);
            }
        }
    }
}

/// Members in `[a, b)` are absent, so the listing below `b` is the listing below `a`.
pub proof fn lemma_keys_below_gap(s: Set<u32>, a: nat, b: nat)
    requires
        a <= b <= 0x1_0000_0000,
        forall|k: u32| a <= k < b ==> !s.contains(k),
    ensures
        keys_below(s, b) == keys_below(s, a),
    decreases b,
{
    if b > a {
        lemma_keys_below_gap(s, a, (b - 1) as nat);
        assert(!s.contains((b - 1) as u32));
    }
}

/// The listing below `n` holds exactly the members below `n`, strictly increasing.
pub proof fn lemma_keys_below_members(s: Set<u32>, n: nat)
    requires
        n <= 0x1_0000_0000,
    ensures
        forall|i: int| 0 <= i < keys_below(s, n).len() ==> s.contains(#[trigger] keys_below(s, n)[i]) && keys_below(s, n)[i] < n,
        forall|i: int, j: int| 0 <= i < j < keys_below(s, n).len() ==> keys_below(s, n)[i] < keys_below(s, n)[j],
        forall|k: u32| s.contains(k) && k < n ==> keys_below(s, n).contains(k),
    decreases n,
{
    if n > 0 {
        lemma_keys_below_members(s, (n - 1) as nat);
        let prev = keys_below(s, (n - 1) as nat);
        if s.contains((n - 1) as u32) {
            assert forall|k: u32| s.contains(k) && k < n implies keys_below(s, n).contains(k) by {
                if k < n - 1 {
                    let i = choose|i: int| 0 <= i < prev.len() && prev[i] == k;
                    assert(keys_below(s, n)[i] == k);
                } else {
                    assert(keys_below(s, n)[prev.len() as int] == k);
                }
            }
        }
    }
}

/// The smallest key of `m` that is at least `lo`, if there is one.
fn min_key_from<V>(m: &HashMap<u32, V>, lo: u64) -> (r: Option<u32>)
    ensures
        match r {
            Some(k) => m@.dom().contains(k) && lo <= k && forall|j: u32| m@.dom().contains(j) && lo <= j ==> k <= j,
            None => forall|j: u32| m@.dom().contains(j) ==> j < lo,
        },
{
    let mut best: Option<u32> = None;
    let ghost all = vstd::std_specs::hash::spec_hash_map_iter(m).remaining();
    let ghost mut n: int = 0;
    for (k, _v) in it: m.iter()
        invariant
            it.seq() == all,
            n == it.index(),
            forall|i: int| 0 <= i < all.len() ==> m@.contains_key(*(#[trigger] all[i]).0),
            match best {
                Some(b) => m@.dom().contains(b) && lo <= b && forall|i: int| 0 <= i < n && lo <= *(#[trigger] all[i]).0 ==> b <= *all[i].0,
                None => forall|i: int| 0 <= i < n ==> *(#[trigger] all[i]).0 < lo,
            },
    {
        let key = *k;
        if lo <= key as u64 {
            match best {
                Some(b) => {
                    if key < b {
                        best = Some(key);
                    }
                },
                None => {
                    best = Some(key);
                },
            }
        }
        proof {
            n = n + 1;
        }
    }
    proof {
        assert forall|j: u32| m@.dom().contains(j) implies (match best {
            Some(b) => lo <= j ==> b <= j,
            None => j < lo,
        }) by {
            assert(all.contains((&j, &m@[j])));
            let i = choose|i: int| 0 <= i < all.len() && all[i] == (&j, &m@[j]);
            assert(*all[i].0 == j);
        }
    }
    best
}

/// Every key of `m`, in ascending order.
pub fn ascending_keys<V>(m: &HashMap<u32, V>) -> (r: Vec<u32>)
    ensures
        r@ == ascending(m@.dom()),
        forall|j: int| 0 <= j < r@.len() ==> m@.dom().contains(#[trigger] r@[j]),
{
    let mut r: Vec<u32> = Vec::new();
    let mut bound: u64 = 0;
    loop
        invariant
            bound <= 0x1_0000_0000,
            r@ == keys_below(m@.dom(), bound as nat),
        decreases 0x1_0000_0000 - bound,
    {
        match min_key_from(m, bound) {
            None => {
                proof {
                    lemma_keys_below_gap(m@.dom(), bound as nat, 0x1_0000_0000);
                    lemma_keys_below_members(m@.dom(), 0x1_0000_0000);
                }
                return r;
            },
            Some(k) => {
                proof {
                    lemma_keys_below_gap(m@.dom(), bound as nat, k as nat);
                }
                r.push(k);
                bound = k as u64 + 1;
            },
        }
    }
}

/// `i` is the first position of `s` whose element satisfies `p`.
pub open spec fn is_first<T>(s: Seq<T>, p: spec_fn(T) -> bool, i: int) -> bool {
    &&& 0 <= i < s.len()
    &&& p(s[i])
    &&& forall|j: int| 0 <= j < i ==> !p(#[trigger] s[j])
}

/// The first position of `s` whose element satisfies `p`.
pub open spec fn first_index<T>(s: Seq<T>, p: spec_fn(T) -> bool) -> Option<int> {
    if exists|i: int| is_first(s, p, i) {
        Some(choose|i: int| is_first(s, p, i))
    } else {
        None
    }
}

/// A first position is the first position.
pub proof fn lemma_first_index_at<T>(s: Seq<T>, p: spec_fn(T) -> bool, i: int)
    requires
        is_first(s, p, i),
    ensures
        first_index(s, p) == Some(i),
{
    let c = choose|c: int| is_first(s, p, c);
    assert(is_first(s, p, c));
    if c < i {
        assert(!p(s[c]));
    } else if i < c {
        assert(!p(s[i]));
    }
}

/// With no element satisfying `p` there is no first position.
pub proof fn lemma_first_index_none<T>(s: Seq<T>, p: spec_fn(T) -> bool)
    requires
        forall|j: int| 0 <= j < s.len() ==> !p(#[trigger] s[j]),
    ensures
        first_index(s, p) is None,
{
    if exists|i: int| is_first(s, p, i) {
        let c = choose|c: int| is_first(s, p, c);
        assert(!p(s[c]));
    }
}

} // verus!
