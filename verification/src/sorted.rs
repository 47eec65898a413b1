//! Keyed entries kept in increasing key order, each key once with the value
//! it first came with: what a `BTreeMap` filled with `entry(k).or_insert(v)`
//! and then walked in order gives.
use vstd::prelude::*;

verus! {

/// `lt` is a strict total order.
pub open spec fn strict_total<K>(lt: spec_fn(K, K) -> bool) -> bool {
    &&& forall|x: K| !#[trigger] lt(x, x)
    &&& forall|x: K, y: K, z: K| #[trigger] lt(x, y) && #[trigger] lt(y, z) ==> lt(x, z)
    &&& forall|x: K, y: K| x != y ==> #[trigger] lt(x, y) || #[trigger] lt(y, x)
}

/// The value a key first comes with in the stream, if it comes at all.
pub open spec fn first_value<K, V>(stream: Seq<(K, V)>, k: K) -> Option<V>
    decreases stream.len(),
{
    if stream.len() == 0 {
        None
    } else {
        match first_value(stream.drop_last(), k) {
            Some(v) => Some(v),
            None => if stream.last().0 == k {
                Some(stream.last().1)
            } else {
                None
            },
        }
    }
}

/// The keys strictly increase along the entries.
pub open spec fn key_sorted<K, V>(e: Seq<(K, V)>, lt: spec_fn(K, K) -> bool) -> bool {
    forall|i: int, j: int| 0 <= i < j < e.len() ==> lt(#[trigger] e[i].0, #[trigger] e[j].0)
}

/// `e` holds each key of the stream once, with the value it first came with,
/// in increasing key order.
pub open spec fn first_entries<K, V>(
    stream: Seq<(K, V)>,
    e: Seq<(K, V)>,
    lt: spec_fn(K, K) -> bool,
) -> bool {
    &&& key_sorted(e, lt)
    &&& forall|x: (K, V)| #[trigger] e.contains(x) <==> first_value(stream, x.0) == Some(x.1)
}

/// The entries of the stream: each key once with its first value, in
/// increasing key order.
pub open spec fn sorted_first_entries<K, V>(
    stream: Seq<(K, V)>,
    lt: spec_fn(K, K) -> bool,
) -> Seq<(K, V)> {
    choose|e: Seq<(K, V)>| first_entries(stream, e, lt)
}

/// One more element of the stream whose key the entries already hold leaves
/// the entries as they are.
pub proof fn lemma_first_entries_skip<K, V>(
    stream: Seq<(K, V)>,
    e: Seq<(K, V)>,
    lt: spec_fn(K, K) -> bool,
    x: (K, V),
    i: int,
)
    requires
        first_entries(stream, e, lt),
        0 <= i < e.len(),
        e[i].0 == x.0,
    ensures
        first_entries(stream.push(x), e, lt),
{
    assert(e.contains(e[i]));
    assert(stream.push(x).drop_last() =~= stream);
    assert forall|y: (K, V)| #[trigger] e.contains(y) <==> first_value(stream.push(x), y.0) == Some(
        y.1,
    ) by {
        assert(first_value(stream.push(x), y.0) == match first_value(stream, y.0) {
            Some(v) => Some(v),
            None => if x.0 == y.0 {
                Some(x.1)
            } else {
                None
            },
        });
    }
}

/// One more element of the stream with a new key goes in at the position
/// where its key belongs.
pub proof fn lemma_first_entries_insert<K, V>(
    stream: Seq<(K, V)>,
    e: Seq<(K, V)>,
    lt: spec_fn(K, K) -> bool,
    x: (K, V),
    k: int,
)
    requires
        strict_total(lt),
        first_entries(stream, e, lt),
        0 <= k <= e.len(),
        forall|i: int| 0 <= i < k ==> lt(#[trigger] e[i].0, x.0),
        k < e.len() ==> !lt(e[k].0, x.0) && e[k].0 != x.0,
    ensures
        first_entries(stream.push(x), e.insert(k, x), lt),
{
    let e2 = e.insert(k, x);
    assert(stream.push(x).drop_last() =~= stream);
    if k < e.len() {
        assert(lt(x.0, e[k].0));
    }
    // the key is new
    assert(first_value(stream, x.0) is None) by {
        if first_value(stream, x.0) is Some {
            let v = first_value(stream, x.0).unwrap();
            assert(e.contains((x.0, v)));
            let m = choose|m: int| 0 <= m < e.len() && e[m] == (x.0, v);
            if m < k {
                assert(lt(e[m].0, x.0));
            } else if m > k {
                assert(lt(e[k].0, e[m].0));
            }
        }
    }
    assert forall|i: int, j: int| 0 <= i < j < e2.len() implies lt(#[trigger] e2[i].0, #[trigger] e2[j].0) by {
        if j < k {
            assert(e2[i] == e[i] && e2[j] == e[j]);
        } else if j == k {
            assert(e2[i] == e[i]);
        } else if i < k {
            assert(e2[i] == e[i] && e2[j] == e[j - 1]);
            assert(lt(e[i].0, x.0));
            if j - 1 > k {
                assert(lt(e[k].0, e[j - 1].0));
            }
            assert(lt(x.0, e[j - 1].0));
        } else if i == k {
            assert(e2[j] == e[j - 1]);
            if j - 1 > k {
                assert(lt(e[k].0, e[j - 1].0));
            }
        } else {
            assert(e2[i] == e[i - 1] && e2[j] == e[j - 1]);
        }
    }
    assert forall|y: (K, V)| #[trigger] e2.contains(y) <==> first_value(stream.push(x), y.0) == Some(
        y.1,
    ) by {
        assert(first_value(stream.push(x), y.0) == match first_value(stream, y.0) {
            Some(v) => Some(v),
            None => if x.0 == y.0 {
                Some(x.1)
            } else {
                None
            },
        });
        if e2.contains(y) {
            let m = choose|m: int| 0 <= m < e2.len() && e2[m] == y;
            if m < k {
                assert(e.contains(e[m]));
            } else if m > k {
                assert(e.contains(e[m - 1]));
            }
        }
        if first_value(stream.push(x), y.0) == Some(y.1) {
            if y == x {
                assert(e2[k] == x);
            } else {
                assert(e.contains(y));
                let m = choose|m: int| 0 <= m < e.len() && e[m] == y;
                if m < k {
                    assert(e2[m] == y);
                } else {
                    assert(e2[m + 1] == y);
                }
            }
        }
    }
}

/// Entries sorted strictly by a total order are determined by the set of
/// entries they hold.
proof fn lemma_sorted_unique<K, V>(a: Seq<(K, V)>, b: Seq<(K, V)>, lt: spec_fn(K, K) -> bool)
    requires
        strict_total(lt),
        key_sorted(a, lt),
        key_sorted(b, lt),
        forall|x: (K, V)| a.contains(x) <==> b.contains(x),
    ensures
        a == b,
    decreases a.len(),
{
    if a.len() == 0 {
        if b.len() > 0 {
            assert(b.contains(b[0]));
        }
        assert(a =~= b);
    } else {
        assert(a.contains(a[0]));
        assert(b.len() > 0);
        assert(b.contains(b[0]));
        let x = a[0];
        let y = b[0];
        let kb = choose|k: int| 0 <= k < b.len() && b[k] == x;
        let ka = choose|k: int| 0 <= k < a.len() && a[k] == y;
        if x != y {
            assert(kb > 0 && ka > 0);
            assert(lt(b[0].0, b[kb].0));
            assert(lt(a[0].0, a[ka].0));
            assert(lt(x.0, x.0));
        }
        let a1 = a.drop_first();
        let b1 = b.drop_first();
        assert forall|z: (K, V)| a1.contains(z) <==> b1.contains(z) by {
            if a1.contains(z) {
                let m = choose|m: int| 0 <= m < a1.len() && a1[m] == z;
                assert(a[m + 1] == z);
                assert(lt(a[0].0, a[m + 1].0));
                assert(a.contains(z));
                let n = choose|n: int| 0 <= n < b.len() && b[n] == z;
                if n == 0 {
                    assert(lt(x.0, x.0));
                }
                assert(b1[n - 1] == z);
            }
            if b1.contains(z) {
                let m = choose|m: int| 0 <= m < b1.len() && b1[m] == z;
                assert(b[m + 1] == z);
                assert(lt(b[0].0, b[m + 1].0));
                assert(b.contains(z));
                let n = choose|n: int| 0 <= n < a.len() && a[n] == z;
                if n == 0 {
                    assert(lt(x.0, x.0));
                }
                assert(a1[n - 1] == z);
            }
        }
        lemma_sorted_unique(a1, b1, lt);
        assert(a =~= seq![x] + a1);
        assert(b =~= seq![y] + b1);
    }
}

/// Entries that hold each key of the stream once with its first value, in
/// increasing order, are the entries of the stream.
pub proof fn lemma_first_entries_are_sorted_first_entries<K, V>(
    stream: Seq<(K, V)>,
    e: Seq<(K, V)>,
    lt: spec_fn(K, K) -> bool,
)
    requires
        strict_total(lt),
        first_entries(stream, e, lt),
    ensures
        sorted_first_entries(stream, lt) == e,
{
    let c = sorted_first_entries(stream, lt);
    assert(first_entries(stream, c, lt));
    assert forall|x: (K, V)| c.contains(x) <==> e.contains(x) by {}
    lemma_sorted_unique(c, e, lt);
}

/// The entries of the empty stream are none.
pub proof fn lemma_first_entries_empty<K, V>(lt: spec_fn(K, K) -> bool)
    ensures
        first_entries(Seq::<(K, V)>::empty(), Seq::<(K, V)>::empty(), lt),
{
}


/// Where a new key goes: after every key below it, before the others.
proof fn lemma_insert_position<K, V>(e: Seq<(K, V)>, k: K, lt: spec_fn(K, K) -> bool) -> (p: int)
    requires
        strict_total(lt),
        key_sorted(e, lt),
    ensures
        0 <= p <= e.len(),
        forall|i: int| 0 <= i < p ==> lt(#[trigger] e[i].0, k),
        p < e.len() ==> !lt(e[p].0, k),
    decreases e.len(),
{
    if e.len() == 0 {
        0
    } else if lt(e.last().0, k) {
        assert forall|i: int| 0 <= i < e.len() implies lt(#[trigger] e[i].0, k) by {
            if i < e.len() - 1 {
                assert(lt(e[i].0, e[e.len() - 1].0));
            }
        }
        e.len() as int
    } else {
        let d = e.drop_last();
        assert(key_sorted(d, lt)) by {
            assert forall|i: int, j: int| 0 <= i < j < d.len() implies lt(#[trigger] d[i].0, #[trigger] d[j].0) by {
                assert(d[i] == e[i] && d[j] == e[j]);
            }
        }
        let p = lemma_insert_position(d, k, lt);
        assert forall|i: int| 0 <= i < p implies lt(#[trigger] e[i].0, k) by {
            assert(d[i] == e[i]);
        }
        if p < d.len() {
            assert(d[p] == e[p]);
        }
        p
    }
}

/// Every stream has entries: each of its keys once with its first value, in
/// increasing key order.
pub proof fn lemma_first_entries_exist<K, V>(stream: Seq<(K, V)>, lt: spec_fn(K, K) -> bool)
    requires
        strict_total(lt),
    ensures
        exists|e: Seq<(K, V)>| first_entries(stream, e, lt),
    decreases stream.len(),
{
    if stream.len() == 0 {
        lemma_first_entries_empty::<K, V>(lt);
        assert(first_entries(stream, Seq::<(K, V)>::empty(), lt)) by {
            assert(stream =~= Seq::<(K, V)>::empty());
        }
    } else {
        let prefix = stream.drop_last();
        let x = stream.last();
        assert(stream =~= prefix.push(x));
        lemma_first_entries_exist(prefix, lt);
        let e = choose|e: Seq<(K, V)>| first_entries(prefix, e, lt);
        let p = lemma_insert_position(e, x.0, lt);
        if p < e.len() && e[p].0 == x.0 {
            lemma_first_entries_skip(prefix, e, lt, x, p);
            assert(first_entries(stream, e, lt));
        } else {
            lemma_first_entries_insert(prefix, e, lt, x, p);
            assert(first_entries(stream, e.insert(p, x), lt));
        }
    }
}

/// The entries of a stream hold each key of the stream once, with the value
/// it first came with, in increasing key order.
pub proof fn lemma_sorted_first_entries<K, V>(stream: Seq<(K, V)>, lt: spec_fn(K, K) -> bool)
    requires
        strict_total(lt),
    ensures
        first_entries(stream, sorted_first_entries(stream, lt), lt),
{
    lemma_first_entries_exist(stream, lt);
}

} // verus!
