//! Stable sorting by a character-sequence key, as `slice::sort_by` does when
//! its comparator compares keys.

use vstd::prelude::*;
use crate::text::{chars_le, chars_le_exec, lemma_chars_le_total, lemma_chars_le_trans};

verus! {

/// Where a stable insertion puts `x` into `s`: after every trailing element
/// whose key is not above the key of `x`.
pub open spec fn insert_pos<T>(s: Seq<T>, x: T, key: spec_fn(T) -> Seq<char>) -> int
    decreases s.len(),
{
    if s.len() == 0 {
        0
    } else if chars_le(key(s.last()), key(x)) {
        s.len() as int
    } else {
        insert_pos(s.drop_last(), x, key)
    }
}

/// The stable sort of `s` by `key`: elements in ascending key order, equal
/// keys in their input order.
pub open spec fn stable_sorted<T>(s: Seq<T>, key: spec_fn(T) -> Seq<char>) -> Seq<T>
    decreases s.len(),
{
    if s.len() == 0 {
        s
    } else {
        let r = stable_sorted(s.drop_last(), key);
        r.insert(insert_pos(r, s.last(), key), s.last())
    }
}

/// `s` is in ascending key order.
pub open spec fn sorted_by<T>(s: Seq<T>, key: spec_fn(T) -> Seq<char>) -> bool {
    forall|i: int, j: int| 0 <= i < j < s.len() ==> chars_le(key(#[trigger] s[i]), key(#[trigger] s[j]))
}

proof fn lemma_insert_pos<T>(s: Seq<T>, x: T, key: spec_fn(T) -> Seq<char>)
    ensures
        0 <= insert_pos(s, x, key) <= s.len(),
        forall|i: int| insert_pos(s, x, key) <= i < s.len() ==> !chars_le(key(#[trigger] s[i]), key(x)),
        sorted_by(s, key) ==> forall|i: int| 0 <= i < insert_pos(s, x, key) ==> chars_le(key(#[trigger] s[i]), key(x)),
    decreases s.len(),
{
    if s.len() > 0 {
        let p = insert_pos(s, x, key);
        if chars_le(key(s.last()), key(x)) {
            if sorted_by(s, key) {
                assert forall|i: int| 0 <= i < p implies chars_le(key(#[trigger] s[i]), key(x)) by {
                    if i < s.len() - 1 {
                        lemma_chars_le_trans(key(s[i]), key(s[s.len() - 1]), key(x));
                    }
                }
            }
        } else {
            let t = s.drop_last();
            lemma_insert_pos(t, x, key);
            assert forall|i: int| p <= i < s.len() implies !chars_le(key(#[trigger] s[i]), key(x)) by {
                if i < s.len() - 1 {
                    assert(s[i] == t[i]);
                }
            }
            if sorted_by(s, key) {
                assert(sorted_by(t, key)) by {
                    assert forall|i: int, j: int| 0 <= i < j < t.len() implies chars_le(key(#[trigger] t[i]), key(#[trigger] t[j])) by {
                        assert(t[i] == s[i] && t[j] == s[j]);
                    }
                }
                assert forall|i: int| 0 <= i < p implies chars_le(key(#[trigger] s[i]), key(x)) by {
                    assert(t[i] == s[i]);
                }
            }
        }
    }
}

proof fn lemma_insert_sorted<T>(r: Seq<T>, x: T, key: spec_fn(T) -> Seq<char>)
    requires
        sorted_by(r, key),
    ensures
        sorted_by(r.insert(insert_pos(r, x, key), x), key),
        r.insert(insert_pos(r, x, key), x).to_multiset() =~= r.to_multiset().insert(x),
{
    let p = insert_pos(r, x, key);
    lemma_insert_pos(r, x, key);
    let t = r.insert(p, x);
    r.insert_ensures(p, x);
    assert forall|i: int, j: int| 0 <= i < j < t.len() implies chars_le(key(#[trigger] t[i]), key(#[trigger] t[j])) by {
        if j < p {
        } else if j == p {
        } else if i < p {
            assert(t[j] == r[j - 1]);
        } else if i == p {
            assert(t[j] == r[j - 1]);
            lemma_chars_le_total(key(r[j - 1]), key(x));
        } else {
            assert(t[i] == r[i - 1] && t[j] == r[j - 1]);
        }
    }
    assert(t.remove(p) =~= r);
    t.to_multiset_ensures();
    assert(t.contains(x)) by {
        assert(t[p] == x);
    }
}

/// The stable sort is sorted by the key and holds exactly the elements of
/// its input, as often as the input holds them.
pub proof fn lemma_stable_sorted<T>(s: Seq<T>, key: spec_fn(T) -> Seq<char>)
    ensures
        sorted_by(stable_sorted(s, key), key),
        stable_sorted(s, key).to_multiset() =~= s.to_multiset(),
        stable_sorted(s, key).len() == s.len(),
    decreases s.len(),
{
    if s.len() > 0 {
        let t = s.drop_last();
        lemma_stable_sorted(t, key);
        let r = stable_sorted(t, key);
        lemma_insert_sorted(r, s.last(), key);
        assert(t.push(s.last()) =~= s);
        t.to_multiset_ensures();
        stable_sorted(s, key).to_multiset_ensures();
    } else {
        s.to_multiset_ensures();
        vstd::multiset::lemma_multiset_empty_len(s.to_multiset());
    }
}

/// The stable sort keeps the elements' images under any `f`: the same
/// images occur, and images that were distinct stay distinct.
pub proof fn lemma_stable_sorted_images<T, U>(s: Seq<T>, key: spec_fn(T) -> Seq<char>, f: spec_fn(T) -> U)
    requires
        s.map_values(f).no_duplicates(),
    ensures
        stable_sorted(s, key).map_values(f).no_duplicates(),
        forall|u: U| stable_sorted(s, key).map_values(f).contains(u) <==> s.map_values(f).contains(u),
        stable_sorted(s, key).len() == s.len(),
    decreases s.len(),
{
    if s.len() > 0 {
        let t = s.drop_last();
        let x = s.last();
        assert(t.map_values(f) =~= s.map_values(f).drop_last());
        assert(t.map_values(f).no_duplicates()) by {
            assert forall|a: int, b: int| 0 <= a < b < t.map_values(f).len() implies t.map_values(f)[a] != t.map_values(f)[b] by {
                assert(s.map_values(f)[a] != s.map_values(f)[b]);
            }
        }
        lemma_stable_sorted_images(t, key, f);
        let r = stable_sorted(t, key);
        let p = insert_pos(r, x, key);
        lemma_insert_pos(r, x, key);
        let r2 = r.insert(p, x);
        r.insert_ensures(p, x);
        let rf = r.map_values(f);
        let r2f = r2.map_values(f);
        assert(!t.map_values(f).contains(f(x))) by {
            if t.map_values(f).contains(f(x)) {
                let i = choose|i: int| 0 <= i < t.map_values(f).len() && t.map_values(f)[i] == f(x);
                assert(s.map_values(f)[i] == s.map_values(f)[s.len() - 1]);
            }
        }
        assert(!rf.contains(f(x)));
        assert forall|i: int| 0 <= i < r2f.len() implies #[trigger] r2f[i] == (if i < p { rf[i] } else if i == p { f(x) } else { rf[i - 1] }) by {
        }
        assert(r2f.no_duplicates()) by {
            assert forall|a: int, b: int| 0 <= a < b < r2f.len() implies r2f[a] != r2f[b] by {
                if a == p {
                    assert(rf.contains(rf[b - 1]));
                } else if b == p {
                    assert(rf.contains(rf[a]));
                } else {
                    let a0 = if a < p { a } else { a - 1 };
                    let b0 = if b < p { b } else { b - 1 };
                    assert(rf[a0] != rf[b0]);
                }
            }
        }
        assert forall|u: U| r2f.contains(u) <==> s.map_values(f).contains(u) by {
            if r2f.contains(u) {
                let i = choose|i: int| 0 <= i < r2f.len() && r2f[i] == u;
                if i == p {
                    assert(s.map_values(f)[s.len() - 1] == u);
                } else {
                    let i0 = if i < p { i } else { i - 1 };
                    assert(rf.contains(rf[i0]));
                    assert(t.map_values(f).contains(u));
                    let j = choose|j: int| 0 <= j < t.map_values(f).len() && t.map_values(f)[j] == u;
                    assert(s.map_values(f)[j] == u);
                }
            }
            if s.map_values(f).contains(u) {
                let j = choose|j: int| 0 <= j < s.map_values(f).len() && s.map_values(f)[j] == u;
                if j == s.len() - 1 {
                    assert(r2f[p] == u);
                } else {
                    assert(t.map_values(f)[j] == u);
                    assert(t.map_values(f).contains(u));
                    assert(rf.contains(u));
                    let i = choose|i: int| 0 <= i < rf.len() && rf[i] == u;
                    let i2 = if i < p { i } else { i + 1 };
                    assert(r2f[i2] == u);
                }
            }
        }
    }
}

/// The key `k` read through `g`.
pub open spec fn key_through<T, U>(g: spec_fn(T) -> U, k: spec_fn(U) -> Seq<char>) -> spec_fn(T) -> Seq<char> {
    |t: T| k(g(t))
}

proof fn lemma_insert_pos_map<T, U>(s: Seq<T>, x: T, g: spec_fn(T) -> U, k: spec_fn(U) -> Seq<char>)
    ensures
        insert_pos(s.map_values(g), g(x), k) == insert_pos(s, x, key_through(g, k)),
    decreases s.len(),
{
    if s.len() > 0 {
        assert(s.map_values(g).drop_last() =~= s.drop_last().map_values(g));
        lemma_insert_pos_map(s.drop_last(), x, g, k);
    }
}

/// Sorting commutes with mapping the elements, when the key is read
/// through the map.
pub proof fn lemma_stable_sorted_map<T, U>(s: Seq<T>, g: spec_fn(T) -> U, k: spec_fn(U) -> Seq<char>)
    ensures
        stable_sorted(s.map_values(g), k) == stable_sorted(s, key_through(g, k)).map_values(g),
    decreases s.len(),
{
    if s.len() > 0 {
        let t = s.drop_last();
        assert(s.map_values(g).drop_last() =~= t.map_values(g));
        lemma_stable_sorted_map(t, g, k);
        let r = stable_sorted(t, key_through(g, k));
        lemma_insert_pos_map(r, s.last(), g, k);
        let p = insert_pos(r, s.last(), key_through(g, k));
        lemma_insert_pos(r, s.last(), key_through(g, k));
        assert(r.insert(p, s.last()).map_values(g) =~= r.map_values(g).insert(p, g(s.last())));
    } else {
        assert(s.map_values(g) =~= Seq::<U>::empty());
    }
}

/// Stable sort of `items` by precomputed keys: `keys[i]` is the key of
/// `items[i]`.
pub fn sort_by_keys<T>(items: Vec<T>, keys: Vec<Vec<char>>, Ghost(key): Ghost<spec_fn(T) -> Seq<char>>) -> (r: Vec<T>)
    requires
        items.len() == keys.len(),
        forall|i: int| 0 <= i < items.len() ==> (#[trigger] keys@[i])@ == key(items@[i]),
    ensures
        r@ == stable_sorted(items@, key),
{
    let ghost orig = items@;
    let mut items = items;
    let mut keys = keys;
    let mut out: Vec<T> = Vec::new();
    let mut out_keys: Vec<Vec<char>> = Vec::new();
    let ghost mut k: int = 0;
    assert(orig.skip(0) =~= orig);
    assert(orig.take(0) =~= Seq::<T>::empty());
    while items.len() > 0
        invariant
            0 <= k <= orig.len(),
            items@ == orig.skip(k),
            keys.len() == items.len(),
            forall|i: int| 0 <= i < items.len() ==> (#[trigger] keys@[i])@ == key(items@[i]),
            out@ == stable_sorted(orig.take(k), key),
            out_keys.len() == out.len(),
            forall|i: int| 0 <= i < out.len() ==> (#[trigger] out_keys@[i])@ == key(out@[i]),
        decreases items.len(),
    {
        let ghost old_items = items@;
        let ghost old_keys = keys@;
        let x = items.remove(0);
        let xk = keys.remove(0);
        proof {
            old_items.remove_ensures(0);
            old_keys.remove_ensures(0);
            assert(xk@ == key(x)) by {
                assert(old_keys[0]@ == key(old_items[0]));
            }
            assert forall|i: int| 0 <= i < items.len() implies (#[trigger] keys@[i])@ == key(items@[i]) by {
                assert(old_keys[i + 1]@ == key(old_items[i + 1]));
            }
        }
        let mut j: usize = out.len();
        let mut done = false;
        assert(out@.take(j as int) =~= out@);
        while j > 0 && !done
            invariant
                j <= out.len(),
                out_keys.len() == out.len(),
                forall|i: int| 0 <= i < out.len() ==> (#[trigger] out_keys@[i])@ == key(out@[i]),
                xk@ == key(x),
                insert_pos(out@, x, key) == insert_pos(out@.take(j as int), x, key),
                done ==> j > 0 && chars_le(key(out@[j - 1]), key(x)),
            decreases 2 * j + (if done { 0int } else { 1int }),
        {
            assert(out@.take(j as int).last() == out@[j - 1]);
            assert(out@.take(j as int).drop_last() =~= out@.take(j - 1));
            if chars_le_exec(&out_keys[j - 1], &xk) {
                done = true;
            } else {
                j = j - 1;
            }
        }
        proof {
            if j > 0 {
                assert(out@.take(j as int).last() == out@[j - 1]);
            }
            assert(insert_pos(out@.take(j as int), x, key) == j);
            assert(orig.take(k + 1).drop_last() =~= orig.take(k));
            assert(orig.take(k + 1).last() == x);
        }
        let ghost old_out = out@;
        let ghost old_out_keys = out_keys@;
        out.insert(j, x);
        out_keys.insert(j, xk);
        proof {
            old_out.insert_ensures(j as int, x);
            old_out_keys.insert_ensures(j as int, xk);
            assert forall|i: int| 0 <= i < out.len() implies (#[trigger] out_keys@[i])@ == key(out@[i]) by {
                if i < j {
                    assert(old_out_keys[i]@ == key(old_out[i]));
                } else if i > j {
                    assert(old_out_keys[i - 1]@ == key(old_out[i - 1]));
                }
            }
            assert(orig.skip(k + 1) =~= orig.skip(k).remove(0));
            k = k + 1;
        }
    }
    assert(orig.take(orig.len() as int) =~= orig);
    out
}

} // verus!
