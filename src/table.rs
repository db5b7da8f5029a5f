//! Keyed tables held as sequences of entries: the map they stand for, and
//! sums of a weight over their entries.
use vstd::prelude::*;

verus! {

/// No key occurs in two entries.
pub open spec fn keys_unique<K, V>(s: Seq<(K, V)>) -> bool {
    forall|i: int, j: int|
        #![trigger s[i], s[j]]
        0 <= i < s.len() && 0 <= j < s.len() && s[i].0 == s[j].0 ==> i == j
}

/// Some entry has key `k`.
pub open spec fn has_key<K, V>(s: Seq<(K, V)>, k: K) -> bool {
    exists|i: int| 0 <= i < s.len() && #[trigger] s[i].0 == k
}

/// The map from each key to the value of its entry.
pub open spec fn entries_map<K, V>(s: Seq<(K, V)>) -> Map<K, V> {
    Map::new(
        |k: K| has_key(s, k),
        |k: K| s[choose|i: int| 0 <= i < s.len() && #[trigger] s[i].0 == k].1,
    )
}

/// The sum of `f` over the entries.
pub open spec fn tally<K, V>(s: Seq<(K, V)>, f: spec_fn(K, V) -> int) -> int
    decreases s.len(),
{
    if s.len() == 0 {
        0
    } else {
        tally(s.drop_last(), f) + f(s.last().0, s.last().1)
    }
}

/// The entry at `i` is what the map holds for its key.
pub proof fn lemma_entry_in_map<K, V>(s: Seq<(K, V)>, i: int)
    requires
        keys_unique(s),
        0 <= i < s.len(),
    ensures
        entries_map(s).contains_key(s[i].0),
        entries_map(s)[s[i].0] == s[i].1,
{
    let k = s[i].0;
    assert(has_key(s, k));
    let j = choose|j: int| 0 <= j < s.len() && #[trigger] s[j].0 == k;
    assert(s[j].0 == s[i].0);
}

/// A key that the map holds sits at some entry.
pub proof fn lemma_key_in_entries<K, V>(s: Seq<(K, V)>, k: K) -> (i: int)
    requires
        keys_unique(s),
        entries_map(s).contains_key(k),
    ensures
        0 <= i < s.len(),
        s[i].0 == k,
        entries_map(s)[k] == s[i].1,
{
    let i = choose|i: int| 0 <= i < s.len() && #[trigger] s[i].0 == k;
    lemma_entry_in_map(s, i);
    i
}

/// Appending an entry with a new key inserts it into the map and adds its weight.
pub proof fn lemma_push<K, V>(s: Seq<(K, V)>, k: K, v: V)
    requires
        keys_unique(s),
        !entries_map(s).contains_key(k),
    ensures
        keys_unique(s.push((k, v))),
        entries_map(s.push((k, v))) == entries_map(s).insert(k, v),
        forall|f: spec_fn(K, V) -> int| #[trigger] tally(s.push((k, v)), f) == tally(s, f) + f(k, v),
{
    let t = s.push((k, v));
    assert(!has_key(s, k));
    assert forall|i: int, j: int|
        #![trigger t[i], t[j]]
        0 <= i < t.len() && 0 <= j < t.len() && t[i].0 == t[j].0 implies i == j by {
        if i < s.len() && j < s.len() {
            assert(s[i] == t[i] && s[j] == t[j]);
        } else if i < s.len() {
            assert(s[i].0 == k);
        } else if j < s.len() {
            assert(s[j].0 == k);
        }
    }
    assert forall|x: K| #[trigger] entries_map(t).contains_key(x) == entries_map(s).insert(k, v).contains_key(x) by {
        if has_key(s, x) {
            let i = choose|i: int| 0 <= i < s.len() && #[trigger] s[i].0 == x;
            assert(t[i] == s[i]);
        }
        if x == k {
            assert(t[s.len() as int].0 == k);
        }
    }
    assert forall|x: K| #[trigger] entries_map(t).contains_key(x) implies entries_map(t)[x] == entries_map(s).insert(k, v)[x] by {
        let i = lemma_key_in_entries(t, x);
        if i < s.len() {
            assert(t[i] == s[i]);
            lemma_entry_in_map(s, i);
        }
    }
    assert(entries_map(t) =~= entries_map(s).insert(k, v));
    assert forall|f: spec_fn(K, V) -> int| #[trigger] tally(t, f) == tally(s, f) + f(k, v) by {
        assert(t.drop_last() =~= s);
    }
}

/// Replacing the value of the entry at `i` updates the map and swaps the weights.
pub proof fn lemma_update<K, V>(s: Seq<(K, V)>, i: int, v: V)
    requires
        keys_unique(s),
        0 <= i < s.len(),
    ensures
        keys_unique(s.update(i, (s[i].0, v))),
        entries_map(s.update(i, (s[i].0, v))) == entries_map(s).insert(s[i].0, v),
        forall|f: spec_fn(K, V) -> int| #[trigger] tally(s.update(i, (s[i].0, v)), f)
            == tally(s, f) - f(s[i].0, s[i].1) + f(s[i].0, v),
{
    let k = s[i].0;
    let t = s.update(i, (k, v));
    assert forall|a: int, b: int|
        #![trigger t[a], t[b]]
        0 <= a < t.len() && 0 <= b < t.len() && t[a].0 == t[b].0 implies a == b by {
        assert(t[a].0 == s[a].0 && t[b].0 == s[b].0);
    }
    assert forall|x: K| #[trigger] entries_map(t).contains_key(x) == entries_map(s).insert(k, v).contains_key(x) by {
        if has_key(s, x) {
            let j = choose|j: int| 0 <= j < s.len() && #[trigger] s[j].0 == x;
            assert(t[j].0 == x);
        }
        if has_key(t, x) {
            let j = choose|j: int| 0 <= j < t.len() && #[trigger] t[j].0 == x;
            assert(s[j].0 == x);
        }
        if x == k {
            assert(t[i].0 == k);
        }
    }
    assert forall|x: K| #[trigger] entries_map(t).contains_key(x) implies entries_map(t)[x] == entries_map(s).insert(k, v)[x] by {
        let j = lemma_key_in_entries(t, x);
        if j != i {
            assert(t[j] == s[j]);
            lemma_entry_in_map(s, j);
        }
    }
    assert(entries_map(t) =~= entries_map(s).insert(k, v));
    assert forall|f: spec_fn(K, V) -> int| #[trigger] tally(t, f) == tally(s, f) - f(k, s[i].1) + f(k, v) by {
        lemma_tally_update(s, i, (k, v), f);
    }
}

proof fn lemma_tally_update<K, V>(s: Seq<(K, V)>, i: int, e: (K, V), f: spec_fn(K, V) -> int)
    requires
        0 <= i < s.len(),
    ensures
        tally(s.update(i, e), f) == tally(s, f) - f(s[i].0, s[i].1) + f(e.0, e.1),
    decreases s.len(),
{
    let t = s.update(i, e);
    if i == s.len() - 1 {
        assert(t.drop_last() =~= s.drop_last());
    } else {
        assert(t.drop_last() =~= s.drop_last().update(i, e));
        lemma_tally_update(s.drop_last(), i, e, f);
    }
}

proof fn lemma_tally_remove<K, V>(s: Seq<(K, V)>, i: int, f: spec_fn(K, V) -> int)
    requires
        0 <= i < s.len(),
    ensures
        tally(s.remove(i), f) == tally(s, f) - f(s[i].0, s[i].1),
    decreases s.len(),
{
    let t = s.remove(i);
    if i == s.len() - 1 {
        assert(t =~= s.drop_last());
    } else {
        assert(t.drop_last() =~= s.drop_last().remove(i));
        assert(t.last() == s.last());
        lemma_tally_remove(s.drop_last(), i, f);
    }
}

/// Removing the entry at `i` removes its key from the map and subtracts its weight.
pub proof fn lemma_remove<K, V>(s: Seq<(K, V)>, i: int)
    requires
        keys_unique(s),
        0 <= i < s.len(),
    ensures
        keys_unique(s.remove(i)),
        entries_map(s.remove(i)) == entries_map(s).remove(s[i].0),
        forall|f: spec_fn(K, V) -> int| #[trigger] tally(s.remove(i), f) == tally(s, f) - f(s[i].0, s[i].1),
{
    let k = s[i].0;
    let t = s.remove(i);
    assert forall|a: int| 0 <= a < t.len() implies #[trigger] t[a] == s[if a < i { a } else { a + 1 }] by {}
    assert forall|a: int, b: int|
        #![trigger t[a], t[b]]
        0 <= a < t.len() && 0 <= b < t.len() && t[a].0 == t[b].0 implies a == b by {
        let a1 = if a < i { a } else { a + 1 };
        let b1 = if b < i { b } else { b + 1 };
        assert(t[a] == s[a1] && t[b] == s[b1]);
    }
    assert forall|x: K| #[trigger] entries_map(t).contains_key(x) == entries_map(s).remove(k).contains_key(x) by {
        if has_key(t, x) {
            let a = choose|a: int| 0 <= a < t.len() && #[trigger] t[a].0 == x;
            let a1 = if a < i { a } else { a + 1 };
            assert(t[a] == s[a1]);
            assert(s[a1].0 == x);
            assert(x != k);
        }
        if has_key(s, x) && x != k {
            let j = choose|j: int| 0 <= j < s.len() && #[trigger] s[j].0 == x;
            assert(j != i);
            let j1 = if j < i { j } else { j - 1 };
            assert(t[j1] == s[j]);
        }
    }
    assert forall|x: K| #[trigger] entries_map(t).contains_key(x) implies entries_map(t)[x] == entries_map(s).remove(k)[x] by {
        let a = lemma_key_in_entries(t, x);
        let a1 = if a < i { a } else { a + 1 };
        assert(t[a] == s[a1]);
        lemma_entry_in_map(s, a1);
    }
    assert(entries_map(t) =~= entries_map(s).remove(k));
    assert forall|f: spec_fn(K, V) -> int| #[trigger] tally(t, f) == tally(s, f) - f(k, s[i].1) by {
        lemma_tally_remove(s, i, f);
    }
}

/// With weights that are never negative, one entry's weight is at most the sum.
pub proof fn lemma_entry_le_tally<K, V>(s: Seq<(K, V)>, i: int, f: spec_fn(K, V) -> int)
    requires
        0 <= i < s.len(),
        forall|j: int| 0 <= j < s.len() ==> #[trigger] f(s[j].0, s[j].1) >= 0,
    ensures
        f(s[i].0, s[i].1) <= tally(s, f),
    decreases s.len(),
{
    lemma_tally_nonnegative(s.drop_last(), f);
    if i < s.len() - 1 {
        assert(s.drop_last()[i] == s[i]);
        assert forall|j: int| 0 <= j < s.drop_last().len() implies #[trigger] f(s.drop_last()[j].0, s.drop_last()[j].1) >= 0 by {
            assert(s.drop_last()[j] == s[j]);
        }
        lemma_entry_le_tally(s.drop_last(), i, f);
    }
    assert(f(s.last().0, s.last().1) >= 0);
}

pub proof fn lemma_tally_nonnegative<K, V>(s: Seq<(K, V)>, f: spec_fn(K, V) -> int)
    ensures
        (forall|j: int| 0 <= j < s.len() ==> #[trigger] f(s[j].0, s[j].1) >= 0) ==> tally(s, f) >= 0,
    decreases s.len(),
{
    if s.len() > 0 {
        lemma_tally_nonnegative(s.drop_last(), f);
        if forall|j: int| 0 <= j < s.len() ==> #[trigger] f(s[j].0, s[j].1) >= 0 {
            assert forall|j: int| 0 <= j < s.drop_last().len() implies #[trigger] f(s.drop_last()[j].0, s.drop_last()[j].1) >= 0 by {
                assert(s.drop_last()[j] == s[j]);
            }
            assert(f(s.last().0, s.last().1) >= 0);
        }
    }
}

/// With weights that are zero on every entry, the sum is zero.
pub proof fn lemma_tally_zero<K, V>(s: Seq<(K, V)>, f: spec_fn(K, V) -> int)
    requires
        forall|j: int| 0 <= j < s.len() ==> f(#[trigger] s[j].0, s[j].1) == 0,
    ensures
        tally(s, f) == 0,
    decreases s.len(),
{
    if s.len() > 0 {
        assert forall|j: int| 0 <= j < s.drop_last().len() implies f(#[trigger] s.drop_last()[j].0, s.drop_last()[j].1) == 0 by {
            assert(s.drop_last()[j] == s[j]);
        }
        lemma_tally_zero(s.drop_last(), f);
        assert(f(s[s.len() - 1].0, s[s.len() - 1].1) == 0);
    }
}

/// A weight that is nowhere larger than another has no larger sum.
pub proof fn lemma_tally_le<K, V>(s: Seq<(K, V)>, f: spec_fn(K, V) -> int, g: spec_fn(K, V) -> int)
    requires
        forall|j: int| 0 <= j < s.len() ==> f(#[trigger] s[j].0, s[j].1) <= g(s[j].0, s[j].1),
    ensures
        tally(s, f) <= tally(s, g),
    decreases s.len(),
{
    if s.len() > 0 {
        assert forall|j: int| 0 <= j < s.drop_last().len() implies f(#[trigger] s.drop_last()[j].0, s.drop_last()[j].1)
            <= g(s.drop_last()[j].0, s.drop_last()[j].1) by {
            assert(s.drop_last()[j] == s[j]);
        }
        lemma_tally_le(s.drop_last(), f, g);
        assert(f(s[s.len() - 1].0, s[s.len() - 1].1) <= g(s[s.len() - 1].0, s[s.len() - 1].1));
    }
}

} // verus!
