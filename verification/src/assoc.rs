//! Keyed entity tables.
//!
//! The catalog stores displays, playlists and schedules as vectors of
//! `(key, value)` pairs with pairwise-distinct keys.  This module holds the
//! lookup, insert-or-replace, replace-if-present and remove operations that
//! every entity table shares, together with the lemmas that describe them
//! over the table's first-match lookup function.

use vstd::prelude::*;

use crate::ids::UuidVal;

verus! {

/// First-match lookup in an association sequence.
pub open spec fn spec_assoc_get<T>(s: Seq<(UuidVal, T)>, u: UuidVal) -> Option<T>
    decreases s.len(),
{
    if s.len() == 0 {
        None::<T>
    } else if s[0].0 == u {
        Some(s[0].1)
    } else {
        spec_assoc_get(s.drop_first(), u)
    }
}

/// No key occurs twice.
pub open spec fn keys_unique<T>(s: Seq<(UuidVal, T)>) -> bool {
    forall|i: int, j: int| 0 <= i < j < s.len() ==> s[i].0 != s[j].0
}

/// Lookup is `Some` exactly of the keys that occur, and returns the value
/// stored at the first occurrence.
pub proof fn lemma_assoc_get_characterizes<T>(s: Seq<(UuidVal, T)>, u: UuidVal)
    ensures
        spec_assoc_get(s, u) is Some ==> exists|i: int|
            0 <= i < s.len() && #[trigger] s[i].0 == u && Some(s[i].1) == spec_assoc_get(s, u),
        spec_assoc_get(s, u) is None ==> forall|i: int| 0 <= i < s.len() ==> s[i].0 != u,
    decreases s.len(),
{
    if s.len() > 0 && s[0].0 != u {
        lemma_assoc_get_characterizes(s.drop_first(), u);
        if spec_assoc_get(s, u) is Some {
            let i = choose|i: int|
                0 <= i < s.drop_first().len() && #[trigger] s.drop_first()[i].0 == u && Some(
                    s.drop_first()[i].1,
                ) == spec_assoc_get(s.drop_first(), u);
            assert(s[i + 1].0 == u && Some(s[i + 1].1) == spec_assoc_get(s, u));
        } else {
            assert(forall|i: int| 1 <= i < s.len() ==> s[i].0 != #[trigger] s[i].0 || s.drop_first()[i - 1] == s[i]);
            assert(forall|i: int| 1 <= i < s.len() ==> #[trigger] s[i] == s.drop_first()[i - 1]);
        }
    }
}

/// Find the index of a key, scanning front to back.
pub fn assoc_find<T>(v: &Vec<(UuidVal, T)>, u: UuidVal) -> (r: Option<usize>)
    ensures
        match r {
            Some(i) => i < v@.len() && v@[i as int].0 == u && forall|j: int|
                0 <= j < i ==> v@[j].0 != u,
            None => forall|j: int| 0 <= j < v@.len() ==> v@[j].0 != u,
        },
{
    let mut i: usize = 0;
    while i < v.len()
        invariant
            i <= v@.len(),
            forall|j: int| 0 <= j < i ==> v@[j].0 != u,
        decreases v@.len() - i,
    {
        if v[i].0.bits == u.bits {
            return Some(i);
        }
        i = i + 1;
    }
    None
}

/// Lookup agrees with the first occurrence of the key.
pub proof fn lemma_assoc_get_first<T>(s: Seq<(UuidVal, T)>, u: UuidVal, i: int)
    requires
        0 <= i < s.len(),
        s[i].0 == u,
        forall|j: int| 0 <= j < i ==> s[j].0 != u,
    ensures
        spec_assoc_get(s, u) == Some(s[i].1),
    decreases i,
{
    if i > 0 {
        assert(forall|j: int|
            0 <= j < i - 1 ==> #[trigger] s.drop_first()[j] == s[j + 1]);
        assert(s.drop_first()[i - 1] == s[i]);
        lemma_assoc_get_first(s.drop_first(), u, i - 1);
    }
}

/// Absence of the key everywhere means lookup misses.
pub proof fn lemma_assoc_get_none<T>(s: Seq<(UuidVal, T)>, u: UuidVal)
    requires
        forall|j: int| 0 <= j < s.len() ==> s[j].0 != u,
    ensures
        spec_assoc_get(s, u) is None,
    decreases s.len(),
{
    if s.len() > 0 {
        assert(forall|j: int|
            0 <= j < s.drop_first().len() ==> #[trigger] s.drop_first()[j] == s[j + 1]);
        lemma_assoc_get_none(s.drop_first(), u);
    }
}

/// Updating position `i` (which holds the key already) changes the lookup
/// of that key alone.
pub proof fn lemma_assoc_update<T>(s: Seq<(UuidVal, T)>, i: int, u: UuidVal, x: T, w: UuidVal)
    requires
        keys_unique(s),
        0 <= i < s.len(),
        s[i].0 == u,
    ensures
        spec_assoc_get(s.update(i, (u, x)), w) == if w == u {
            Some(x)
        } else {
            spec_assoc_get(s, w)
        },
        keys_unique(s.update(i, (u, x))),
    decreases i,
{
    let t = s.update(i, (u, x));
    assert(forall|p: int, q: int| 0 <= p < q < t.len() ==> t[p].0 != t[q].0) by {
        assert(forall|p: int| 0 <= p < t.len() && p != i ==> #[trigger] t[p] == s[p]);
    }
    if i == 0 {
        if w != u {
            assert(t.drop_first() =~= s.drop_first());
        }
    } else {
        assert(s[0].0 != u);
        assert(t[0] == s[0]);
        assert(keys_unique(s.drop_first())) by {
            assert(forall|p: int|
                0 <= p < s.drop_first().len() ==> #[trigger] s.drop_first()[p] == s[p + 1]);
        }
        assert(t.drop_first() =~= s.drop_first().update(i - 1, (u, x))) by {
            assert(forall|p: int|
                0 <= p < t.drop_first().len() ==> #[trigger] t.drop_first()[p] == t[p + 1]);
        }
        assert(s.drop_first()[i - 1] == s[i]);
        lemma_assoc_update(s.drop_first(), i - 1, u, x, w);
    }
}

/// Appending a fresh key extends the lookup at that key alone.
pub proof fn lemma_assoc_push<T>(s: Seq<(UuidVal, T)>, u: UuidVal, x: T, w: UuidVal)
    requires
        forall|j: int| 0 <= j < s.len() ==> s[j].0 != u,
    ensures
        spec_assoc_get(s.push((u, x)), w) == if w == u {
            Some(x)
        } else {
            spec_assoc_get(s, w)
        },
        keys_unique(s) ==> keys_unique(s.push((u, x))),
    decreases s.len(),
{
    let t = s.push((u, x));
    if keys_unique(s) {
        assert(forall|p: int, q: int| 0 <= p < q < t.len() ==> t[p].0 != t[q].0) by {
            assert(forall|p: int| 0 <= p < s.len() ==> #[trigger] t[p] == s[p]);
        }
    }
    if s.len() == 0 {
        assert(t[0] == (u, x));
        if w != u {
            assert(spec_assoc_get(t, w) == spec_assoc_get(t.drop_first(), w));
            assert(t.drop_first() =~= Seq::<(UuidVal, T)>::empty());
        }
    } else {
        assert(t[0] == s[0]);
        assert(s[0].0 != u);
        assert(forall|j: int|
            0 <= j < s.drop_first().len() ==> #[trigger] s.drop_first()[j] == s[j + 1]);
        lemma_assoc_push(s.drop_first(), u, x, w);
        assert(t.drop_first() =~= s.drop_first().push((u, x))) by {
            assert(forall|p: int|
                0 <= p < t.drop_first().len() ==> #[trigger] t.drop_first()[p] == t[p + 1]);
        }
    }
}

/// Removing position `i` (holding the key, keys unique) clears the lookup
/// of that key alone.
pub proof fn lemma_assoc_remove<T>(s: Seq<(UuidVal, T)>, i: int, w: UuidVal)
    requires
        keys_unique(s),
        0 <= i < s.len(),
    ensures
        spec_assoc_get(s.remove(i), w) == if w == s[i].0 {
            None::<T>
        } else {
            spec_assoc_get(s, w)
        },
        keys_unique(s.remove(i)),
    decreases i,
{
    let u = s[i].0;
    let t = s.remove(i);
    assert(forall|p: int, q: int| 0 <= p < q < t.len() ==> t[p].0 != t[q].0) by {
        assert(forall|p: int|
            0 <= p < t.len() ==> #[trigger] t[p] == (if p < i {
                s[p]
            } else {
                s[p + 1]
            }));
    }
    assert(keys_unique(s.drop_first())) by {
        assert(forall|p: int|
            0 <= p < s.drop_first().len() ==> #[trigger] s.drop_first()[p] == s[p + 1]);
    }
    if i == 0 {
        assert(t =~= s.drop_first());
        if w == u {
            lemma_assoc_get_characterizes(s.drop_first(), u);
            if spec_assoc_get(s.drop_first(), u) is Some {
                let p = choose|p: int|
                    0 <= p < s.drop_first().len() && #[trigger] s.drop_first()[p].0 == u && Some(
                        s.drop_first()[p].1,
                    ) == spec_assoc_get(s.drop_first(), u);
                assert(s[p + 1].0 == u);
                assert(false);
            }
        }
    } else {
        assert(t[0] == s[0]);
        assert(s[0].0 == s[0].0);
        assert(s.drop_first()[i - 1] == s[i]);
        lemma_assoc_remove(s.drop_first(), i - 1, w);
        assert(t.drop_first() =~= s.drop_first().remove(i - 1)) by {
            assert(forall|p: int|
                0 <= p < t.drop_first().len() ==> #[trigger] t.drop_first()[p] == t[p + 1]);
        }
        if w == u {
            assert(s[0].0 != u);
        }
    }
}

} // verus!
