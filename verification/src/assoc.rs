//! Association sequences: the mathematical model of the name-keyed tables
//! used throughout the library. Keys are character sequences; entries keep
//! their insertion order, and a put overwrites in place, so every derived
//! output has one deterministic order.

use vstd::prelude::*;

use crate::strutil::str_eq;

verus! {

/// Appends `x` unless it is already present: the insertion-ordered model of
/// a set of names.
pub open spec fn set_add(s: Seq<Seq<char>>, x: Seq<char>) -> Seq<Seq<char>> {
    if s.contains(x) {
        s
    } else {
        s.push(x)
    }
}

/// Pushes `x` onto `v` unless an equal string is already there.
pub fn set_push(v: &mut Vec<String>, x: &str)
    ensures
        final(v).deep_view() == set_add(old(v).deep_view(), x@),
{
    let ghost s = old(v).deep_view();
    let mut i: usize = 0;
    while i < v.len()
        invariant
            i <= v.len(),
            s == v.deep_view(),
            s.len() == v.len(),
            forall|j: int| 0 <= j < i ==> s[j] != x@,
        decreases v.len() - i,
    {
        if str_eq(v[i].as_str(), x) {
            proof {
                assert(s.contains(x@)) by {
                    assert(s[i as int] == x@);
                }
            }
            return ;
        }
        i = i + 1;
    }
    proof {
        assert(!s.contains(x@));
    }
    v.push(x.to_owned());
    proof {
        assert(v.deep_view() =~= s.push(x@));
    }
}

/// Finds the entry with key `k` in a string-keyed table.
pub fn al_find<V: DeepView>(v: &Vec<(String, V)>, k: &str) -> (r: Option<usize>)
    ensures
        (match r {
            Some(i) => al_contains(v.deep_view(), k@) && i == al_idx(v.deep_view(), k@),
            None => !al_contains(v.deep_view(), k@),
        }),
{
    let ghost s = v.deep_view();
    let mut i: usize = 0;
    while i < v.len()
        invariant
            i <= v.len(),
            s == v.deep_view(),
            s.len() == v.len(),
            forall|j: int| 0 <= j < i ==> s[j].0 != k@,
        decreases v.len() - i,
    {
        if str_eq(v[i].0.as_str(), k) {
            proof {
                lemma_al_idx_first(s, k@, i as int);
            }
            return Some(i);
        }
        i = i + 1;
    }
    proof {
        lemma_al_idx(s, k@);
    }
    None
}

/// Stores `value` under `k`, overwriting in place or appending.
pub fn al_store<V: DeepView>(v: &mut Vec<(String, V)>, k: &str, value: V)
    ensures
        final(v).deep_view() == al_put(old(v).deep_view(), k@, value.deep_view()),
{
    let ghost s = old(v).deep_view();
    let ghost dv = value.deep_view();
    match al_find(v, k) {
        Some(i) => {
            proof {
                lemma_al_idx(s, k@);
            }
            v.set(i, (k.to_owned(), value));
            proof {
                assert(v.deep_view() =~= s.update(al_idx(s, k@), (k@, dv)));
            }
        },
        None => {
            v.push((k.to_owned(), value));
            proof {
                assert(v.deep_view() =~= s.push((k@, dv)));
            }
        },
    }
}

/// The index of the first entry with key `k` at or after `i`, or `-1`.
pub open spec fn al_idx_from<V>(s: Seq<(Seq<char>, V)>, k: Seq<char>, i: int) -> int
    decreases s.len() - i,
{
    if i < 0 || i >= s.len() {
        -1
    } else if s[i].0 == k {
        i
    } else {
        al_idx_from(s, k, i + 1)
    }
}

/// The index of the first entry with key `k`, or `-1`.
pub open spec fn al_idx<V>(s: Seq<(Seq<char>, V)>, k: Seq<char>) -> int {
    al_idx_from(s, k, 0)
}

pub open spec fn al_contains<V>(s: Seq<(Seq<char>, V)>, k: Seq<char>) -> bool {
    al_idx(s, k) >= 0
}

/// The value under key `k`, if any.
pub open spec fn al_get<V>(s: Seq<(Seq<char>, V)>, k: Seq<char>) -> Option<V> {
    if al_contains(s, k) {
        Some(s[al_idx(s, k)].1)
    } else {
        None
    }
}

/// Overwrites the entry under `k` in place, or appends a new one.
pub open spec fn al_put<V>(s: Seq<(Seq<char>, V)>, k: Seq<char>, v: V) -> Seq<(Seq<char>, V)> {
    if al_contains(s, k) {
        s.update(al_idx(s, k), (k, v))
    } else {
        s.push((k, v))
    }
}

/// No two entries share a key.
pub open spec fn al_unique<V>(s: Seq<(Seq<char>, V)>) -> bool {
    forall|i: int, j: int| 0 <= i < j < s.len() ==> s[i].0 != s[j].0
}

/// What `al_idx_from` finds: the first matching index, or none at all.
pub proof fn lemma_al_idx_from<V>(s: Seq<(Seq<char>, V)>, k: Seq<char>, i: int)
    requires
        0 <= i <= s.len(),
    ensures
        al_idx_from(s, k, i) == -1 ==> forall|j: int| i <= j < s.len() ==> s[j].0 != k,
        al_idx_from(s, k, i) != -1 ==> {
            let x = al_idx_from(s, k, i);
            &&& i <= x < s.len()
            &&& s[x].0 == k
            &&& forall|j: int| i <= j < x ==> s[j].0 != k
        },
    decreases s.len() - i,
{
    if i < s.len() && s[i].0 != k {
        lemma_al_idx_from(s, k, i + 1);
    }
}

/// What `al_idx` finds.
pub proof fn lemma_al_idx<V>(s: Seq<(Seq<char>, V)>, k: Seq<char>)
    ensures
        !al_contains(s, k) ==> forall|j: int| 0 <= j < s.len() ==> s[j].0 != k,
        al_contains(s, k) ==> {
            let x = al_idx(s, k);
            &&& 0 <= x < s.len()
            &&& s[x].0 == k
            &&& forall|j: int| 0 <= j < x ==> s[j].0 != k
        },
{
    lemma_al_idx_from(s, k, 0);
}

/// A put leaves the table looked up at `k` holding `v` and every other key
/// unchanged; it keeps keys unique and never shortens the table.
pub proof fn lemma_al_put<V>(s: Seq<(Seq<char>, V)>, k: Seq<char>, v: V)
    requires
        al_unique(s),
    ensures
        al_unique(al_put(s, k, v)),
        al_get(al_put(s, k, v), k) == Some(v),
        forall|k2: Seq<char>| k2 != k ==> al_get(al_put(s, k, v), k2) == al_get(s, k2),
        al_contains(s, k) ==> al_put(s, k, v).len() == s.len(),
        !al_contains(s, k) ==> al_put(s, k, v).len() == s.len() + 1,
{
    lemma_al_idx(s, k);
    let t = al_put(s, k, v);
    if al_contains(s, k) {
        let x = al_idx(s, k);
        assert forall|k2: Seq<char>| k2 != k implies al_get(t, k2) == al_get(s, k2) by {
            lemma_al_idx_eq_except(s, t, k2, x);
        }
        lemma_al_idx_first(t, k, x);
    } else {
        assert forall|k2: Seq<char>| k2 != k implies al_get(t, k2) == al_get(s, k2) by {
            lemma_al_idx_push(s, k, v, k2);
        }
        lemma_al_idx_first(t, k, s.len() as int);
    }
}

/// If two tables of equal length agree on every entry except position `x`,
/// and both entries at `x` carry a key other than `k2`, lookups of `k2`
/// agree.
proof fn lemma_al_idx_eq_except<V>(
    s: Seq<(Seq<char>, V)>,
    t: Seq<(Seq<char>, V)>,
    k2: Seq<char>,
    x: int,
)
    requires
        s.len() == t.len(),
        0 <= x < s.len(),
        forall|j: int| 0 <= j < s.len() && j != x ==> s[j] == t[j],
        s[x].0 != k2,
        t[x].0 != k2,
    ensures
        al_get(s, k2) == al_get(t, k2),
{
    lemma_al_idx_agree_from(s, t, k2, x, 0);
}

proof fn lemma_al_idx_agree_from<V>(
    s: Seq<(Seq<char>, V)>,
    t: Seq<(Seq<char>, V)>,
    k2: Seq<char>,
    x: int,
    i: int,
)
    requires
        s.len() == t.len(),
        0 <= x < s.len(),
        forall|j: int| 0 <= j < s.len() && j != x ==> s[j] == t[j],
        s[x].0 != k2,
        t[x].0 != k2,
        0 <= i <= s.len(),
    ensures
        al_idx_from(s, k2, i) == al_idx_from(t, k2, i),
        al_idx_from(s, k2, i) >= 0 ==> s[al_idx_from(s, k2, i)].1 == t[al_idx_from(t, k2, i)].1,
    decreases s.len() - i,
{
    if i < s.len() {
        if s[i].0 == k2 {
        } else {
            lemma_al_idx_agree_from(s, t, k2, x, i + 1);
        }
    }
}

/// Appending an entry with key `k` does not change lookups of other keys.
proof fn lemma_al_idx_push<V>(s: Seq<(Seq<char>, V)>, k: Seq<char>, v: V, k2: Seq<char>)
    requires
        k2 != k,
    ensures
        al_get(s.push((k, v)), k2) == al_get(s, k2),
{
    lemma_al_idx_push_from(s, k, v, k2, 0);
}

proof fn lemma_al_idx_push_from<V>(
    s: Seq<(Seq<char>, V)>,
    k: Seq<char>,
    v: V,
    k2: Seq<char>,
    i: int,
)
    requires
        k2 != k,
        0 <= i <= s.len(),
    ensures
        al_idx_from(s.push((k, v)), k2, i) == al_idx_from(s, k2, i),
        al_idx_from(s, k2, i) >= 0 ==> s.push((k, v))[al_idx_from(s, k2, i)].1 == s[al_idx_from(
            s,
            k2,
            i,
        )].1,
    decreases s.len() - i,
{
    if i < s.len() {
        if s[i].0 == k2 {
        } else {
            lemma_al_idx_push_from(s, k, v, k2, i + 1);
        }
    } else {
        assert(s.push((k, v))[i].0 == k);
        assert(al_idx_from(s.push((k, v)), k2, i + 1) == -1);
    }
}

/// If position `x` holds key `k` and no earlier position does, the lookup
/// of `k` lands exactly on `x`.
pub proof fn lemma_al_idx_first<V>(t: Seq<(Seq<char>, V)>, k: Seq<char>, x: int)
    requires
        0 <= x < t.len(),
        t[x].0 == k,
        forall|j: int| 0 <= j < x ==> t[j].0 != k,
    ensures
        al_idx(t, k) == x,
{
    lemma_al_idx_first_from(t, k, x, 0);
}

proof fn lemma_al_idx_first_from<V>(t: Seq<(Seq<char>, V)>, k: Seq<char>, x: int, i: int)
    requires
        0 <= i <= x < t.len(),
        t[x].0 == k,
        forall|j: int| 0 <= j < x ==> t[j].0 != k,
    ensures
        al_idx_from(t, k, i) == x,
    decreases x - i,
{
    if i < x {
        lemma_al_idx_first_from(t, k, x, i + 1);
    }
}

} // verus!
