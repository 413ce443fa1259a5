//! Association lists: a sequence of pairs with unique keys, viewed as a map.
use vstd::prelude::*;

verus! {

/// No two entries of `s` have the same key under `kf`.
pub open spec fn keys_unique<A, B, K>(s: Seq<(A, B)>, kf: spec_fn(A) -> K) -> bool {
    forall|i: int, j: int|
        0 <= i < s.len() && 0 <= j < s.len() && i != j ==> kf(#[trigger] s[i].0) != kf(
            #[trigger] s[j].0,
        )
}

/// Some entry of `s` has key `k`.
pub open spec fn has_key<A, B, K>(s: Seq<(A, B)>, kf: spec_fn(A) -> K, k: K) -> bool {
    exists|i: int| 0 <= i < s.len() && kf(#[trigger] s[i].0) == k
}

/// The map from each key of `s` to the model of its value.
pub open spec fn assoc<A, B, K, V>(s: Seq<(A, B)>, kf: spec_fn(A) -> K, vf: spec_fn(B) -> V) -> Map<
    K,
    V,
> {
    Map::new(
        |k: K| has_key(s, kf, k),
        |k: K| vf(s[choose|i: int| 0 <= i < s.len() && kf(#[trigger] s[i].0) == k].1),
    )
}

pub proof fn lemma_assoc_at<A, B, K, V>(
    s: Seq<(A, B)>,
    kf: spec_fn(A) -> K,
    vf: spec_fn(B) -> V,
    i: int,
)
    requires
        keys_unique(s, kf),
        0 <= i < s.len(),
    ensures
        assoc(s, kf, vf).contains_key(kf(s[i].0)),
        assoc(s, kf, vf)[kf(s[i].0)] == vf(s[i].1),
{
    let k = kf(s[i].0);
    assert(has_key(s, kf, k));
    let j = choose|j: int| 0 <= j < s.len() && kf(#[trigger] s[j].0) == k;
    assert(j == i);
}

pub proof fn lemma_assoc_push<A, B, K, V>(
    s: Seq<(A, B)>,
    kf: spec_fn(A) -> K,
    vf: spec_fn(B) -> V,
    e: (A, B),
)
    requires
        keys_unique(s, kf),
        !has_key(s, kf, kf(e.0)),
    ensures
        keys_unique(s.push(e), kf),
        assoc(s.push(e), kf, vf) == assoc(s, kf, vf).insert(kf(e.0), vf(e.1)),
{
    let t = s.push(e);
    assert forall|i: int, j: int|
        0 <= i < t.len() && 0 <= j < t.len() && i != j implies kf(#[trigger] t[i].0) != kf(
        #[trigger] t[j].0,
    ) by {
        if i == s.len() {
            assert(t[j] == s[j]);
        } else if j == s.len() {
            assert(t[i] == s[i]);
        } else {
            assert(t[i] == s[i] && t[j] == s[j]);
        }
    }
    let m = assoc(s, kf, vf).insert(kf(e.0), vf(e.1));
    assert forall|k: K| #[trigger] has_key(t, kf, k) == m.contains_key(k) by {
        if has_key(s, kf, k) {
            let i = choose|i: int| 0 <= i < s.len() && kf(#[trigger] s[i].0) == k;
            assert(t[i] == s[i]);
        }
        if has_key(t, kf, k) {
            let i = choose|i: int| 0 <= i < t.len() && kf(#[trigger] t[i].0) == k;
            if i < s.len() {
                assert(t[i] == s[i]);
            }
        }
        assert(t[s.len() as int] == e);
    }
    assert forall|k: K| #[trigger] m.contains_key(k) implies assoc(t, kf, vf)[k] == m[k] by {
        if k == kf(e.0) {
            lemma_assoc_at(t, kf, vf, s.len() as int);
        } else {
            let i = choose|i: int| 0 <= i < s.len() && kf(#[trigger] s[i].0) == k;
            assert(t[i] == s[i]);
            lemma_assoc_at(t, kf, vf, i);
            lemma_assoc_at(s, kf, vf, i);
        }
    }
    assert(assoc(t, kf, vf) =~= m);
}

pub proof fn lemma_assoc_remove<A, B, K, V>(
    s: Seq<(A, B)>,
    kf: spec_fn(A) -> K,
    vf: spec_fn(B) -> V,
    i: int,
)
    requires
        keys_unique(s, kf),
        0 <= i < s.len(),
    ensures
        keys_unique(s.remove(i), kf),
        assoc(s.remove(i), kf, vf) == assoc(s, kf, vf).remove(kf(s[i].0)),
{
    let t = s.remove(i);
    assert forall|a: int, b: int|
        0 <= a < t.len() && 0 <= b < t.len() && a != b implies kf(#[trigger] t[a].0) != kf(
        #[trigger] t[b].0,
    ) by {
        let a2 = if a < i { a } else { a + 1 };
        let b2 = if b < i { b } else { b + 1 };
        assert(t[a] == s[a2] && t[b] == s[b2]);
    }
    let m = assoc(s, kf, vf).remove(kf(s[i].0));
    assert forall|k: K| #[trigger] has_key(t, kf, k) == m.contains_key(k) by {
        if has_key(s, kf, k) && k != kf(s[i].0) {
            let j = choose|j: int| 0 <= j < s.len() && kf(#[trigger] s[j].0) == k;
            let j2 = if j < i { j } else { j - 1 };
            assert(t[j2] == s[j]);
        }
        if has_key(t, kf, k) {
            let j = choose|j: int| 0 <= j < t.len() && kf(#[trigger] t[j].0) == k;
            let j2 = if j < i { j } else { j + 1 };
            assert(t[j] == s[j2]);
        }
    }
    assert forall|k: K| #[trigger] m.contains_key(k) implies assoc(t, kf, vf)[k] == m[k] by {
        let j = choose|j: int| 0 <= j < s.len() && kf(#[trigger] s[j].0) == k;
        let j2 = if j < i { j } else { j - 1 };
        assert(t[j2] == s[j]);
        lemma_assoc_at(t, kf, vf, j2);
        lemma_assoc_at(s, kf, vf, j);
    }
    assert(assoc(t, kf, vf) =~= m);
}

/// Two lists whose entries agree pointwise on keys and on value models give the same map.
pub proof fn lemma_assoc_agree<A, B, K, V>(
    s: Seq<(A, B)>,
    t: Seq<(A, B)>,
    kf: spec_fn(A) -> K,
    vf: spec_fn(B) -> V,
)
    requires
        keys_unique(s, kf),
        s.len() == t.len(),
        forall|i: int| 0 <= i < s.len() ==> kf(#[trigger] s[i].0) == kf(t[i].0),
        forall|i: int| 0 <= i < s.len() ==> vf(#[trigger] s[i].1) == vf(t[i].1),
    ensures
        keys_unique(t, kf),
        assoc(t, kf, vf) == assoc(s, kf, vf),
{
    assert forall|a: int, b: int|
        0 <= a < t.len() && 0 <= b < t.len() && a != b implies kf(#[trigger] t[a].0) != kf(
        #[trigger] t[b].0,
    ) by {
        assert(kf(s[a].0) == kf(t[a].0));
        assert(kf(s[b].0) == kf(t[b].0));
    }
    assert forall|k: K| #[trigger] has_key(t, kf, k) == has_key(s, kf, k) by {
        if has_key(s, kf, k) {
            let j = choose|j: int| 0 <= j < s.len() && kf(#[trigger] s[j].0) == k;
            assert(kf(t[j].0) == k);
        }
        if has_key(t, kf, k) {
            let j = choose|j: int| 0 <= j < t.len() && kf(#[trigger] t[j].0) == k;
            assert(kf(s[j].0) == k);
        }
    }
    assert forall|k: K| #[trigger] has_key(s, kf, k) implies assoc(t, kf, vf)[k] == assoc(
        s,
        kf,
        vf,
    )[k] by {
        let j = choose|j: int| 0 <= j < s.len() && kf(#[trigger] s[j].0) == k;
        assert(kf(t[j].0) == k);
        assert(vf(s[j].1) == vf(t[j].1));
        lemma_assoc_at(t, kf, vf, j);
        lemma_assoc_at(s, kf, vf, j);
    }
    assert(assoc(t, kf, vf) =~= assoc(s, kf, vf));
}

} // verus!
