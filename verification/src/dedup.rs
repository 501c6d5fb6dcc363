//! Order-preserving deduplication of binding requirements.
//!
//! Merging binding requirements walks the collected sequence front to
//! back and keeps each identity the first time it is seen.  The lemmas
//! here pin down the three facts the engine's callers rely on: the result
//! has no duplicate identities, it has exactly the identities of its
//! input, and it lists them in first-occurrence order.

use vstd::prelude::*;
use crate::binding::{Binding, BindingView};

verus! {

/// The deduplicated form of a binding sequence: each binding identity
/// kept at its first occurrence, in scan order.
pub open spec fn dedup_bindings(s: Seq<BindingView>) -> Seq<BindingView>
    decreases s.len(),
{
    if s.len() == 0 {
        Seq::empty()
    } else {
        let prefix = dedup_bindings(s.drop_last());
        if prefix.contains(s.last()) {
            prefix
        } else {
            prefix.push(s.last())
        }
    }
}

/// How many times a binding identity occurs in a sequence.
pub open spec fn count_of(s: Seq<BindingView>, b: BindingView) -> nat
    decreases s.len(),
{
    if s.len() == 0 {
        0
    } else {
        count_of(s.drop_last(), b) + if s.last() == b {
            1nat
        } else {
            0nat
        }
    }
}

/// The position of the first occurrence of `b` in `s` (meaningful when
/// `s` contains `b`).
pub open spec fn first_index(s: Seq<BindingView>, b: BindingView) -> int
    decreases s.len(),
{
    if s.len() == 0 {
        0
    } else if s[0] == b {
        0
    } else {
        1 + first_index(s.drop_first(), b)
    }
}

/// When `s` contains `b`, `first_index` really is the least index of `b`.
pub proof fn lemma_first_index_is_first(s: Seq<BindingView>, b: BindingView)
    requires
        s.contains(b),
    ensures
        0 <= first_index(s, b) < s.len(),
        s[first_index(s, b)] == b,
        forall|k: int| 0 <= k < first_index(s, b) ==> s[k] != b,
    decreases s.len(),
{
    if s[0] == b {
    } else {
        assert(s.drop_first().contains(b)) by {
            let i = choose|i: int| 0 <= i < s.len() && s[i] == b;
            assert(s.drop_first()[i - 1] == b);
        }
        lemma_first_index_is_first(s.drop_first(), b);
        assert forall|k: int| 0 <= k < first_index(s, b) implies s[k] != b by {
            if k >= 1 {
                assert(s[k] == s.drop_first()[k - 1]);
                assert(s.drop_first()[k - 1] != b);
            }
        }
    }
}

/// Dropping the last element does not move an earlier first occurrence.
pub proof fn lemma_first_index_drop_last(s: Seq<BindingView>, b: BindingView)
    requires
        s.len() > 0,
        s.drop_last().contains(b),
    ensures
        first_index(s, b) == first_index(s.drop_last(), b),
    decreases s.len(),
{
    if s.drop_last()[0] == b {
        assert(s[0] == b);
    } else {
        assert(s[0] != b);
        assert(s.drop_first().drop_last() =~= s.drop_last().drop_first());
        assert(s.drop_first().drop_last().contains(b)) by {
            let i = choose|i: int| 0 <= i < s.drop_last().len() && s.drop_last()[i] == b;
            assert(s.drop_last().drop_first()[i - 1] == b);
        }
        lemma_first_index_drop_last(s.drop_first(), b);
    }
}

/// A binding that appears only as the last element has its first
/// occurrence there.
pub proof fn lemma_first_index_last(s: Seq<BindingView>, b: BindingView)
    requires
        s.len() > 0,
        s.last() == b,
        !s.drop_last().contains(b),
    ensures
        first_index(s, b) == s.len() - 1,
    decreases s.len(),
{
    if s.len() == 1 {
        assert(s[0] == b);
    } else {
        assert(s.drop_last()[0] == s[0]);
        assert(s[0] != b);
        assert(s.drop_first().drop_last() =~= s.drop_last().drop_first());
        assert(!s.drop_first().drop_last().contains(b)) by {
            if s.drop_first().drop_last().contains(b) {
                let i = choose|i: int|
                    0 <= i < s.drop_first().drop_last().len() && s.drop_first().drop_last()[i]
                        == b;
                assert(s.drop_last()[i + 1] == b);
            }
        }
        assert(s.drop_first().last() == b);
        lemma_first_index_last(s.drop_first(), b);
    }
}

/// Deduplication keeps exactly the identities of its input.
pub proof fn lemma_dedup_membership(s: Seq<BindingView>, b: BindingView)
    ensures
        dedup_bindings(s).contains(b) <==> s.contains(b),
    decreases s.len(),
{
    if s.len() == 0 {
    } else {
        lemma_dedup_membership(s.drop_last(), b);
        assert(s.contains(b) <==> (s.drop_last().contains(b) || s.last() == b)) by {
            if s.contains(b) {
                let i = choose|i: int| 0 <= i < s.len() && s[i] == b;
                if i < s.len() - 1 {
                    assert(s.drop_last()[i] == b);
                }
            }
            if s.drop_last().contains(b) {
                let i = choose|i: int| 0 <= i < s.drop_last().len() && s.drop_last()[i] == b;
                assert(s[i] == b);
            }
        }
        let prefix = dedup_bindings(s.drop_last());
        if !prefix.contains(s.last()) {
            assert(prefix.push(s.last()).contains(b) <==> (prefix.contains(b) || s.last() == b))
                by {
                if prefix.push(s.last()).contains(b) {
                    let i = choose|i: int|
                        0 <= i < prefix.push(s.last()).len() && prefix.push(s.last())[i] == b;
                    if i < prefix.len() {
                        assert(prefix[i] == b);
                    }
                }
                if prefix.contains(b) {
                    let i = choose|i: int| 0 <= i < prefix.len() && prefix[i] == b;
                    assert(prefix.push(s.last())[i] == b);
                }
                if s.last() == b {
                    assert(prefix.push(s.last())[prefix.len() as int] == b);
                }
            }
        }
    }
}

/// Deduplication leaves no two equal identities behind.
pub proof fn lemma_dedup_no_duplicates(s: Seq<BindingView>)
    ensures
        forall|i: int, j: int|
            0 <= i < j < dedup_bindings(s).len() ==> dedup_bindings(s)[i] != dedup_bindings(s)[j],
    decreases s.len(),
{
    if s.len() > 0 {
        lemma_dedup_no_duplicates(s.drop_last());
        let prefix = dedup_bindings(s.drop_last());
        let d = dedup_bindings(s);
        if !prefix.contains(s.last()) {
            assert forall|i: int, j: int| 0 <= i < j < d.len() implies d[i] != d[j] by {
                if j == d.len() - 1 {
                    assert(prefix[i] == d[i]);
                    assert(!prefix.contains(d[j]));
                }
            }
        }
    }
}

/// Deduplication lists identities in first-occurrence order.
pub proof fn lemma_dedup_first_occurrence_order(s: Seq<BindingView>)
    ensures
        forall|i: int|
            0 <= i < dedup_bindings(s).len() ==> s.contains(#[trigger] dedup_bindings(s)[i]),
        forall|i: int, j: int|
            0 <= i < j < dedup_bindings(s).len() ==> first_index(s, dedup_bindings(s)[i])
                < first_index(s, dedup_bindings(s)[j]),
    decreases s.len(),
{
    if s.len() > 0 {
        lemma_dedup_first_occurrence_order(s.drop_last());
        let prefix = dedup_bindings(s.drop_last());
        let d = dedup_bindings(s);
        assert forall|i: int| 0 <= i < d.len() implies s.contains(#[trigger] d[i]) by {
            lemma_dedup_membership(s.drop_last(), d[i]);
            lemma_dedup_membership(s, d[i]);
            if i < prefix.len() {
                assert(s.drop_last().contains(prefix[i]));
                let k = choose|k: int|
                    0 <= k < s.drop_last().len() && s.drop_last()[k] == prefix[i];
                assert(s[k] == d[i]);
            } else {
                assert(s[s.len() - 1] == d[i]);
            }
        }
        assert forall|i: int, j: int|
            0 <= i < j < d.len() implies first_index(s, d[i]) < first_index(s, d[j]) by {
            lemma_dedup_membership(s.drop_last(), d[i]);
            if j < prefix.len() {
                lemma_dedup_membership(s.drop_last(), d[j]);
                lemma_first_index_drop_last(s, d[i]);
                lemma_first_index_drop_last(s, d[j]);
            } else {
                // j points at the freshly appended last element of s
                if prefix.contains(s.last()) {
                    lemma_dedup_membership(s.drop_last(), d[j]);
                    lemma_first_index_drop_last(s, d[i]);
                    lemma_first_index_drop_last(s, d[j]);
                } else {
                    assert(d[j] == s.last());
                    lemma_dedup_membership(s.drop_last(), s.last());
                    lemma_first_index_last(s, s.last());
                    lemma_first_index_drop_last(s, d[i]);
                    lemma_first_index_is_first(s.drop_last(), d[i]);
                }
            }
        }
    }
}

/// Deduplicating is idempotent: a deduplicated sequence is left as it is.
pub proof fn lemma_dedup_idempotent(s: Seq<BindingView>)
    ensures
        dedup_bindings(dedup_bindings(s)) == dedup_bindings(s),
    decreases s.len(),
{
    if s.len() > 0 {
        lemma_dedup_idempotent(s.drop_last());
        let prefix = dedup_bindings(s.drop_last());
        if !prefix.contains(s.last()) {
            let d = prefix.push(s.last());
            assert(d.drop_last() =~= prefix);
            assert(d.last() == s.last());
        }
    }
}

/// A left merge argument may be deduplicated first: walking an already
/// deduplicated left sequence and then the right one keeps first
/// occurrences just as one scan over both does.
pub proof fn lemma_dedup_merge_left(s: Seq<BindingView>, t: Seq<BindingView>)
    ensures
        dedup_bindings(dedup_bindings(s) + t) == dedup_bindings(s + t),
    decreases t.len(),
{
    if t.len() == 0 {
        assert(dedup_bindings(s) + t =~= dedup_bindings(s));
        assert(s + t =~= s);
        lemma_dedup_idempotent(s);
    } else {
        lemma_dedup_merge_left(s, t.drop_last());
        assert((dedup_bindings(s) + t).drop_last() =~= dedup_bindings(s) + t.drop_last());
        assert((dedup_bindings(s) + t).last() == t.last());
        assert((s + t).drop_last() =~= s + t.drop_last());
        assert((s + t).last() == t.last());
    }
}

/// A right merge argument may be deduplicated first, too.
pub proof fn lemma_dedup_merge_right(s: Seq<BindingView>, t: Seq<BindingView>)
    ensures
        dedup_bindings(s + dedup_bindings(t)) == dedup_bindings(s + t),
    decreases t.len(),
{
    if t.len() == 0 {
        assert(s + dedup_bindings(t) =~= s);
        assert(s + t =~= s);
    } else {
        lemma_dedup_merge_right(s, t.drop_last());
        let prefix = dedup_bindings(t.drop_last());
        assert((s + t).drop_last() =~= s + t.drop_last());
        assert((s + t).last() == t.last());
        if prefix.contains(t.last()) {
            // the last element occurred earlier, so one scan drops it too
            lemma_dedup_membership(t.drop_last(), t.last());
            assert((s + t.drop_last()).contains(t.last())) by {
                let i = choose|i: int|
                    0 <= i < t.drop_last().len() && t.drop_last()[i] == t.last();
                assert((s + t.drop_last())[s.len() + i] == t.last());
            }
            lemma_dedup_membership(s + t.drop_last(), t.last());
            assert(dedup_bindings(s + t) == dedup_bindings(s + t.drop_last()));
        } else {
            assert((s + prefix.push(t.last())).drop_last() =~= s + prefix);
            assert((s + prefix.push(t.last())).last() == t.last());
        }
    }
}

/// Merging two already deduplicated requirement sequences — walk the
/// left one, then the right one, keeping each identity the first time it
/// is seen — agrees with deduplicating the combined scan in one pass, so
/// merging at every level of a tree and deduplicating once at the root
/// give the same requirement list.
pub proof fn lemma_merge_deduplicated(a: Seq<BindingView>, b: Seq<BindingView>)
    ensures
        dedup_bindings(dedup_bindings(a) + dedup_bindings(b)) == dedup_bindings(a + b),
{
    lemma_dedup_merge_left(a, dedup_bindings(b));
    lemma_dedup_merge_right(a, b);
}

/// In a sequence without duplicates, an identity that occurs, occurs once.
pub proof fn lemma_count_in_distinct_seq(s: Seq<BindingView>, b: BindingView)
    requires
        forall|i: int, j: int| 0 <= i < j < s.len() ==> s[i] != s[j],
    ensures
        count_of(s, b) == if s.contains(b) {
            1nat
        } else {
            0nat
        },
    decreases s.len(),
{
    if s.len() == 0 {
        assert(!s.contains(b));
    } else {
        assert(forall|i: int, j: int|
            0 <= i < j < s.drop_last().len() ==> s.drop_last()[i] == s[i] && s.drop_last()[j]
                == s[j]);
        lemma_count_in_distinct_seq(s.drop_last(), b);
        if s.last() == b {
            assert(!s.drop_last().contains(b)) by {
                if s.drop_last().contains(b) {
                    let i = choose|i: int|
                        0 <= i < s.drop_last().len() && s.drop_last()[i] == b;
                    assert(s[i] == s[s.len() - 1]);
                }
            }
            assert(s.contains(b)) by {
                assert(s[s.len() - 1] == b);
            }
        } else {
            assert(s.contains(b) <==> s.drop_last().contains(b)) by {
                if s.contains(b) {
                    let i = choose|i: int| 0 <= i < s.len() && s[i] == b;
                    assert(s.drop_last()[i] == b);
                }
                if s.drop_last().contains(b) {
                    let i = choose|i: int|
                        0 <= i < s.drop_last().len() && s.drop_last()[i] == b;
                    assert(s[i] == b);
                }
            }
        }
    }
}

/// Whether a binding sequence already contains a given identity.
pub(crate) fn contains_identity(v: &Vec<Binding>, b: &Binding) -> (r: bool)
    ensures
        r == v@.map_values(|x: Binding| x@).contains(b@),
{
    let ghost vs = v@.map_values(|x: Binding| x@);
    let mut i: usize = 0;
    while i < v.len()
        invariant
            i <= v.len(),
            vs == v@.map_values(|x: Binding| x@),
            forall|k: int| 0 <= k < i ==> vs[k] != b@,
        decreases v.len() - i,
    {
        if v[i].same_identity(b) {
            proof {
                assert(vs[i as int] == b@);
            }
            return true;
        }
        i = i + 1;
    }
    proof {
        if vs.contains(b@) {
            let k = choose|k: int| 0 <= k < vs.len() && vs[k] == b@;
            assert(vs[k] != b@);
        }
    }
    false
}

/// Deduplicates a collected binding sequence, keeping each identity at
/// its first occurrence: walk front to back, appending what has not been
/// seen yet.
pub(crate) fn dedup_vec(raw: &Vec<Binding>) -> (r: Vec<Binding>)
    ensures
        r@.map_values(|x: Binding| x@) == dedup_bindings(raw@.map_values(|x: Binding| x@)),
{
    let ghost rawv = raw@.map_values(|x: Binding| x@);
    let mut r: Vec<Binding> = Vec::new();
    let mut i: usize = 0;
    proof {
        assert(rawv.take(0) =~= Seq::<BindingView>::empty());
        assert(r@.map_values(|x: Binding| x@) =~= Seq::<BindingView>::empty());
    }
    while i < raw.len()
        invariant
            i <= raw.len(),
            rawv == raw@.map_values(|x: Binding| x@),
            r@.map_values(|x: Binding| x@) == dedup_bindings(rawv.take(i as int)),
        decreases raw.len() - i,
    {
        let ghost prev = r@.map_values(|x: Binding| x@);
        proof {
            assert(rawv.take(i + 1).drop_last() =~= rawv.take(i as int));
            assert(rawv.take(i + 1).last() == rawv[i as int]);
            assert(rawv[i as int] == raw@[i as int]@);
        }
        if !contains_identity(&r, &raw[i]) {
            r.push(raw[i].clone());
            proof {
                assert(r@.map_values(|x: Binding| x@) =~= prev.push(rawv[i as int]));
            }
        }
        i = i + 1;
    }
    proof {
        assert(rawv.take(rawv.len() as int) =~= rawv);
    }
    r
}

} // verus!
