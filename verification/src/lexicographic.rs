//! Lexicographic order on byte strings, the order in which Rust compares
//! `str` and `[u8]` values, and a sort by that order.
use vstd::prelude::*;
use vstd::relations::{sorted_by, total_ordering};
use vstd::seq_lib::{lemma_sorted_unique, to_multiset_build, to_multiset_insert};

verus! {

/// `a` is not greater than `b` when compared from position `i` on,
/// the bytes before `i` being equal.
pub open spec fn lex_le_from(a: Seq<u8>, b: Seq<u8>, i: nat) -> bool
    decreases a.len() - i,
{
    if i >= a.len() {
        true
    } else if i >= b.len() {
        false
    } else if a[i as int] != b[i as int] {
        a[i as int] < b[i as int]
    } else {
        lex_le_from(a, b, i + 1)
    }
}

/// Byte-wise lexicographic order: a proper prefix comes first, otherwise the
/// first differing byte decides.
pub open spec fn lex_le(a: Seq<u8>, b: Seq<u8>) -> bool {
    lex_le_from(a, b, 0)
}

/// The order as a relation, for `sorted_by` and `sort_by`.
pub open spec fn lex_leq() -> spec_fn(Seq<u8>, Seq<u8>) -> bool {
    |a: Seq<u8>, b: Seq<u8>| lex_le(a, b)
}

proof fn lemma_lex_reflexive_from(a: Seq<u8>, i: nat)
    ensures
        lex_le_from(a, a, i),
    decreases a.len() - i,
{
    if i < a.len() {
        lemma_lex_reflexive_from(a, i + 1);
    }
}

proof fn lemma_lex_antisymmetric_from(a: Seq<u8>, b: Seq<u8>, i: nat)
    requires
        i <= a.len(),
        i <= b.len(),
        forall|j: int| 0 <= j < i ==> a[j] == b[j],
        lex_le_from(a, b, i),
        lex_le_from(b, a, i),
    ensures
        a == b,
    decreases a.len() - i,
{
    if i >= a.len() || i >= b.len() {
        assert(a =~= b);
    } else {
        lemma_lex_antisymmetric_from(a, b, i + 1);
    }
}

proof fn lemma_lex_transitive_from(a: Seq<u8>, b: Seq<u8>, c: Seq<u8>, i: nat)
    requires
        lex_le_from(a, b, i),
        lex_le_from(b, c, i),
    ensures
        lex_le_from(a, c, i),
    decreases a.len() - i,
{
    if i < a.len() && i < b.len() && i < c.len() && a[i as int] == b[i as int] && b[i as int]
        == c[i as int] {
        lemma_lex_transitive_from(a, b, c, i + 1);
    }
}

proof fn lemma_lex_total_from(a: Seq<u8>, b: Seq<u8>, i: nat)
    ensures
        lex_le_from(a, b, i) || lex_le_from(b, a, i),
    decreases a.len() - i,
{
    if i < a.len() && i < b.len() && a[i as int] == b[i as int] {
        lemma_lex_total_from(a, b, i + 1);
    }
}

/// Byte-wise lexicographic comparison is a total order.
pub proof fn lemma_lex_total_ordering()
    ensures
        total_ordering(lex_leq()),
{
    assert forall|a: Seq<u8>| #[trigger] lex_leq()(a, a) by {
        lemma_lex_reflexive_from(a, 0);
    }
    assert forall|a: Seq<u8>, b: Seq<u8>| #[trigger] lex_leq()(a, b) && #[trigger] lex_leq()(
        b,
        a,
    ) implies a == b by {
        lemma_lex_antisymmetric_from(a, b, 0);
    }
    assert forall|a: Seq<u8>, b: Seq<u8>, c: Seq<u8>| #[trigger] lex_leq()(a, b)
        && #[trigger] lex_leq()(b, c) implies lex_leq()(a, c) by {
        lemma_lex_transitive_from(a, b, c, 0);
    }
    assert forall|a: Seq<u8>, b: Seq<u8>| #[trigger] lex_leq()(a, b) || #[trigger] lex_leq()(
        b,
        a,
    ) by {
        lemma_lex_total_from(a, b, 0);
    }
}

/// Compares two byte strings as `<=` does on `[u8]` and `str`.
pub fn bytes_le(a: &[u8], b: &[u8]) -> (r: bool)
    ensures
        r == lex_le(a@, b@),
{
    let mut i: usize = 0;
    while i < a.len() && i < b.len() && a[i] == b[i]
        invariant
            i <= a@.len(),
            i <= b@.len(),
            lex_le(a@, b@) == lex_le_from(a@, b@, i as nat),
        decreases a@.len() - i,
    {
        i = i + 1;
    }
    if i >= a.len() {
        true
    } else if i >= b.len() {
        false
    } else {
        a[i] < b[i]
    }
}

/// `a` is a prefix of `b`.
pub open spec fn is_byte_prefix(a: Seq<u8>, b: Seq<u8>) -> bool {
    a.len() <= b.len() && forall|j: int| 0 <= j < a.len() ==> a[j] == b[j]
}

/// At the first position where `a` and `b` differ, `a` has the smaller byte.
pub open spec fn first_difference_smaller(a: Seq<u8>, b: Seq<u8>) -> bool {
    exists|k: int|
        #![trigger a[k], b[k]]
        0 <= k < a.len() && k < b.len() && a[k] < b[k] && forall|j: int| 0 <= j < k ==> a[j] == b[j]
}

proof fn lemma_lex_le_from_characterization(a: Seq<u8>, b: Seq<u8>, i: nat)
    requires
        i <= a.len(),
        i <= b.len(),
        forall|j: int| 0 <= j < i ==> a[j] == b[j],
    ensures
        lex_le_from(a, b, i) <==> (is_byte_prefix(a, b) || first_difference_smaller(a, b)),
    decreases a.len() - i,
{
    if i >= a.len() {
        assert(is_byte_prefix(a, b));
    } else if i >= b.len() {
        assert(!is_byte_prefix(a, b));
        assert(!first_difference_smaller(a, b));
    } else if a[i as int] != b[i as int] {
        assert(!is_byte_prefix(a, b));
        if a[i as int] < b[i as int] {
            assert(first_difference_smaller(a, b));
        } else {
            assert forall|k: int| 0 <= k < a.len() && k < b.len() && a[k] < b[k] implies !(forall|
                j: int,
            | 0 <= j < k ==> a[j] == b[j]) by {
                if k > i {
                    assert(!(a[i as int] == b[i as int]));
                } else if k < i {
                } else {
                }
            }
            assert(!first_difference_smaller(a, b));
        }
    } else {
        lemma_lex_le_from_characterization(a, b, i + 1);
        if first_difference_smaller(a, b) {
            let k = choose|k: int|
                #![trigger a[k], b[k]]
                0 <= k < a.len() && k < b.len() && a[k] < b[k] && forall|j: int|
                    0 <= j < k ==> a[j] == b[j];
            assert(k != i);
        }
    }
}

/// The order is byte-wise lexicographic: `a` comes no later than `b` exactly
/// when `a` is a prefix of `b`, or the first byte in which they differ is
/// smaller in `a`.
pub proof fn lemma_lex_le_characterization(a: Seq<u8>, b: Seq<u8>)
    ensures
        lex_le(a, b) <==> (is_byte_prefix(a, b) || first_difference_smaller(a, b)),
{
    lemma_lex_le_from_characterization(a, b, 0);
}

/// The byte strings that a vector of slices holds.
pub open spec fn byte_views(v: Seq<&[u8]>) -> Seq<Seq<u8>> {
    v.map_values(|s: &[u8]| s@)
}

/// Sorts byte strings into ascending lexicographic order, as `slice::sort`
/// does with `&str` or `&[u8]` items. The result is the unique sorted
/// rearrangement of the input.
pub fn sort_bytes<'a>(items: &Vec<&'a [u8]>) -> (sorted: Vec<&'a [u8]>)
    ensures
        byte_views(sorted@) == byte_views(items@).sort_by(lex_leq()),
{
    proof {
        lemma_lex_total_ordering();
    }
    let mut sorted: Vec<&'a [u8]> = Vec::new();
    let mut i: usize = 0;
    proof {
        assert(byte_views(sorted@) =~= byte_views(items@).take(0));
    }
    while i < items.len()
        invariant
            i <= items@.len(),
            total_ordering(lex_leq()),
            sorted_by(byte_views(sorted@), lex_leq()),
            byte_views(sorted@).to_multiset() == byte_views(items@).take(i as int).to_multiset(),
        decreases items@.len() - i,
    {
        let x = items[i];
        let ghost g = byte_views(sorted@);
        let mut k: usize = 0;
        while k < sorted.len() && bytes_le(sorted[k], x)
            invariant
                k <= sorted@.len(),
                g == byte_views(sorted@),
                forall|j: int| 0 <= j < k ==> lex_le(#[trigger] g[j], x@),
            decreases sorted@.len() - k,
        {
            k = k + 1;
        }
        proof {
            if k < sorted@.len() {
                assert(!lex_leq()(g[k as int], x@));
                assert(lex_leq()(x@, g[k as int]));
                assert forall|j: int| k <= j < g.len() implies lex_le(x@, #[trigger] g[j]) by {
                    if j > k {
                        assert(lex_leq()(g[k as int], g[j]));
                        assert(lex_leq()(x@, g[j]));
                    }
                }
            }
        }
        sorted.insert(k, x);
        proof {
            let g2 = byte_views(sorted@);
            assert(g2 =~= g.insert(k as int, x@));
            assert forall|a: int, b: int| 0 <= a < b < g2.len() implies #[trigger] lex_leq()(
                g2[a],
                g2[b],
            ) by {
                if b < k {
                    assert(lex_leq()(g[a], g[b]));
                } else if b == k {
                    assert(lex_le(g[a], x@));
                } else if a < k {
                    assert(lex_leq()(g[a], g[b - 1]));
                } else if a == k {
                    assert(lex_le(x@, g[b - 1]));
                } else {
                    assert(lex_leq()(g[a - 1], g[b - 1]));
                }
            }
            to_multiset_insert(g, k as int, x@);
            let v = byte_views(items@);
            assert(v.take(i + 1) =~= v.take(i as int).push(x@));
            to_multiset_build(v.take(i as int), x@);
        }
        i = i + 1;
    }
    proof {
        let v = byte_views(items@);
        assert(v.take(items@.len() as int) =~= v);
        v.lemma_sort_by_ensures(lex_leq());
        lemma_sorted_unique(byte_views(sorted@), v.sort_by(lex_leq()), lex_leq());
    }
    sorted
}

} // verus!
