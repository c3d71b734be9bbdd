//! Lexicographic order on strings and a sort by it.
use vstd::prelude::*;
use vstd::string::StrSliceExecFns;
use crate::text::texts;

verus! {

broadcast use vstd::seq_lib::to_multiset_insert, vstd::seq_lib::to_multiset_build;

/// `k` is where `a` and `b` first differ, or where the shorter one ends.
pub open spec fn first_difference(a: Seq<char>, b: Seq<char>, k: int) -> bool {
    &&& 0 <= k <= a.len()
    &&& k <= b.len()
    &&& forall|j: int| 0 <= j < k ==> a[j] == b[j]
    &&& (k == a.len() || k == b.len() || a[k] != b[k])
}

/// `a` comes no later than `b` in lexicographic order by code point.
pub open spec fn text_le(a: Seq<char>, b: Seq<char>) -> bool {
    forall|k: int|
        #[trigger] first_difference(a, b, k) ==> (k == a.len() || (k < b.len() && a[k] < b[k]))
}

/// Each string of `s` comes no later than the next one.
pub open spec fn sorted_texts(s: Seq<String>) -> bool {
    forall|i: int| 0 <= i < s.len() - 1 ==> text_le(#[trigger] s[i]@, s[i + 1]@)
}

pub proof fn lemma_difference_unique(a: Seq<char>, b: Seq<char>, k1: int, k2: int)
    requires
        first_difference(a, b, k1),
        first_difference(a, b, k2),
    ensures
        k1 == k2,
{
    if k1 < k2 {
        assert(a[k1] == b[k1]);
    } else if k2 < k1 {
        assert(a[k2] == b[k2]);
    }
}

proof fn lemma_difference_exists(a: Seq<char>, b: Seq<char>) -> (k: int)
    ensures
        first_difference(a, b, k),
{
    let m = if a.len() < b.len() { a.len() as int } else { b.len() as int };
    if forall|j: int| 0 <= j < m ==> a[j] == b[j] {
        m
    } else {
        let j = choose|j: int| 0 <= j < m && a[j] != b[j];
        lemma_least_difference(a, b, j)
    }
}

proof fn lemma_least_difference(a: Seq<char>, b: Seq<char>, j: int) -> (k: int)
    requires
        0 <= j < a.len(),
        j < b.len(),
        a[j] != b[j],
    ensures
        first_difference(a, b, k),
    decreases j,
{
    if forall|i: int| 0 <= i < j ==> a[i] == b[i] {
        j
    } else {
        let i = choose|i: int| 0 <= i < j && a[i] != b[i];
        lemma_least_difference(a, b, i)
    }
}

/// Any two strings are ordered one way or the other.
pub proof fn lemma_text_le_total(a: Seq<char>, b: Seq<char>)
    ensures
        text_le(a, b) || text_le(b, a),
{
    let k = lemma_difference_exists(a, b);
    assert forall|k2: int| #[trigger] first_difference(b, a, k2) implies first_difference(a, b, k2) by {}
    assert forall|k2: int| #[trigger] first_difference(a, b, k2) implies k2 == k by {
        lemma_difference_unique(a, b, k, k2);
    }
    assert forall|k2: int| #[trigger] first_difference(b, a, k2) implies k2 == k by {
        lemma_difference_unique(a, b, k, k2);
    }
}

/// Whether `a` comes no later than `b`.
pub fn text_less_eq(a: &str, b: &str) -> (r: bool)
    ensures
        r == text_le(a@, b@),
{
    let la = a.unicode_len();
    let lb = b.unicode_len();
    let mut k: usize = 0;
    while k < la && k < lb && a.get_char(k) == b.get_char(k)
        invariant
            la == a@.len(),
            lb == b@.len(),
            k <= la,
            k <= lb,
            forall|j: int| 0 <= j < k ==> a@[j] == b@[j],
        decreases la - k,
    {
        k = k + 1;
    }
    assert(first_difference(a@, b@, k as int));
    assert forall|k2: int| #[trigger] first_difference(a@, b@, k2) implies k2 == k by {
        lemma_difference_unique(a@, b@, k as int, k2);
    }
    if k == la {
        true
    } else if k == lb {
        false
    } else {
        a.get_char(k) < b.get_char(k)
    }
}

/// The same strings, in lexicographic order.
pub fn sort_texts(v: &Vec<String>) -> (r: Vec<String>)
    ensures
        sorted_texts(r@),
        r@.to_multiset() == v@.to_multiset(),
        texts(r@).to_multiset() == texts(v@).to_multiset(),
{
    let mut out: Vec<String> = Vec::new();
    let n = v.len();
    let mut i: usize = 0;
    assert(v@.subrange(0, 0) =~= Seq::<String>::empty());
    while i < n
        invariant
            n == v@.len(),
            i <= n,
            sorted_texts(out@),
            out@.to_multiset() == v@.subrange(0, i as int).to_multiset(),
            texts(out@).to_multiset() == texts(v@.subrange(0, i as int)).to_multiset(),
        decreases n - i,
    {
        let x = v[i].clone();
        let mut j: usize = out.len();
        while j > 0 && !text_less_eq(out[j - 1].as_str(), x.as_str())
            invariant
                j <= out@.len(),
                sorted_texts(out@),
                j < out@.len() ==> text_le(x@, out@[j as int]@),
            decreases j,
        {
            proof {
                lemma_text_le_total(out@[j - 1]@, x@);
            }
            j = j - 1;
        }
        let ghost before = out@;
        let ghost xv = x@;
        out.insert(j, x);
        assert(texts(out@) =~= texts(before).insert(j as int, xv));
        assert(texts(v@.subrange(0, i + 1)) =~= texts(v@.subrange(0, i as int)).push(xv));
        proof {
            assert forall|k: int| 0 <= k < out@.len() - 1 implies text_le(#[trigger] out@[k]@, out@[k + 1]@) by {
                if k < j as int - 1 {
                    assert(out@[k] == before[k] && out@[k + 1] == before[k + 1]);
                } else if k == j as int - 1 {
                } else if k == j as int {
                } else {
                    assert(out@[k] == before[k - 1] && out@[k + 1] == before[k]);
                }
            }
            assert(v@.subrange(0, i + 1) =~= v@.subrange(0, i as int).push(v@[i as int]));
        }
        i = i + 1;
    }
    assert(v@.subrange(0, n as int) =~= v@);
    out
}

} // verus!
