use vstd::prelude::*;

verus! {

/// A principal identifier: an opaque 256-bit value, the width of the
/// public keys that identify owners, guardians and wallet addresses.
/// Only equality of principals is ever consulted by the logic.
#[derive(Clone, Copy, Debug, PartialEq, Eq, Hash, Structural)]
pub struct PrincipalId {
    pub w0: u64,
    pub w1: u64,
    pub w2: u64,
    pub w3: u64,
}

impl PrincipalId {
    pub fn new(w0: u64, w1: u64, w2: u64, w3: u64) -> (p: PrincipalId)
        ensures
            p == (PrincipalId { w0, w1, w2, w3 }),
    {
        PrincipalId { w0, w1, w2, w3 }
    }
}

/// No principal occurs twice in the sequence.
pub open spec fn distinct_principals(s: Seq<PrincipalId>) -> bool {
    forall|i: int, j: int| 0 <= i < j < s.len() ==> s[i] != s[j]
}

/// No principal occurs in both sequences.
pub open spec fn disjoint_principals(a: Seq<PrincipalId>, b: Seq<PrincipalId>) -> bool {
    forall|i: int, j: int| 0 <= i < a.len() && 0 <= j < b.len() ==> a[i] != b[j]
}

/// The index of `x` in `s`; meaningful only when `s` contains `x`.
/// Wherever the logic uses it, `s` is duplicate-free, so the index is the
/// unique position at which `x` stands.
pub open spec fn index_of_principal(s: Seq<PrincipalId>, x: PrincipalId) -> int {
    choose|i: int| 0 <= i < s.len() && s[i] == x
}

/// An index found by a linear search is the index `index_of_principal`
/// denotes, because the searched sequence is duplicate-free.
pub proof fn lemma_found_index_is_the_index(s: Seq<PrincipalId>, x: PrincipalId, idx: int)
    requires
        distinct_principals(s),
        0 <= idx < s.len(),
        s[idx] == x,
    ensures
        s.contains(x),
        index_of_principal(s, x) == idx,
{
    assert(s.contains(x));
    let i0 = index_of_principal(s, x);
    assert(0 <= i0 < s.len() && s[i0] == x) by {
        assert(exists|i: int| 0 <= i < s.len() && s[i] == x);
    }
    if i0 < idx {
        assert(s[i0] != s[idx]);
    } else if idx < i0 {
        assert(s[idx] != s[i0]);
    }
}

/// The position of the first occurrence of `x` in `v`, if any.
pub fn find_principal(v: &Vec<PrincipalId>, x: PrincipalId) -> (r: Option<usize>)
    ensures
        (match r {
            Some(i) => {
                &&& i < v@.len()
                &&& v@[i as int] == x
                &&& forall|j: int| 0 <= j < i ==> v@[j] != x
            },
            None => forall|j: int| 0 <= j < v@.len() ==> v@[j] != x,
        }),
{
    let mut i: usize = 0;
    while i < v.len()
        invariant
            i <= v@.len(),
            forall|j: int| 0 <= j < i ==> v@[j] != x,
        decreases v@.len() - i,
    {
        if v[i] == x {
            return Some(i);
        }
        i = i + 1;
    }
    None
}

/// Whether `v` contains `x`.
pub fn contains_principal(v: &Vec<PrincipalId>, x: PrincipalId) -> (b: bool)
    ensures
        b == v@.contains(x),
{
    let r = find_principal(v, x);
    match r {
        Some(i) => {
            assert(v@.contains(x)) by {
                assert(v@[i as int] == x);
            }
            true
        },
        None => {
            assert(!v@.contains(x));
            false
        },
    }
}

/// A copy of `v`, element for element.
pub fn copy_principals(v: &Vec<PrincipalId>) -> (r: Vec<PrincipalId>)
    ensures
        r@ == v@,
{
    let mut r: Vec<PrincipalId> = Vec::new();
    let mut i: usize = 0;
    while i < v.len()
        invariant
            i <= v@.len(),
            r@ == v@.take(i as int),
        decreases v@.len() - i,
    {
        r.push(v[i]);
        proof {
            assert(r@ =~= v@.take(i + 1 as int));
        }
        i = i + 1;
    }
    proof {
        assert(r@ =~= v@);
    }
    r
}

/// Whether some principal occurs twice in `v`.
pub fn has_duplicate(v: &Vec<PrincipalId>) -> (b: bool)
    ensures
        b == !distinct_principals(v@),
{
    let mut i: usize = 0;
    while i < v.len()
        invariant
            i <= v@.len(),
            forall|p: int, q: int| 0 <= p < q < i ==> v@[p] != v@[q],
        decreases v@.len() - i,
    {
        let mut j: usize = 0;
        while j < i
            invariant
                j <= i,
                i < v@.len(),
                forall|q: int| 0 <= q < j ==> v@[q] != v@[i as int],
            decreases i - j,
        {
            if v[j] == v[i] {
                return true;
            }
            j = j + 1;
        }
        i = i + 1;
    }
    false
}

} // verus!
