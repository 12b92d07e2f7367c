//! Equality and the lexicographic order of addresses, octet 0 weighing most.

use vstd::prelude::*;
use core::cmp::Ordering;
use vstd::std_specs::cmp::PartialEqSpec;
use vstd::std_specs::cmp::PartialOrdSpec;
use crate::address::MacAddress;

verus! {

/// `a` comes before `b`: at the first position where the two differ, the
/// octet of `a` is the smaller one.
pub open spec fn precedes(a: Seq<u8>, b: Seq<u8>) -> bool {
    exists|k: int| #[trigger] differ_first_at(a, b, k) && a[k] < b[k]
}

/// `k` is a position in both sequences, they agree before it and differ at it.
pub open spec fn differ_first_at(a: Seq<u8>, b: Seq<u8>, k: int) -> bool {
    &&& 0 <= k < a.len()
    &&& k < b.len()
    &&& forall|j: int| 0 <= j < k ==> a[j] == b[j]
    &&& a[k] != b[k]
}

/// Two sequences differ first at no more than one position.
pub proof fn lemma_first_difference_unique(a: Seq<u8>, b: Seq<u8>, j: int, k: int)
    requires
        differ_first_at(a, b, j),
        differ_first_at(a, b, k),
    ensures
        j == k,
{
}

/// Sequences of one length that agree on their first `n` entries are equal
/// or differ first at some later position.
proof fn lemma_differ_somewhere(a: Seq<u8>, b: Seq<u8>, n: int)
    requires
        0 <= n <= a.len() == b.len(),
        forall|j: int| 0 <= j < n ==> a[j] == b[j],
    ensures
        a == b || exists|k: int| differ_first_at(a, b, k),
    decreases a.len() - n,
{
    if n == a.len() {
        assert(a =~= b);
    } else if a[n] == b[n] {
        lemma_differ_somewhere(a, b, n + 1);
    } else {
        assert(differ_first_at(a, b, n));
    }
}

/// Of two addresses exactly one holds: they are equal, the first precedes the
/// second, or the second precedes the first.
pub proof fn lemma_trichotomy(a: MacAddress, b: MacAddress)
    ensures
        a@ == b@ || precedes(a@, b@) || precedes(b@, a@),
        !(a@ == b@ && precedes(a@, b@)),
        !(a@ == b@ && precedes(b@, a@)),
        !(precedes(a@, b@) && precedes(b@, a@)),
{
    a.lemma_len();
    b.lemma_len();
    if precedes(a@, b@) && precedes(b@, a@) {
        let j = choose|k: int| #[trigger] differ_first_at(a@, b@, k) && a@[k] < b@[k];
        let k = choose|k: int| #[trigger] differ_first_at(b@, a@, k) && b@[k] < a@[k];
        assert(differ_first_at(a@, b@, k));
        lemma_first_difference_unique(a@, b@, j, k);
    }
    if a@ != b@ {
        lemma_differ_somewhere(a@, b@, 0);
        let k = choose|k: int| differ_first_at(a@, b@, k);
        assert(differ_first_at(b@, a@, k));
    }
}

/// The order is transitive.
pub proof fn lemma_precedes_transitive(a: MacAddress, b: MacAddress, c: MacAddress)
    requires
        precedes(a@, b@),
        precedes(b@, c@),
    ensures
        precedes(a@, c@),
{
    let j = choose|k: int| #[trigger] differ_first_at(a@, b@, k) && a@[k] < b@[k];
    let k = choose|k: int| #[trigger] differ_first_at(b@, c@, k) && b@[k] < c@[k];
    let m = if j <= k { j } else { k };
    assert(differ_first_at(a@, c@, m));
}

/// The first position at which `a` and `b` differ, or 6 when they are equal.
fn first_difference(a: &MacAddress, b: &MacAddress) -> (k: usize)
    ensures
        k <= 6,
        k == 6 <==> a@ == b@,
        k < 6 ==> differ_first_at(a@, b@, k as int) && differ_first_at(b@, a@, k as int),
{
    proof {
        a.lemma_len();
        b.lemma_len();
    }
    let mut i: usize = 0;
    while i < 6
        invariant
            i <= 6,
            a@.len() == 6,
            b@.len() == 6,
            forall|j: int| 0 <= j < i ==> a@[j] == b@[j],
        decreases 6 - i,
    {
        if a.octet(i) != b.octet(i) {
            return i;
        }
        i += 1;
    }
    assert(a@ =~= b@);
    i
}

impl PartialEq for MacAddress {
    /// Octet-wise equality.
    fn eq(&self, other: &Self) -> (same: bool) {
        first_difference(self, other) == 6
    }
}

impl Eq for MacAddress {

}

impl vstd::std_specs::cmp::PartialEqSpecImpl for MacAddress {
    open spec fn obeys_eq_spec() -> bool {
        true
    }

    open spec fn eq_spec(&self, other: &Self) -> bool {
        self@ == other@
    }
}

impl PartialOrd for MacAddress {
    /// Lexicographic comparison of the octets; it always decides.
    fn partial_cmp(&self, other: &Self) -> (order: Option<Ordering>) {
        proof {
            lemma_trichotomy(*self, *other);
        }
        let k = first_difference(self, other);
        if k == 6 {
            Some(Ordering::Equal)
        } else if self.octet(k) < other.octet(k) {
            Some(Ordering::Less)
        } else {
            Some(Ordering::Greater)
        }
    }
}

impl vstd::std_specs::cmp::PartialOrdSpecImpl for MacAddress {
    open spec fn obeys_partial_cmp_spec() -> bool {
        true
    }

    open spec fn partial_cmp_spec(&self, other: &Self) -> Option<Ordering> {
        if self@ == other@ {
            Some(Ordering::Equal)
        } else if precedes(self@, other@) {
            Some(Ordering::Less)
        } else {
            Some(Ordering::Greater)
        }
    }
}

/// `==` holds exactly of addresses with the same octets, which are the same
/// value.
pub proof fn lemma_eq_is_octet_equality(a: MacAddress, b: MacAddress)
    ensures
        a.eq_spec(&b) <==> a@ == b@,
        a.eq_spec(&b) <==> a == b,
{
    a.lemma_view_injective(b);
}

/// What a comparison answers, case by case: `Equal` for the same octets,
/// `Less` where the first address precedes the second, `Greater` where the
/// second precedes the first.
pub proof fn lemma_comparison_cases(a: MacAddress, b: MacAddress)
    ensures
        a.partial_cmp_spec(&b) == Some(Ordering::Equal) <==> a@ == b@,
        a.partial_cmp_spec(&b) == Some(Ordering::Less) <==> precedes(a@, b@),
        a.partial_cmp_spec(&b) == Some(Ordering::Greater) <==> precedes(b@, a@),
{
    lemma_trichotomy(a, b);
}

} // verus!
