use vstd::prelude::*;

verus! {

/// Relies on `rand::random_range`: a uniformly drawn value of the inclusive
/// range `0..=max`. That range is never empty, so the call does not panic.
#[verifier::external_body]
pub(crate) fn random_index(max: usize) -> (r: usize)
    ensures
        r <= max,
{
    rand::random_range(0..=max)
}

/// Exchanging two elements of a sequence keeps its multiset.
pub(crate) proof fn lemma_swap_keeps_multiset<A>(s: Seq<A>, i: int, j: int)
    requires
        0 <= i < s.len(),
        0 <= j < s.len(),
    ensures
        s.update(i, s[j]).update(j, s[i]).to_multiset() == s.to_multiset(),
{
    broadcast use vstd::seq_lib::group_to_multiset_ensures, vstd::multiset::group_multiset_axioms;

    let mid = s.update(i, s[j]);
    assert(mid.to_multiset() == s.to_multiset().insert(s[j]).remove(s[i]));
    assert(mid.update(j, s[i]).to_multiset() == mid.to_multiset().insert(s[i]).remove(mid[j]));
    if i == j {
        assert(mid =~= s);
        assert(mid.update(j, s[i]) =~= s);
    } else {
        assert(mid.update(j, s[i]).to_multiset() =~= s.to_multiset());
    }
}

} // verus!
