use vstd::prelude::*;

verus! {

/// Index `i` holds the smallest distance of `d`, and no earlier index holds
/// one as small: the first nearest candidate.
pub open spec fn is_first_nearest(d: Seq<u64>, i: int) -> bool {
    &&& 0 <= i < d.len()
    &&& forall|j: int| 0 <= j < d.len() ==> d[i] <= #[trigger] d[j]
    &&& forall|j: int| 0 <= j < i ==> d[i] < #[trigger] d[j]
}

/// Picks the candidate nearest to the previously highlighted point, given
/// each candidate's distance to it as an order-preserving key; among equal
/// distances the first one wins.
pub fn nearest_index(dist: &Vec<u64>) -> (r: usize)
    requires
        dist.len() > 0,
    ensures
        is_first_nearest(dist@, r as int),
{
    let mut best: usize = 0;
    let mut i: usize = 1;
    while i < dist.len()
        invariant
            1 <= i <= dist.len(),
            best < i,
            forall|j: int| 0 <= j < i ==> dist[best as int] <= #[trigger] dist@[j],
            forall|j: int| 0 <= j < best ==> dist[best as int] < #[trigger] dist@[j],
        decreases dist.len() - i,
    {
        if dist[i] < dist[best] {
            best = i;
        }
        i = i + 1;
    }
    best
}

/// One step of the continuity tracker: the index and value of the point of
/// `spectrum` nearest to the previously highlighted point, where `dist[i]`
/// is the distance key of `spectrum[i]`.
pub fn track<T: Copy>(spectrum: &Vec<T>, dist: &Vec<u64>) -> (r: (usize, T))
    requires
        spectrum.len() > 0,
        dist.len() == spectrum.len(),
    ensures
        is_first_nearest(dist@, r.0 as int),
        r.1 == spectrum[r.0 as int],
{
    let i = nearest_index(dist);
    (i, spectrum[i])
}

/// The choice is a function of the distances alone: two indices that both
/// meet the rule are the same index, ties included.
pub proof fn lemma_nearest_unique(d: Seq<u64>, i: int, j: int)
    requires
        is_first_nearest(d, i),
        is_first_nearest(d, j),
    ensures
        i == j,
{
    if i < j {
        assert(d[j] < d[i]);
    } else if j < i {
        assert(d[i] < d[j]);
    }
}

/// Where some candidate lies at distance zero from the previous point, the
/// chosen candidate lies at distance zero too.
pub proof fn lemma_zero_distance_chosen(d: Seq<u64>, i: int, z: int)
    requires
        is_first_nearest(d, i),
        0 <= z < d.len(),
        d[z] == 0,
    ensures
        d[i] == 0,
        i <= z,
{
    assert(d[i] <= d[z]);
    if z < i {
        assert(d[i] < d[z]);
    }
}

} // verus!
