use vstd::prelude::*;

verus! {

/// Whether the events report a pair collision between `i` and `j`, named in either order.
pub open spec fn reported_in(reported: Seq<(usize, usize)>, i: usize, j: usize) -> bool {
    exists|k: int| 0 <= k < reported.len() && (#[trigger] reported[k] == (i, j) || reported[k] == (j, i))
}

/// The positions, in increasing order, of the pairs of `hits` that no event reports.
pub open spec fn missed(hits: Seq<(usize, usize)>, reported: Seq<(usize, usize)>) -> Seq<usize>
    decreases hits.len(),
{
    if hits.len() == 0 {
        Seq::empty()
    } else {
        let before = missed(hits.drop_last(), reported);
        let last = hits.last();
        if reported_in(reported, last.0, last.1) {
            before
        } else {
            before.push((hits.len() - 1) as usize)
        }
    }
}

/// Whether some event reports a pair collision between `i` and `j`, in either order.
pub fn pair_reported(reported: &Vec<(usize, usize)>, i: usize, j: usize) -> (r: bool)
    ensures
        r == reported_in(reported@, i, j),
{
    let mut k: usize = 0;
    while k < reported.len()
        invariant
            k <= reported@.len(),
            forall|m: int| 0 <= m < k ==> !(#[trigger] reported@[m] == (i, j) || reported@[m] == (j, i)),
        decreases reported@.len() - k,
    {
        let (a, b) = reported[k];
        if (a == i && b == j) || (a == j && b == i) {
            assert(reported@[k as int] == (i, j) || reported@[k as int] == (j, i));
            return true;
        }
        k += 1;
    }
    false
}

/// Of the pairs that the trace says come into contact within the step (`hits`), the positions
/// of those that no recorded pair event names: the missed collisions.
pub fn missed_collisions(hits: &Vec<(usize, usize)>, reported: &Vec<(usize, usize)>) -> (r: Vec<usize>)
    ensures
        r@ == missed(hits@, reported@),
{
    let mut out: Vec<usize> = Vec::new();
    let mut k: usize = 0;
    while k < hits.len()
        invariant
            k <= hits@.len(),
            out@ == missed(hits@.take(k as int), reported@),
        decreases hits@.len() - k,
    {
        let (i, j) = hits[k];
        let ghost t = hits@.take(k as int + 1);
        assert(t.drop_last() == hits@.take(k as int));
        assert(t.last() == (i, j));
        if !pair_reported(reported, i, j) {
            out.push(k);
        }
        k += 1;
    }
    assert(hits@.take(hits@.len() as int) == hits@);
    out
}

/// When every pair that comes into contact is reported, no collision is missed.
pub proof fn lemma_all_reported_none_missed(hits: Seq<(usize, usize)>, reported: Seq<(usize, usize)>)
    requires
        forall|k: int| 0 <= k < hits.len() ==> reported_in(reported, #[trigger] hits[k].0, hits[k].1),
    ensures
        missed(hits, reported) == Seq::<usize>::empty(),
    decreases hits.len(),
{
    if hits.len() > 0 {
        let d = hits.drop_last();
        assert forall|k: int| 0 <= k < d.len() implies reported_in(reported, #[trigger] d[k].0, d[k].1) by {
            assert(d[k] == hits[k]);
        }
        lemma_all_reported_none_missed(d, reported);
        assert(reported_in(reported, hits[hits.len() - 1].0, hits[hits.len() - 1].1));
    }
}

} // verus!
