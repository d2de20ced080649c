//! Run lists: ordered `(source_index, repeat_count)` pairs and the row
//! selection they describe.
use vstd::prelude::*;

verus! {

/// Total number of rows a run list produces.
pub open spec fn run_total(runs: Seq<(usize, usize)>) -> nat
    decreases runs.len(),
{
    if runs.len() == 0 {
        0
    } else {
        run_total(runs.drop_last()) + runs.last().1 as nat
    }
}

/// The source position of every output row, in order.
pub open spec fn expand(runs: Seq<(usize, usize)>) -> Seq<int>
    decreases runs.len(),
{
    if runs.len() == 0 {
        Seq::empty()
    } else {
        expand(runs.drop_last()) + Seq::new(runs.last().1 as nat, |_j: int| runs.last().0 as int)
    }
}

/// Every run points at a position below `n`.
pub open spec fn runs_in_bounds(runs: Seq<(usize, usize)>, n: nat) -> bool {
    forall|i: int| 0 <= i < runs.len() ==> (#[trigger] runs[i]).0 < n
}

/// The same run list with 32-bit fields widened.
pub open spec fn widen(runs: Seq<(u32, u32)>) -> Seq<(usize, usize)> {
    runs.map_values(|p: (u32, u32)| (p.0 as usize, p.1 as usize))
}

/// Picks `s[rows[i]]` for every output row `i`.
pub open spec fn pick<T>(s: Seq<T>, rows: Seq<int>) -> Seq<T> {
    Seq::new(rows.len(), |i: int| s[rows[i]])
}

/// Every selected row is a position of a sequence of length `n`.
pub open spec fn rows_in_bounds(rows: Seq<int>, n: nat) -> bool {
    forall|i: int| 0 <= i < rows.len() ==> 0 <= #[trigger] rows[i] < n
}

pub proof fn lemma_expand_len(runs: Seq<(usize, usize)>)
    ensures
        expand(runs).len() == run_total(runs),
    decreases runs.len(),
{
    if runs.len() > 0 {
        lemma_expand_len(runs.drop_last());
    }
}

pub proof fn lemma_expand_in_bounds(runs: Seq<(usize, usize)>, n: nat)
    requires
        runs_in_bounds(runs, n),
    ensures
        rows_in_bounds(expand(runs), n),
    decreases runs.len(),
{
    if runs.len() > 0 {
        let p = runs.drop_last();
        assert(runs_in_bounds(p, n)) by {
            assert forall|i: int| 0 <= i < p.len() implies (#[trigger] p[i]).0 < n by {
                assert(p[i] == runs[i]);
            }
        }
        lemma_expand_in_bounds(p, n);
        assert(runs[runs.len() - 1].0 < n);
    }
}

/// Appending a run extends the expansion by that run's rows.
pub proof fn lemma_expand_push(runs: Seq<(usize, usize)>, r: (usize, usize))
    ensures
        expand(runs.push(r)) == expand(runs) + Seq::new(r.1 as nat, |_j: int| r.0 as int),
        run_total(runs.push(r)) == run_total(runs) + r.1,
{
    assert(runs.push(r).drop_last() =~= runs);
}

/// A prefix of a run list produces no more rows than the whole list.
pub proof fn lemma_run_total_prefix(runs: Seq<(usize, usize)>, i: int)
    requires
        0 <= i <= runs.len(),
    ensures
        run_total(runs.take(i)) <= run_total(runs),
    decreases runs.len(),
{
    if i < runs.len() {
        assert(runs.drop_last().take(i) =~= runs.take(i));
        lemma_run_total_prefix(runs.drop_last(), i);
    } else {
        assert(runs.take(i) =~= runs);
    }
}

/// A run list of one run repeats one source position.
pub proof fn lemma_expand_single(k: usize, n: usize)
    ensures
        expand(seq![(k, n)]) =~= Seq::new(n as nat, |_j: int| k as int),
        run_total(seq![(k, n)]) == n,
{
    lemma_expand_push(Seq::empty(), (k, n));
    assert(Seq::<(usize, usize)>::empty().push((k, n)) =~= seq![(k, n)]);
    assert(expand(Seq::<(usize, usize)>::empty()) =~= Seq::empty());
}

/// Widens a run list of 32-bit pairs.
pub fn widen_runs(runs: &[(u32, u32)]) -> (r: Vec<(usize, usize)>)
    ensures
        r@ == widen(runs@),
{
    let mut r: Vec<(usize, usize)> = Vec::with_capacity(runs.len());
    let mut i: usize = 0;
    while i < runs.len()
        invariant
            i <= runs@.len(),
            r@ =~= widen(runs@.take(i as int)),
        decreases runs@.len() - i,
    {
        let (a, b) = runs[i];
        r.push((a as usize, b as usize));
        i = i + 1;
        assert(widen(runs@.take(i as int)) =~= widen(runs@.take(i - 1)).push((a as usize, b as usize)));
    }
    assert(runs@.take(i as int) =~= runs@);
    r
}

} // verus!
