//! Record batches: entries that share one row count.
use vstd::prelude::*;
use crate::column::{is_take, Column};
use crate::runs::{expand, run_total, runs_in_bounds, widen, widen_runs};

verus! {

/// One entry of a batch.
pub enum Value {
    /// A value repeated on every row, stored once as a one-row column.
    Scalar(Column),
    /// A value per row.
    Column(Column),
}

pub struct BlockEntry {
    pub value: Value,
}

/// Entries sharing `num_rows` rows.
pub struct DataBlock {
    pub entries: Vec<BlockEntry>,
    pub num_rows: usize,
}

/// Every entry is well formed: a scalar holds one row, a column holds `n`.
pub open spec fn entry_wf(e: BlockEntry, n: nat) -> bool {
    match e.value {
        Value::Scalar(c) => c.wf() && c.num_rows() == 1,
        Value::Column(c) => c.wf() && c.num_rows() == n,
    }
}

/// `out` is `src` with its column taken at `rows`, or the same scalar.
pub open spec fn entry_take(src: BlockEntry, rows: Seq<int>, out: BlockEntry) -> bool {
    match (src.value, out.value) {
        (Value::Scalar(a), Value::Scalar(b)) => is_take(a, seq![0int], b),
        (Value::Column(a), Value::Column(b)) => is_take(a, rows, b),
        _ => false,
    }
}

impl DataBlock {
    pub open spec fn wf(&self) -> bool {
        forall|k: int| 0 <= k < self.entries@.len() ==> entry_wf(#[trigger] self.entries@[k], self.num_rows as nat)
    }

    /// Applies the column take to every column entry and keeps every scalar.
    /// An empty run list gives the zero-row batch of the same entries.
    pub fn take_compacted_indices(&self, indices: &[(u32, u32)], row_num: usize) -> (r: DataBlock)
        requires
            self.wf(),
            runs_in_bounds(widen(indices@), self.num_rows as nat),
            run_total(widen(indices@)) == row_num,
        ensures
            r.wf(),
            r.num_rows == row_num,
            r.entries@.len() == self.entries@.len(),
            forall|k: int| 0 <= k < self.entries@.len() ==>
                entry_take(#[trigger] self.entries@[k], expand(widen(indices@)), r.entries@[k]),
            indices@.len() == 0 ==> r.num_rows == 0,
    {
        let runs = widen_runs(indices);
        let rows = if indices.len() == 0 { 0 } else { row_num };
        let one: Vec<(usize, usize)> = vec![(0, 1)];
        proof {
            assert(one@ =~= seq![(0usize, 1usize)]);
            crate::runs::lemma_expand_single(0, 1);
            assert(expand(one@) =~= seq![0int]);
            if indices@.len() == 0 {
                assert(widen(indices@) =~= Seq::<(usize, usize)>::empty());
            }
        }
        let mut out: Vec<BlockEntry> = Vec::with_capacity(self.entries.len());
        let mut k: usize = 0;
        while k < self.entries.len()
            invariant
                self.wf(),
                runs@ == widen(indices@),
                runs_in_bounds(runs@, self.num_rows as nat),
                run_total(runs@) == rows,
                rows == row_num,
                one@ == seq![(0usize, 1usize)],
                expand(one@) == seq![0int],
                run_total(one@) == 1,
                k <= self.entries@.len(),
                out@.len() == k,
                forall|m: int| 0 <= m < k ==> entry_wf(#[trigger] out@[m], rows as nat)
                    && entry_take(self.entries@[m], expand(runs@), out@[m]),
            decreases self.entries@.len() - k,
        {
            assert(entry_wf(self.entries@[k as int], self.num_rows as nat));
            let e = match &self.entries[k].value {
                Value::Scalar(c) => {
                    assert(one@[0] == (0usize, 1usize));
                    assert(runs_in_bounds(one@, c.num_rows()));
                    BlockEntry { value: Value::Scalar(c.take_runs(one.as_slice(), 1)) }
                },
                Value::Column(c) => BlockEntry { value: Value::Column(c.take_runs(runs.as_slice(), rows)) },
            };
            out.push(e);
            k = k + 1;
        }
        DataBlock { entries: out, num_rows: rows }
    }
}

} // verus!
