//! Run expansion for fixed-width buffers and for bitmaps.
use vstd::prelude::*;
use crate::bitmap::Bitmap;
use crate::column::Column;
use crate::runs::{
    expand, lemma_expand_len, lemma_expand_push, lemma_run_total_prefix, pick, run_total, runs_in_bounds,
};

verus! {

/// Appends copies of `out[base..base + n]` to the end of `out`.
fn extend_from_within<T: Copy>(out: &mut Vec<T>, base: usize, n: usize)
    requires
        base + n <= old(out)@.len(),
    ensures
        final(out)@ == old(out)@ + old(out)@.subrange(base as int, base + n),
{
    let ghost start = out@;
    let len0 = out.len();
    let mut k: usize = 0;
    while k < n
        invariant
            k <= n,
            base + n <= start.len(),
            len0 == start.len(),
            out@ == start + start.subrange(base as int, base + k),
        decreases n - k,
    {
        let v: T = out[base + k];
        out.push(v);
        k = k + 1;
        assert(out@ =~= start + start.subrange(base as int, base + k));
    }
}

impl Column {
    /// Builds a buffer in which every run `(index, cnt)` contributes `cnt`
    /// copies of `col[index]`. A run longer than one is filled by doubling the
    /// block already written, so it takes a logarithmic number of copies.
    pub fn take_primitive_types<T: Copy>(col: &[T], indices: &[(usize, usize)], row_num: usize) -> (r: Vec<T>)
        requires
            runs_in_bounds(indices@, col@.len()),
            run_total(indices@) == row_num,
        ensures
            r@ == pick(col@, expand(indices@)),
    {
        let mut builder: Vec<T> = Vec::with_capacity(row_num);
        let mut i: usize = 0;
        while i < indices.len()
            invariant
                i <= indices@.len(),
                runs_in_bounds(indices@, col@.len()),
                builder@ =~= pick(col@, expand(indices@.take(i as int))),
            decreases indices@.len() - i,
        {
            let (index, cnt) = indices[i];
            assert(indices@[i as int].0 < col@.len());
            let ghost before = builder@;
            let v: T = col[index];
            if cnt == 1 {
                builder.push(v);
            } else if cnt > 1 {
                let base = builder.len();
                builder.push(v);
                let mut cur: usize = 1;
                while cur <= cnt - cur
                    invariant
                        1 <= cur <= cnt,
                        base == before.len(),
                        builder@ =~= before + Seq::new(cur as nat, |_j: int| v),
                    decreases cnt - cur,
                {
                    extend_from_within(&mut builder, base, cur);
                    assert(builder@ =~= before + Seq::new((cur + cur) as nat, |_j: int| v));
                    cur = cur + cur;
                }
                let remain = cnt - cur;
                if remain > 0 {
                    extend_from_within(&mut builder, base, remain);
                }
                assert(builder@ =~= before + Seq::new(cnt as nat, |_j: int| v));
            }
            assert(builder@ =~= before + Seq::new(cnt as nat, |_j: int| v));
            proof {
                assert(indices@.take(i + 1) =~= indices@.take(i as int).push((index, cnt)));
                lemma_expand_push(indices@.take(i as int), (index, cnt));
            }
            i = i + 1;
            assert(builder@ =~= pick(col@, expand(indices@.take(i as int))));
        }
        assert(indices@.take(i as int) =~= indices@);
        builder
    }

    /// Builds a bitmap in which every run `(index, cnt)` contributes `cnt`
    /// copies of the bit at `index`, appended one at a time.
    pub fn take_bool_types(col: &Bitmap, indices: &[(usize, usize)], row_num: usize) -> (r: Bitmap)
        requires
            col.wf(),
            runs_in_bounds(indices@, col@.len()),
            run_total(indices@) == row_num,
        ensures
            r.wf(),
            r@ == pick(col@, expand(indices@)),
    {
        let mut builder = Bitmap::with_capacity(row_num);
        let mut i: usize = 0;
        while i < indices.len()
            invariant
                i <= indices@.len(),
                col.wf(),
                runs_in_bounds(indices@, col@.len()),
                run_total(indices@) == row_num,
                builder.wf(),
                builder@ =~= pick(col@, expand(indices@.take(i as int))),
            decreases indices@.len() - i,
        {
            let (index, cnt) = indices[i];
            assert(indices@[i as int].0 < col@.len());
            let ghost before = builder@;
            let val = col.get_bit(index);
            proof {
                assert(indices@.take(i + 1) =~= indices@.take(i as int).push((index, cnt)));
                lemma_expand_push(indices@.take(i as int), (index, cnt));
                lemma_expand_len(indices@.take(i as int));
                lemma_run_total_prefix(indices@, i + 1);
            }
            let mut k: usize = 0;
            while k < cnt
                invariant
                    k <= cnt,
                    before.len() + cnt <= row_num,
                    builder.wf(),
                    builder@ =~= before + Seq::new(k as nat, |_j: int| val),
                decreases cnt - k,
            {
                builder.push(val);
                k = k + 1;
            }
            i = i + 1;
            assert(builder@ =~= pick(col@, expand(indices@.take(i as int))));
        }
        assert(indices@.take(i as int) =~= indices@);
        builder
    }
}

} // verus!
