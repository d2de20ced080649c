//! The column-level take kernel: tag dispatch and the nested rebuilds.
use vstd::prelude::*;
use crate::binary::BinaryColumn;
use crate::column::{
    inner_rows, is_take, offsets_take, ArrayColumn, Column, DecimalColumn, NullableColumn,
    NumberColumn,
};
use crate::runs::{
    expand, lemma_expand_in_bounds, lemma_expand_len, lemma_expand_push, pick, run_total,
    runs_in_bounds, widen, widen_runs,
};

verus! {

proof fn lemma_inner_rows_push(offsets: Seq<usize>, rows: Seq<int>, r: int)
    ensures
        inner_rows(offsets, rows.push(r)) == inner_rows(offsets, rows) + Seq::new(
            (offsets[r + 1] - offsets[r]) as nat,
            |t: int| offsets[r] + t,
        ),
{
    assert(rows.push(r).drop_last() =~= rows);
}

/// For an array with `offsets`, the offsets of the selected rows and a run
/// list that selects each of their values once, in order.
fn array_runs(offsets: &Vec<usize>, indices: &[(usize, usize)], row_num: usize) -> (r: (
    Vec<usize>,
    Vec<(usize, usize)>,
))
    requires
        offsets@.len() >= 1,
        offsets@[0] == 0,
        forall|i: int, j: int| 0 <= i <= j < offsets@.len() ==> offsets@[i] <= offsets@[j],
        runs_in_bounds(indices@, (offsets@.len() - 1) as nat),
    ensures
        offsets_take(offsets@, expand(indices@), r.0@),
        r.0@.last() == r.1@.len(),
        forall|i: int, j: int| 0 <= i <= j < r.0@.len() ==> r.0@[i] <= r.0@[j],
        expand(r.1@) == inner_rows(offsets@, expand(indices@)),
        runs_in_bounds(r.1@, offsets@.last() as nat),
        run_total(r.1@) == r.1@.len(),
{
    let n_off = offsets.len();
    let mut new_off: Vec<usize> = Vec::with_capacity(row_num);
    new_off.push(0);
    let mut inner: Vec<(usize, usize)> = Vec::new();
    let ghost last = offsets@.last();
    let mut i: usize = 0;
    while i < indices.len()
        invariant
            n_off == offsets@.len(),
            n_off >= 1,
            last == offsets@[n_off - 1],
            offsets@[0] == 0,
            forall|a: int, b: int| 0 <= a <= b < offsets@.len() ==> offsets@[a] <= offsets@[b],
            runs_in_bounds(indices@, (n_off - 1) as nat),
            i <= indices@.len(),
            offsets_take(offsets@, expand(indices@.take(i as int)), new_off@),
            new_off@.last() == inner@.len(),
            forall|a: int, b: int| 0 <= a <= b < new_off@.len() ==> new_off@[a] <= new_off@[b],
            expand(inner@) == inner_rows(offsets@, expand(indices@.take(i as int))),
            runs_in_bounds(inner@, last as nat),
            run_total(inner@) == inner@.len(),
        decreases indices@.len() - i,
    {
        let (index, cnt) = indices[i];
        assert(indices@[i as int].0 < n_off - 1);
        let start = offsets[index];
        let end = offsets[index + 1];
        assert(start <= end && end <= last);
        let ghost done = expand(indices@.take(i as int));
        let mut c: usize = 0;
        while c < cnt
            invariant
                n_off == offsets@.len(),
                last == offsets@[n_off - 1],
                index < n_off - 1,
                start == offsets@[index as int],
                end == offsets@[index + 1],
                start <= end <= last,
                c <= cnt,
                offsets_take(offsets@, done + Seq::new(c as nat, |_j: int| index as int), new_off@),
                new_off@.last() == inner@.len(),
                forall|a: int, b: int| 0 <= a <= b < new_off@.len() ==> new_off@[a] <= new_off@[b],
                expand(inner@) == inner_rows(offsets@, done + Seq::new(c as nat, |_j: int| index as int)),
                runs_in_bounds(inner@, last as nat),
                run_total(inner@) == inner@.len(),
            decreases cnt - c,
        {
            let ghost rows = done + Seq::new(c as nat, |_j: int| index as int);
            let ghost base = expand(inner@);
            let ghost len0 = inner@.len();
            let mut j: usize = start;
            while j < end
                invariant
                    start <= j <= end,
                    end <= last,
                    len0 + (j - start) == inner@.len(),
                    expand(inner@) == base + Seq::new((j - start) as nat, |t: int| start + t),
                    runs_in_bounds(inner@, last as nat),
                    run_total(inner@) == inner@.len(),
                decreases end - j,
            {
                proof {
                    lemma_expand_push(inner@, (j, 1));
                }
                inner.push((j, 1));
                j = j + 1;
                assert(expand(inner@) =~= base + Seq::new((j - start) as nat, |t: int| start + t));
            }
            let ghost prev_off = new_off@;
            new_off.push(inner.len());
            c = c + 1;
            proof {
                let rows2 = done + Seq::new(c as nat, |_j: int| index as int);
                assert(rows2 =~= rows.push(index as int));
                lemma_inner_rows_push(offsets@, rows, index as int);
                assert(offsets_take(offsets@, rows2, new_off@)) by {
                    assert forall|k: int| 0 <= k < rows2.len() implies
                        #[trigger] new_off@[k + 1] == new_off@[k] + (offsets@[rows2[k] + 1] - offsets@[rows2[k]]) by {
                        if k < rows.len() {
                            assert(rows2[k] == rows[k]);
                            assert(new_off@[k + 1] == prev_off[k + 1]);
                        }
                    }
                }
            }
        }
        proof {
            assert(indices@.take(i + 1) =~= indices@.take(i as int).push((index, cnt)));
            lemma_expand_push(indices@.take(i as int), (index, cnt));
        }
        i = i + 1;
    }
    assert(indices@.take(i as int) =~= indices@);
    (new_off, inner)
}

impl Column {
    /// Builds a variable-length column by pushing the item at `index` `cnt`
    /// times for every run `(index, cnt)`.
    fn take_compact_arg_types(col: &BinaryColumn, indices: &[(usize, usize)], row_num: usize) -> (r: BinaryColumn)
        requires
            col.wf(),
            runs_in_bounds(indices@, col@.len()),
        ensures
            r.wf(),
            r@ == pick(col@, expand(indices@)),
    {
        let mut builder = BinaryColumn::with_capacity(row_num);
        let mut i: usize = 0;
        while i < indices.len()
            invariant
                col.wf(),
                i <= indices@.len(),
                runs_in_bounds(indices@, col@.len()),
                builder.wf(),
                builder@ =~= pick(col@, expand(indices@.take(i as int))),
            decreases indices@.len() - i,
        {
            let (index, cnt) = indices[i];
            assert(indices@[i as int].0 < col@.len());
            let ghost before = builder@;
            let mut k: usize = 0;
            while k < cnt
                invariant
                    col.wf(),
                    index < col@.len(),
                    k <= cnt,
                    builder.wf(),
                    builder@ =~= before + Seq::new(k as nat, |_j: int| col@[index as int]),
                decreases cnt - k,
            {
                builder.push_from(col, index);
                k = k + 1;
            }
            proof {
                assert(indices@.take(i + 1) =~= indices@.take(i as int).push((index, cnt)));
                lemma_expand_push(indices@.take(i as int), (index, cnt));
            }
            i = i + 1;
            assert(builder@ =~= pick(col@, expand(indices@.take(i as int))));
        }
        assert(indices@.take(i as int) =~= indices@);
        builder
    }

    /// Rebuilds an array (or map) column: fresh offsets for the selected rows,
    /// and the values of those rows taken from the inner column in order.
    pub fn take_scalar_types(col: &ArrayColumn, indices: &[(usize, usize)], row_num: usize) -> (r: ArrayColumn)
        requires
            Column::Array(*col).wf(),
            runs_in_bounds(indices@, (col.offsets@.len() - 1) as nat),
        ensures
            Column::Array(r).wf(),
            offsets_take(col.offsets@, expand(indices@), r.offsets@),
            is_take(*col.values, inner_rows(col.offsets@, expand(indices@)), *r.values),
        decreases col,
    {
        let (offsets, inner) = array_runs(&col.offsets, indices, row_num);
        let n = inner.len();
        let values = col.values.take_runs(inner.as_slice(), n);
        ArrayColumn { values: Box::new(values), offsets }
    }

    /// Builds a column of `row_num` rows in which every run `(index, cnt)` of
    /// `indices` contributes `cnt` copies of row `index`, in order.
    pub fn take_compacted_indices(&self, indices: &[(u32, u32)], row_num: usize) -> (r: Column)
        requires
            self.wf(),
            runs_in_bounds(widen(indices@), self.num_rows()),
            run_total(widen(indices@)) == row_num,
        ensures
            r.wf(),
            r.num_rows() == row_num,
            is_take(*self, expand(widen(indices@)), r),
    {
        let runs = widen_runs(indices);
        self.take_runs(runs.as_slice(), row_num)
    }

    /// Takes rows by a run list of native-width pairs.
    pub fn take_runs(&self, indices: &[(usize, usize)], row_num: usize) -> (r: Column)
        requires
            self.wf(),
            runs_in_bounds(indices@, self.num_rows()),
            run_total(indices@) == row_num,
        ensures
            r.wf(),
            r.num_rows() == row_num,
            is_take(*self, expand(indices@), r),
        decreases self,
    {
        proof {
            lemma_expand_len(indices@);
            lemma_expand_in_bounds(indices@, self.num_rows());
        }
        match self {
            Column::Null { .. } => Column::Null { len: row_num },
            Column::EmptyArray { .. } => Column::EmptyArray { len: row_num },
            Column::EmptyMap { .. } => Column::EmptyMap { len: row_num },
            Column::Number(c) => Column::Number(Self::take_number(c, indices, row_num)),
            Column::Decimal(c) => match c {
                DecimalColumn::Decimal128(v, size) => Column::Decimal(
                    DecimalColumn::Decimal128(Self::take_primitive_types(v.as_slice(), indices, row_num), *size),
                ),
                DecimalColumn::Decimal256(v, size) => Column::Decimal(
                    DecimalColumn::Decimal256(Self::take_primitive_types(v.as_slice(), indices, row_num), *size),
                ),
            },
            Column::Boolean(b) => Column::Boolean(Self::take_bool_types(b, indices, row_num)),
            Column::String(b) => Column::String(Self::take_compact_arg_types(b, indices, row_num)),
            Column::Bitmap(b) => Column::Bitmap(Self::take_compact_arg_types(b, indices, row_num)),
            Column::Variant(b) => Column::Variant(Self::take_compact_arg_types(b, indices, row_num)),
            Column::Timestamp(v) => Column::Timestamp(Self::take_primitive_types(v.as_slice(), indices, row_num)),
            Column::Date(v) => Column::Date(Self::take_primitive_types(v.as_slice(), indices, row_num)),
            Column::Array(a) => Column::Array(Self::take_scalar_types(a, indices, row_num)),
            Column::KvMap(a) => {
                assert(Column::Array(*a).wf());
                let r = Self::take_scalar_types(a, indices, row_num);
                Column::KvMap(r)
            },
            Column::Nullable(n) => {
                let column = n.column.take_runs(indices, row_num);
                let validity = Self::take_bool_types(&n.validity, indices, row_num);
                Column::Nullable(Box::new(NullableColumn { column, validity }))
            },
            Column::Tuple { fields, len: _ } => {
                let out = Self::take_fields(fields, indices, row_num);
                Column::Tuple { fields: out, len: row_num }
            },
        }
    }

    /// Takes the same rows from every field of a tuple, keeping field order.
    fn take_fields(fields: &Vec<Column>, indices: &[(usize, usize)], row_num: usize) -> (r: Vec<Column>)
        requires
            forall|m: int| 0 <= m < fields@.len() ==> #[trigger] fields[m].wf()
                && runs_in_bounds(indices@, fields[m].num_rows()),
            run_total(indices@) == row_num,
        ensures
            r@.len() == fields@.len(),
            forall|m: int| 0 <= m < fields@.len() ==> (#[trigger] r@[m]).wf() && r@[m].num_rows() == row_num
                && is_take(fields@[m], expand(indices@), r@[m]),
        decreases fields,
    {
        let mut out: Vec<Column> = Vec::with_capacity(fields.len());
        let mut k: usize = 0;
        while k < fields.len()
            invariant
                forall|m: int| 0 <= m < fields@.len() ==> #[trigger] fields[m].wf()
                    && runs_in_bounds(indices@, fields[m].num_rows()),
                k <= fields@.len(),
                out@.len() == k,
                run_total(indices@) == row_num,
                forall|m: int| 0 <= m < k ==> (#[trigger] out@[m]).wf() && out@[m].num_rows() == row_num
                    && is_take(fields@[m], expand(indices@), out@[m]),
            decreases fields@.len() - k,
        {
            proof {
                vstd::std_specs::vec::axiom_vec_index_decreases(*fields, k as int);
                assert(fields[k as int].wf());
            }
            let f = fields[k].take_runs(indices, row_num);
            out.push(f);
            k = k + 1;
        }
        out
    }

    fn take_number(c: &NumberColumn, indices: &[(usize, usize)], row_num: usize) -> (r: NumberColumn)
        requires
            runs_in_bounds(indices@, c.spec_len()),
            run_total(indices@) == row_num,
        ensures
            r.spec_len() == row_num,
            crate::column::number_take(*c, expand(indices@), r),
    {
        proof {
            lemma_expand_len(indices@);
        }
        match c {
            NumberColumn::UInt8(v) => NumberColumn::UInt8(Self::take_primitive_types(v.as_slice(), indices, row_num)),
            NumberColumn::UInt16(v) => NumberColumn::UInt16(Self::take_primitive_types(v.as_slice(), indices, row_num)),
            NumberColumn::UInt32(v) => NumberColumn::UInt32(Self::take_primitive_types(v.as_slice(), indices, row_num)),
            NumberColumn::UInt64(v) => NumberColumn::UInt64(Self::take_primitive_types(v.as_slice(), indices, row_num)),
            NumberColumn::Int8(v) => NumberColumn::Int8(Self::take_primitive_types(v.as_slice(), indices, row_num)),
            NumberColumn::Int16(v) => NumberColumn::Int16(Self::take_primitive_types(v.as_slice(), indices, row_num)),
            NumberColumn::Int32(v) => NumberColumn::Int32(Self::take_primitive_types(v.as_slice(), indices, row_num)),
            NumberColumn::Int64(v) => NumberColumn::Int64(Self::take_primitive_types(v.as_slice(), indices, row_num)),
            NumberColumn::Float32(v) => NumberColumn::Float32(Self::take_primitive_types(v.as_slice(), indices, row_num)),
            NumberColumn::Float64(v) => NumberColumn::Float64(Self::take_primitive_types(v.as_slice(), indices, row_num)),
        }
    }
}

} // verus!
