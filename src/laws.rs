//! Properties of the take relation that hold for every input.
use vstd::prelude::*;
use crate::column::{
    inner_rows, is_take, offsets_take, same_column, Column, DecimalColumn, NumberColumn,
};
use crate::runs::{expand, lemma_expand_len, lemma_expand_single, pick, run_total, rows_in_bounds};

verus! {

/// A take produces exactly one row per selected position; with a run list
/// whose counts sum to `n`, that is `n` rows.
pub proof fn law_row_count(src: Column, runs: Seq<(usize, usize)>, out: Column)
    requires
        is_take(src, expand(runs), out),
    ensures
        out.num_rows() == run_total(runs),
{
    lemma_expand_len(runs);
    lemma_take_len(src, expand(runs), out);
}

proof fn lemma_take_len(src: Column, rows: Seq<int>, out: Column)
    requires
        is_take(src, rows, out),
    ensures
        out.num_rows() == rows.len(),
{
    match (src, out) {
        (Column::Nullable(a), Column::Nullable(b)) => {
            assert(b.validity@.len() == rows.len());
        },
        _ => {},
    }
}

/// A single run `(k, n)` repeats source row `k` on all `n` output rows.
pub proof fn law_single_run(src: Column, k: usize, n: usize, out: Column)
    requires
        is_take(src, expand(seq![(k, n)]), out),
    ensures
        out.num_rows() == n,
        is_take(src, Seq::new(n as nat, |_i: int| k as int), out),
{
    lemma_expand_single(k, n);
    law_row_count(src, seq![(k, n)], out);
}

/// In a nullable column, every output validity bit is the source bit of the
/// row it was taken from.
pub proof fn law_nullable_alignment(src: Column, rows: Seq<int>, out: Column)
    requires
        src is Nullable,
        is_take(src, rows, out),
    ensures
        out is Nullable,
        out->Nullable_0.validity@.len() == rows.len(),
        forall|i: int| 0 <= i < rows.len() ==>
            (#[trigger] out->Nullable_0.validity@[i]) == src->Nullable_0.validity@[rows[i]],
        is_take(src->Nullable_0.column, rows, out->Nullable_0.column),
{
}

/// After taking from an array column, the offsets have one more entry than
/// there are rows, start at zero, never decrease, and each output row is as
/// long as the source row it came from.
pub proof fn law_array_offsets(src: Column, rows: Seq<int>, out: Column)
    requires
        src is Array,
        src.wf(),
        rows_in_bounds(rows, src.num_rows()),
        is_take(src, rows, out),
    ensures
        out is Array,
        out->Array_0.offsets@.len() == rows.len() + 1,
        out->Array_0.offsets@[0] == 0,
        forall|i: int| 0 <= i < rows.len() ==> out->Array_0.offsets@[i] <= #[trigger] out->Array_0.offsets@[i + 1],
        forall|i: int| 0 <= i < rows.len() ==> #[trigger] out->Array_0.offsets@[i + 1] - out->Array_0.offsets@[i]
            == src->Array_0.offsets@[rows[i] + 1] - src->Array_0.offsets@[rows[i]],
{
    let so = src->Array_0.offsets@;
    let oo = out->Array_0.offsets@;
    assert(offsets_take(so, rows, oo));
    assert forall|i: int| 0 <= i < rows.len() implies oo[i] <= #[trigger] oo[i + 1] by {
        assert(offsets_take(so, rows, oo));
        assert(0 <= rows[i] < so.len() - 1);
        assert(so[rows[i]] <= so[rows[i] + 1]);
    }
}

/// Every field of a taken tuple is taken at the same rows, so the fields of
/// one output row come from one source row.
pub proof fn law_tuple_alignment(src: Column, rows: Seq<int>, out: Column)
    requires
        src is Tuple,
        is_take(src, rows, out),
    ensures
        out is Tuple,
        out->Tuple_fields@.len() == src->Tuple_fields@.len(),
        forall|k: int| 0 <= k < src->Tuple_fields@.len() ==>
            is_take(#[trigger] src->Tuple_fields@[k], rows, out->Tuple_fields@[k]),
{
}

/// The identity selection.
pub open spec fn identity_rows(n: nat) -> Seq<int> {
    Seq::new(n, |i: int| i)
}

proof fn lemma_inner_rows_identity(so: Seq<usize>, n: nat)
    requires
        n + 1 <= so.len(),
        so[0] == 0,
        forall|i: int, j: int| 0 <= i <= j < so.len() ==> so[i] <= so[j],
    ensures
        inner_rows(so, identity_rows(n)) =~= identity_rows(so[n as int] as nat),
    decreases n,
{
    if n > 0 {
        let m = (n - 1) as nat;
        assert(identity_rows(n).drop_last() =~= identity_rows(m));
        lemma_inner_rows_identity(so, m);
        assert(so[m as int] <= so[n as int]);
    } else {
        assert(identity_rows(0) =~= Seq::<int>::empty());
    }
}

proof fn lemma_offsets_identity(so: Seq<usize>, oo: Seq<usize>, n: nat, i: int)
    requires
        so.len() == n + 1,
        so[0] == 0,
        offsets_take(so, identity_rows(n), oo),
        0 <= i <= n,
    ensures
        oo[i] == so[i],
    decreases i,
{
    if i > 0 {
        lemma_offsets_identity(so, oo, n, i - 1);
        assert(oo[(i - 1) + 1] == oo[i - 1] + (so[identity_rows(n)[i - 1] + 1] - so[identity_rows(n)[i - 1]]));
    }
}

/// Selecting every row once, in order, gives back a column equal to the source.
pub proof fn law_identity(src: Column, out: Column)
    requires
        src.wf(),
        is_take(src, identity_rows(src.num_rows()), out),
    ensures
        same_column(src, out),
    decreases src,
{
    let rows = identity_rows(src.num_rows());
    match (src, out) {
        (Column::Number(x), Column::Number(y)) => {
            match (x, y) {
                (NumberColumn::UInt8(a), NumberColumn::UInt8(b)) => { assert(b@ =~= a@); },
                (NumberColumn::UInt16(a), NumberColumn::UInt16(b)) => { assert(b@ =~= a@); },
                (NumberColumn::UInt32(a), NumberColumn::UInt32(b)) => { assert(b@ =~= a@); },
                (NumberColumn::UInt64(a), NumberColumn::UInt64(b)) => { assert(b@ =~= a@); },
                (NumberColumn::Int8(a), NumberColumn::Int8(b)) => { assert(b@ =~= a@); },
                (NumberColumn::Int16(a), NumberColumn::Int16(b)) => { assert(b@ =~= a@); },
                (NumberColumn::Int32(a), NumberColumn::Int32(b)) => { assert(b@ =~= a@); },
                (NumberColumn::Int64(a), NumberColumn::Int64(b)) => { assert(b@ =~= a@); },
                (NumberColumn::Float32(a), NumberColumn::Float32(b)) => { assert(b@ =~= a@); },
                (NumberColumn::Float64(a), NumberColumn::Float64(b)) => { assert(b@ =~= a@); },
                _ => {},
            }
        },
        (Column::Decimal(x), Column::Decimal(y)) => {
            match (x, y) {
                (DecimalColumn::Decimal128(a, _), DecimalColumn::Decimal128(b, _)) => { assert(b@ =~= a@); },
                (DecimalColumn::Decimal256(a, _), DecimalColumn::Decimal256(b, _)) => { assert(b@ =~= a@); },
                _ => {},
            }
        },
        (Column::Boolean(x), Column::Boolean(y)) => { assert(y@ =~= x@); },
        (Column::String(x), Column::String(y)) => { assert(y@ =~= x@); },
        (Column::Bitmap(x), Column::Bitmap(y)) => { assert(y@ =~= x@); },
        (Column::Variant(x), Column::Variant(y)) => { assert(y@ =~= x@); },
        (Column::Timestamp(x), Column::Timestamp(y)) => { assert(y@ =~= x@); },
        (Column::Date(x), Column::Date(y)) => { assert(y@ =~= x@); },
        (Column::Array(x), Column::Array(y)) => {
            let n = src.num_rows();
            assert forall|i: int| 0 <= i < x.offsets@.len() implies y.offsets@[i] == x.offsets@[i] by {
                lemma_offsets_identity(x.offsets@, y.offsets@, n, i);
            }
            assert(y.offsets@ =~= x.offsets@);
            lemma_inner_rows_identity(x.offsets@, n);
            law_identity(*x.values, *y.values);
        },
        (Column::KvMap(x), Column::KvMap(y)) => {
            let n = src.num_rows();
            assert forall|i: int| 0 <= i < x.offsets@.len() implies y.offsets@[i] == x.offsets@[i] by {
                lemma_offsets_identity(x.offsets@, y.offsets@, n, i);
            }
            assert(y.offsets@ =~= x.offsets@);
            lemma_inner_rows_identity(x.offsets@, n);
            law_identity(*x.values, *y.values);
        },
        (Column::Nullable(x), Column::Nullable(y)) => {
            assert(y.validity@ =~= x.validity@);
            law_identity(x.column, y.column);
        },
        (Column::Tuple { fields: fx, len: lx }, Column::Tuple { fields: fy, len: ly }) => {
            assert forall|k: int| 0 <= k < fx@.len() implies same_column(#[trigger] fx[k], fy[k]) by {
                assert(fx[k].wf() && fx[k].num_rows() == lx);
                assert(is_take(fx[k], rows, fy[k]));
                law_identity(fx[k], fy[k]);
            }
        },
        _ => {},
    }
}

} // verus!
