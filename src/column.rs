//! The column model: one variant per physical representation, with its row
//! count, well-formedness and the relation that a take must establish.
use vstd::prelude::*;
use crate::binary::{offsets_wf, BinaryColumn};
use crate::bitmap::Bitmap;
use crate::runs::pick;

verus! {

/// Precision and scale of a decimal column.
#[derive(Clone, Copy, Debug, PartialEq, Eq)]
pub struct DecimalSize {
    pub precision: u8,
    pub scale: u8,
}

/// A 256-bit integer as its high and low halves.
#[derive(Clone, Copy, Debug, PartialEq, Eq)]
pub struct I256 {
    pub hi: i128,
    pub lo: u128,
}

/// Fixed-width numeric buffers. Floating-point kinds hold their IEEE-754 bit
/// patterns.
pub enum NumberColumn {
    UInt8(Vec<u8>),
    UInt16(Vec<u16>),
    UInt32(Vec<u32>),
    UInt64(Vec<u64>),
    Int8(Vec<i8>),
    Int16(Vec<i16>),
    Int32(Vec<i32>),
    Int64(Vec<i64>),
    Float32(Vec<u32>),
    Float64(Vec<u64>),
}

/// Fixed-width decimal buffers with their size.
pub enum DecimalColumn {
    Decimal128(Vec<i128>, DecimalSize),
    Decimal256(Vec<I256>, DecimalSize),
}

/// Rows `values[offsets[i]..offsets[i + 1]]`, one per row.
pub struct ArrayColumn {
    pub values: Box<Column>,
    pub offsets: Vec<usize>,
}

/// A column with one validity bit per row.
pub struct NullableColumn {
    pub column: Column,
    pub validity: Bitmap,
}

/// An in-memory column.
pub enum Column {
    Null { len: usize },
    EmptyArray { len: usize },
    EmptyMap { len: usize },
    Number(NumberColumn),
    Decimal(DecimalColumn),
    Boolean(Bitmap),
    String(BinaryColumn),
    Bitmap(BinaryColumn),
    Variant(BinaryColumn),
    Timestamp(Vec<i64>),
    Date(Vec<i32>),
    Array(ArrayColumn),
    /// An array whose values are a tuple of keys and values.
    KvMap(ArrayColumn),
    Nullable(Box<NullableColumn>),
    Tuple { fields: Vec<Column>, len: usize },
}

impl NumberColumn {
    pub open spec fn spec_len(&self) -> nat {
        match self {
            NumberColumn::UInt8(v) => v@.len(),
            NumberColumn::UInt16(v) => v@.len(),
            NumberColumn::UInt32(v) => v@.len(),
            NumberColumn::UInt64(v) => v@.len(),
            NumberColumn::Int8(v) => v@.len(),
            NumberColumn::Int16(v) => v@.len(),
            NumberColumn::Int32(v) => v@.len(),
            NumberColumn::Int64(v) => v@.len(),
            NumberColumn::Float32(v) => v@.len(),
            NumberColumn::Float64(v) => v@.len(),
        }
    }
}

impl DecimalColumn {
    pub open spec fn spec_len(&self) -> nat {
        match self {
            DecimalColumn::Decimal128(v, _) => v@.len(),
            DecimalColumn::Decimal256(v, _) => v@.len(),
        }
    }
}

/// `out` holds the rows `rows` of `src`, of the same numeric kind.
pub open spec fn number_take(src: NumberColumn, rows: Seq<int>, out: NumberColumn) -> bool {
    match (src, out) {
        (NumberColumn::UInt8(a), NumberColumn::UInt8(b)) => b@ == pick(a@, rows),
        (NumberColumn::UInt16(a), NumberColumn::UInt16(b)) => b@ == pick(a@, rows),
        (NumberColumn::UInt32(a), NumberColumn::UInt32(b)) => b@ == pick(a@, rows),
        (NumberColumn::UInt64(a), NumberColumn::UInt64(b)) => b@ == pick(a@, rows),
        (NumberColumn::Int8(a), NumberColumn::Int8(b)) => b@ == pick(a@, rows),
        (NumberColumn::Int16(a), NumberColumn::Int16(b)) => b@ == pick(a@, rows),
        (NumberColumn::Int32(a), NumberColumn::Int32(b)) => b@ == pick(a@, rows),
        (NumberColumn::Int64(a), NumberColumn::Int64(b)) => b@ == pick(a@, rows),
        (NumberColumn::Float32(a), NumberColumn::Float32(b)) => b@ == pick(a@, rows),
        (NumberColumn::Float64(a), NumberColumn::Float64(b)) => b@ == pick(a@, rows),
        _ => false,
    }
}

/// `a` and `b` are of one numeric kind and hold the same values.
pub open spec fn number_same(a: NumberColumn, b: NumberColumn) -> bool {
    match (a, b) {
        (NumberColumn::UInt8(a), NumberColumn::UInt8(b)) => a@ == b@,
        (NumberColumn::UInt16(a), NumberColumn::UInt16(b)) => a@ == b@,
        (NumberColumn::UInt32(a), NumberColumn::UInt32(b)) => a@ == b@,
        (NumberColumn::UInt64(a), NumberColumn::UInt64(b)) => a@ == b@,
        (NumberColumn::Int8(a), NumberColumn::Int8(b)) => a@ == b@,
        (NumberColumn::Int16(a), NumberColumn::Int16(b)) => a@ == b@,
        (NumberColumn::Int32(a), NumberColumn::Int32(b)) => a@ == b@,
        (NumberColumn::Int64(a), NumberColumn::Int64(b)) => a@ == b@,
        (NumberColumn::Float32(a), NumberColumn::Float32(b)) => a@ == b@,
        (NumberColumn::Float64(a), NumberColumn::Float64(b)) => a@ == b@,
        _ => false,
    }
}

/// `a` and `b` are of one decimal kind and size and hold the same values.
pub open spec fn decimal_same(a: DecimalColumn, b: DecimalColumn) -> bool {
    match (a, b) {
        (DecimalColumn::Decimal128(x, sa), DecimalColumn::Decimal128(y, sb)) => x@ == y@ && sa == sb,
        (DecimalColumn::Decimal256(x, sa), DecimalColumn::Decimal256(y, sb)) => x@ == y@ && sa == sb,
        _ => false,
    }
}

/// `out` holds the rows `rows` of `src`, with the same decimal size.
pub open spec fn decimal_take(src: DecimalColumn, rows: Seq<int>, out: DecimalColumn) -> bool {
    match (src, out) {
        (DecimalColumn::Decimal128(a, sa), DecimalColumn::Decimal128(b, sb)) => b@ == pick(a@, rows) && sa == sb,
        (DecimalColumn::Decimal256(a, sa), DecimalColumn::Decimal256(b, sb)) => b@ == pick(a@, rows) && sa == sb,
        _ => false,
    }
}

/// Offsets rebuilt for the selected rows: they start at zero and each
/// output row spans as many values as the source row it came from.
pub open spec fn offsets_take(src: Seq<usize>, rows: Seq<int>, out: Seq<usize>) -> bool {
    &&& out.len() == rows.len() + 1
    &&& out[0] == 0
    &&& forall|i: int| 0 <= i < rows.len() ==>
        #[trigger] out[i + 1] == out[i] + (src[rows[i] + 1] - src[rows[i]])
}

/// The value positions of the selected array rows, concatenated in order.
pub open spec fn inner_rows(offsets: Seq<usize>, rows: Seq<int>) -> Seq<int>
    decreases rows.len(),
{
    if rows.len() == 0 {
        Seq::empty()
    } else {
        let r = rows.last();
        inner_rows(offsets, rows.drop_last()) + Seq::new(
            (offsets[r + 1] - offsets[r]) as nat,
            |t: int| offsets[r] + t,
        )
    }
}

impl Column {
    /// Number of rows.
    pub open spec fn num_rows(&self) -> nat {
        match self {
            Column::Null { len } => *len as nat,
            Column::EmptyArray { len } => *len as nat,
            Column::EmptyMap { len } => *len as nat,
            Column::Number(c) => c.spec_len(),
            Column::Decimal(c) => c.spec_len(),
            Column::Boolean(b) => b@.len(),
            Column::String(b) => b@.len(),
            Column::Bitmap(b) => b@.len(),
            Column::Variant(b) => b@.len(),
            Column::Timestamp(v) => v@.len(),
            Column::Date(v) => v@.len(),
            Column::Array(a) => (a.offsets@.len() - 1) as nat,
            Column::KvMap(a) => (a.offsets@.len() - 1) as nat,
            Column::Nullable(n) => n.validity@.len(),
            Column::Tuple { fields: _, len } => *len as nat,
        }
    }

    /// Every nested part agrees with the row count: offsets are monotonic and
    /// end at the values' length, validity matches its column, tuple fields
    /// share the tuple's length, and a map's values are a key/value tuple.
    pub open spec fn wf(&self) -> bool
        decreases self,
    {
        match self {
            Column::Boolean(b) => b.wf(),
            Column::String(b) => b.wf(),
            Column::Bitmap(b) => b.wf(),
            Column::Variant(b) => b.wf(),
            Column::Array(a) => offsets_wf(a.offsets@, a.values.num_rows()) && a.values.wf(),
            Column::KvMap(a) => {
                &&& offsets_wf(a.offsets@, a.values.num_rows())
                &&& a.values.wf()
                &&& match *a.values {
                    Column::Tuple { fields, len: _ } => fields@.len() == 2,
                    _ => false,
                }
            },
            Column::Nullable(n) => n.column.wf() && n.validity.wf() && n.column.num_rows() == n.validity@.len(),
            Column::Tuple { fields, len } => forall|k: int|
                0 <= k < fields@.len() ==> (#[trigger] fields[k]).wf() && fields[k].num_rows() == *len,
            _ => true,
        }
    }
}

/// `a` and `b` hold the same rows with the same layout, at every level of
/// nesting.
pub open spec fn same_column(a: Column, b: Column) -> bool
    decreases a,
{
    match (a, b) {
        (Column::Null { len: x }, Column::Null { len: y }) => x == y,
        (Column::EmptyArray { len: x }, Column::EmptyArray { len: y }) => x == y,
        (Column::EmptyMap { len: x }, Column::EmptyMap { len: y }) => x == y,
        (Column::Number(x), Column::Number(y)) => number_same(x, y),
        (Column::Decimal(x), Column::Decimal(y)) => decimal_same(x, y),
        (Column::Boolean(x), Column::Boolean(y)) => x@ == y@,
        (Column::String(x), Column::String(y)) => x@ == y@,
        (Column::Bitmap(x), Column::Bitmap(y)) => x@ == y@,
        (Column::Variant(x), Column::Variant(y)) => x@ == y@,
        (Column::Timestamp(x), Column::Timestamp(y)) => x@ == y@,
        (Column::Date(x), Column::Date(y)) => x@ == y@,
        (Column::Array(x), Column::Array(y)) => x.offsets@ == y.offsets@ && same_column(*x.values, *y.values),
        (Column::KvMap(x), Column::KvMap(y)) => x.offsets@ == y.offsets@ && same_column(*x.values, *y.values),
        (Column::Nullable(x), Column::Nullable(y)) => {
            x.validity@ == y.validity@ && same_column(x.column, y.column)
        },
        (Column::Tuple { fields: fx, len: x }, Column::Tuple { fields: fy, len: y }) => {
            &&& x == y
            &&& fx@.len() == fy@.len()
            &&& forall|k: int| 0 <= k < fx@.len() ==> same_column(#[trigger] fx[k], fy[k])
        },
        _ => false,
    }
}

/// `out` is `src` with row `i` of `out` taken from row `rows[i]` of `src`, at
/// every level of nesting, and of the same kind as `src`.
pub open spec fn is_take(src: Column, rows: Seq<int>, out: Column) -> bool
    decreases src,
{
    match (src, out) {
        (Column::Null { .. }, Column::Null { len }) => len == rows.len(),
        (Column::EmptyArray { .. }, Column::EmptyArray { len }) => len == rows.len(),
        (Column::EmptyMap { .. }, Column::EmptyMap { len }) => len == rows.len(),
        (Column::Number(a), Column::Number(b)) => number_take(a, rows, b),
        (Column::Decimal(a), Column::Decimal(b)) => decimal_take(a, rows, b),
        (Column::Boolean(a), Column::Boolean(b)) => b@ == pick(a@, rows),
        (Column::String(a), Column::String(b)) => b@ == pick(a@, rows),
        (Column::Bitmap(a), Column::Bitmap(b)) => b@ == pick(a@, rows),
        (Column::Variant(a), Column::Variant(b)) => b@ == pick(a@, rows),
        (Column::Timestamp(a), Column::Timestamp(b)) => b@ == pick(a@, rows),
        (Column::Date(a), Column::Date(b)) => b@ == pick(a@, rows),
        (Column::Array(a), Column::Array(b)) => {
            &&& offsets_take(a.offsets@, rows, b.offsets@)
            &&& is_take(*a.values, inner_rows(a.offsets@, rows), *b.values)
        },
        (Column::KvMap(a), Column::KvMap(b)) => {
            &&& offsets_take(a.offsets@, rows, b.offsets@)
            &&& is_take(*a.values, inner_rows(a.offsets@, rows), *b.values)
        },
        (Column::Nullable(a), Column::Nullable(b)) => {
            &&& is_take(a.column, rows, b.column)
            &&& b.validity@ == pick(a.validity@, rows)
        },
        (Column::Tuple { fields: fa, len: _ }, Column::Tuple { fields: fb, len }) => {
            &&& len == rows.len()
            &&& fb@.len() == fa@.len()
            &&& forall|k: int| 0 <= k < fa@.len() ==> is_take(#[trigger] fa[k], rows, fb[k])
        },
        _ => false,
    }
}

} // verus!
