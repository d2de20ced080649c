use take_compact::binary::BinaryColumn;
use take_compact::bitmap::Bitmap;
use take_compact::block::{BlockEntry, DataBlock, Value};
use take_compact::column::{
    ArrayColumn, Column, DecimalColumn, DecimalSize, NullableColumn, NumberColumn, I256,
};

fn ints(c: &Column) -> Vec<i32> {
    match c {
        Column::Number(NumberColumn::Int32(v)) => v.clone(),
        _ => panic!("not an int32 column"),
    }
}

fn strings(items: &[&str]) -> BinaryColumn {
    let mut b = BinaryColumn::with_capacity(items.len());
    for s in items {
        b.push(s.as_bytes());
    }
    b
}

fn string_rows(b: &BinaryColumn) -> Vec<String> {
    (0..b.len()).map(|i| String::from_utf8(b.item(i)).unwrap()).collect()
}

fn int_array(rows: &[&[i32]]) -> ArrayColumn {
    let mut values = Vec::new();
    let mut offsets = vec![0usize];
    for r in rows {
        values.extend_from_slice(r);
        offsets.push(values.len());
    }
    ArrayColumn { values: Box::new(Column::Number(NumberColumn::Int32(values))), offsets }
}

#[test]
fn numeric_runs_repeat_and_reorder() {
    let c = Column::Number(NumberColumn::Int32(vec![10, 20, 30]));
    let r = c.take_compacted_indices(&[(0, 2), (2, 1)], 3);
    assert_eq!(ints(&r), vec![10, 10, 30]);
}

#[test]
fn single_run_repeats_one_row() {
    let c = Column::Number(NumberColumn::Int32(vec![10, 20, 30]));
    let r = c.take_compacted_indices(&[(1, 7)], 7);
    assert_eq!(ints(&r), vec![20; 7]);
}

#[test]
fn doubling_fills_every_run_length() {
    let src: Vec<u64> = vec![5, 6, 7];
    for cnt in 1usize..=40 {
        let runs = vec![(2usize, cnt), (0usize, 1usize), (1usize, cnt + 3)];
        let out = Column::take_primitive_types(&src, &runs, 2 * cnt + 4);
        let mut expected = vec![7u64; cnt];
        expected.push(5);
        expected.extend(std::iter::repeat(6u64).take(cnt + 3));
        assert_eq!(out, expected);
    }
}

#[test]
fn row_count_matches_sum_of_counts() {
    let c = Column::Number(NumberColumn::UInt8(vec![1, 2, 3, 4]));
    let r = c.take_compacted_indices(&[(3, 4), (0, 0), (1, 2), (2, 5)], 11);
    match r {
        Column::Number(NumberColumn::UInt8(v)) => {
            assert_eq!(v.len(), 11);
            assert_eq!(v, vec![4, 4, 4, 4, 2, 2, 3, 3, 3, 3, 3]);
        }
        _ => panic!("kind changed"),
    }
}

#[test]
fn identity_runs_give_the_source() {
    let c = Column::Number(NumberColumn::Int64(vec![-3, 9, 0, 12]));
    let r = c.take_compacted_indices(&[(0, 1), (1, 1), (2, 1), (3, 1)], 4);
    match r {
        Column::Number(NumberColumn::Int64(v)) => assert_eq!(v, vec![-3, 9, 0, 12]),
        _ => panic!("kind changed"),
    }
    let s = Column::String(strings(&["a", "", "xyz"]));
    match s.take_compacted_indices(&[(0, 1), (1, 1), (2, 1)], 3) {
        Column::String(b) => assert_eq!(string_rows(&b), vec!["a", "", "xyz"]),
        _ => panic!("kind changed"),
    }
}

#[test]
fn boolean_expansion() {
    let c = Column::Boolean(Bitmap::from_bools(vec![true, false, true]));
    match c.take_compacted_indices(&[(1, 3)], 3) {
        Column::Boolean(b) => assert_eq!(b.to_bools(), vec![false, false, false]),
        _ => panic!("kind changed"),
    }
    let bm = Bitmap::from_bools(vec![true, false, true]);
    let out = Column::take_bool_types(&bm, &[(2, 2), (1, 1), (0, 1)], 4);
    assert_eq!(out.to_bools(), vec![true, true, false, true]);
}

#[test]
fn strings_are_pushed_per_row() {
    let c = Column::String(strings(&["ab", "c", "", "def"]));
    match c.take_compacted_indices(&[(3, 2), (2, 1), (0, 3)], 6) {
        Column::String(b) => assert_eq!(string_rows(&b), vec!["def", "def", "", "ab", "ab", "ab"]),
        _ => panic!("kind changed"),
    }
    let v = Column::Variant(strings(&["{}", "[1]"]));
    match v.take_compacted_indices(&[(1, 2)], 2) {
        Column::Variant(b) => assert_eq!(string_rows(&b), vec!["[1]", "[1]"]),
        _ => panic!("kind changed"),
    }
}

#[test]
fn nullable_validity_follows_rows() {
    let c = Column::Nullable(Box::new(NullableColumn {
        column: Column::Number(NumberColumn::Int32(vec![1, 2, 3, 4])),
        validity: Bitmap::from_bools(vec![true, false, false, true]),
    }));
    match c.take_compacted_indices(&[(1, 2), (3, 1), (0, 2), (2, 1)], 6) {
        Column::Nullable(n) => {
            assert_eq!(n.validity.to_bools(), vec![false, false, true, true, true, false]);
            assert_eq!(ints(&n.column), vec![2, 2, 4, 1, 1, 3]);
        }
        _ => panic!("kind changed"),
    }
}

#[test]
fn array_offsets_are_rebuilt() {
    let c = Column::Array(int_array(&[&[1, 2], &[], &[3, 4, 5]]));
    match c.take_compacted_indices(&[(2, 2), (1, 1), (0, 1)], 4) {
        Column::Array(a) => {
            assert_eq!(a.offsets, vec![0, 3, 6, 6, 8]);
            assert_eq!(ints(&a.values), vec![3, 4, 5, 3, 4, 5, 1, 2]);
        }
        _ => panic!("kind changed"),
    }
}

#[test]
fn nested_arrays_are_rebuilt() {
    let inner = int_array(&[&[1], &[2, 3], &[], &[4]]);
    let outer = ArrayColumn { values: Box::new(Column::Array(inner)), offsets: vec![0, 2, 4] };
    let c = Column::Array(outer);
    match c.take_compacted_indices(&[(1, 2)], 2) {
        Column::Array(a) => {
            assert_eq!(a.offsets, vec![0, 2, 4]);
            match *a.values {
                Column::Array(inner) => {
                    assert_eq!(inner.offsets, vec![0, 0, 1, 1, 2]);
                    assert_eq!(ints(&inner.values), vec![4, 4]);
                }
                _ => panic!("kind changed"),
            }
        }
        _ => panic!("kind changed"),
    }
}

#[test]
fn map_keeps_keys_and_values_together() {
    let kv = Column::Tuple {
        fields: vec![
            Column::String(strings(&["a", "b", "c"])),
            Column::Number(NumberColumn::Int32(vec![1, 2, 3])),
        ],
        len: 3,
    };
    let c = Column::KvMap(ArrayColumn { values: Box::new(kv), offsets: vec![0, 2, 3] });
    match c.take_compacted_indices(&[(1, 1), (0, 1)], 2) {
        Column::KvMap(a) => {
            assert_eq!(a.offsets, vec![0, 1, 3]);
            match *a.values {
                Column::Tuple { fields, len } => {
                    assert_eq!(len, 3);
                    match &fields[0] {
                        Column::String(k) => assert_eq!(string_rows(k), vec!["c", "a", "b"]),
                        _ => panic!("kind changed"),
                    }
                    assert_eq!(ints(&fields[1]), vec![3, 1, 2]);
                }
                _ => panic!("kind changed"),
            }
        }
        _ => panic!("kind changed"),
    }
}

#[test]
fn tuple_fields_share_rows() {
    let c = Column::Tuple {
        fields: vec![
            Column::Number(NumberColumn::Int32(vec![1, 2, 3])),
            Column::Boolean(Bitmap::from_bools(vec![true, false, true])),
        ],
        len: 3,
    };
    match c.take_compacted_indices(&[(2, 1), (1, 2)], 3) {
        Column::Tuple { fields, len } => {
            assert_eq!(len, 3);
            assert_eq!(ints(&fields[0]), vec![3, 2, 2]);
            match &fields[1] {
                Column::Boolean(b) => assert_eq!(b.to_bools(), vec![true, false, false]),
                _ => panic!("kind changed"),
            }
        }
        _ => panic!("kind changed"),
    }
}

#[test]
fn placeholders_take_the_row_count() {
    let c = Column::Null { len: 2 };
    match c.take_compacted_indices(&[(0, 3), (1, 2)], 5) {
        Column::Null { len } => assert_eq!(len, 5),
        _ => panic!("kind changed"),
    }
    let e = Column::EmptyMap { len: 1 };
    match e.take_compacted_indices(&[(0, 4)], 4) {
        Column::EmptyMap { len } => assert_eq!(len, 4),
        _ => panic!("kind changed"),
    }
}

#[test]
fn decimals_and_temporals_keep_their_type() {
    let size = DecimalSize { precision: 38, scale: 2 };
    let c = Column::Decimal(DecimalColumn::Decimal128(vec![100, -250], size));
    match c.take_compacted_indices(&[(1, 3)], 3) {
        Column::Decimal(DecimalColumn::Decimal128(v, s)) => {
            assert_eq!(v, vec![-250, -250, -250]);
            assert_eq!(s, size);
        }
        _ => panic!("kind changed"),
    }
    let w = I256 { hi: -1, lo: 7 };
    let c = Column::Decimal(DecimalColumn::Decimal256(vec![w], size));
    match c.take_compacted_indices(&[(0, 2)], 2) {
        Column::Decimal(DecimalColumn::Decimal256(v, _)) => assert_eq!(v, vec![w, w]),
        _ => panic!("kind changed"),
    }
    let t = Column::Timestamp(vec![1_700_000_000_000_000, 5]);
    match t.take_compacted_indices(&[(1, 1), (0, 1)], 2) {
        Column::Timestamp(v) => assert_eq!(v, vec![5, 1_700_000_000_000_000]),
        _ => panic!("kind changed"),
    }
    let d = Column::Date(vec![19000, 19001]);
    match d.take_compacted_indices(&[(0, 1), (1, 2)], 3) {
        Column::Date(v) => assert_eq!(v, vec![19000, 19001, 19001]),
        _ => panic!("kind changed"),
    }
    let f = Column::Number(NumberColumn::Float64(vec![1.5f64.to_bits(), 2.5f64.to_bits()]));
    match f.take_compacted_indices(&[(1, 2)], 2) {
        Column::Number(NumberColumn::Float64(v)) => {
            assert_eq!(v.iter().map(|b| f64::from_bits(*b)).collect::<Vec<_>>(), vec![2.5, 2.5])
        }
        _ => panic!("kind changed"),
    }
}

#[test]
fn empty_run_list_gives_zero_rows() {
    let c = Column::Number(NumberColumn::Int32(vec![1, 2]));
    assert_eq!(ints(&c.take_compacted_indices(&[], 0)), Vec::<i32>::new());
    let block = DataBlock {
        entries: vec![
            BlockEntry { value: Value::Column(Column::Number(NumberColumn::Int32(vec![1, 2]))) },
            BlockEntry { value: Value::Scalar(Column::String(strings(&["k"]))) },
            BlockEntry { value: Value::Column(Column::Array(int_array(&[&[1], &[2, 3]]))) },
        ],
        num_rows: 2,
    };
    let r = block.take_compacted_indices(&[], 0);
    assert_eq!(r.num_rows, 0);
    assert_eq!(r.entries.len(), 3);
    match &r.entries[0].value {
        Value::Column(c) => assert_eq!(ints(c), Vec::<i32>::new()),
        _ => panic!("kind changed"),
    }
    match &r.entries[1].value {
        Value::Scalar(Column::String(b)) => assert_eq!(string_rows(b), vec!["k"]),
        _ => panic!("kind changed"),
    }
    match &r.entries[2].value {
        Value::Column(Column::Array(a)) => {
            assert_eq!(a.offsets, vec![0]);
            assert_eq!(ints(&a.values), Vec::<i32>::new());
        }
        _ => panic!("kind changed"),
    }
}

#[test]
fn block_takes_columns_and_keeps_scalars() {
    let block = DataBlock {
        entries: vec![
            BlockEntry { value: Value::Column(Column::Number(NumberColumn::Int32(vec![7, 8, 9]))) },
            BlockEntry { value: Value::Scalar(Column::Number(NumberColumn::Int32(vec![42]))) },
        ],
        num_rows: 3,
    };
    let r = block.take_compacted_indices(&[(2, 2), (0, 1)], 3);
    assert_eq!(r.num_rows, 3);
    match &r.entries[0].value {
        Value::Column(c) => assert_eq!(ints(c), vec![9, 9, 7]),
        _ => panic!("kind changed"),
    }
    match &r.entries[1].value {
        Value::Scalar(c) => assert_eq!(ints(c), vec![42]),
        _ => panic!("kind changed"),
    }
}

#[test]
fn booleans_across_byte_boundaries() {
    let src: Vec<bool> = (0..19).map(|i| i % 3 == 0).collect();
    let bm = Bitmap::from_bools(src.clone());
    assert_eq!(bm.len(), 19);
    assert_eq!(bm.to_bools(), src);
    let c = Column::Boolean(bm);
    match c.take_compacted_indices(&[(18, 9), (17, 10), (0, 1)], 20) {
        Column::Boolean(b) => {
            let mut expected = vec![true; 9];
            expected.extend(vec![false; 10]);
            expected.push(true);
            assert_eq!(b.to_bools(), expected);
        }
        _ => panic!("kind changed"),
    }
}
