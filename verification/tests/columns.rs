use polars_core::chunked::{from_chunks_list_dtype, BooleanChunked, Int32Chunked, Int64Chunked};
use polars_core::dtype::{DataType, Field};
use polars_core::error::PolarsError;
use polars_core::string::StringChunked;

#[test]
fn constructors_and_cached_dimensions() {
    let ca = Int32Chunked::from_chunks(
        String::from("c"),
        vec![
            vec![Some(1), None],
            vec![],
            vec![Some(3)],
        ],
    );
    assert_eq!(ca.len(), 3);
    assert_eq!(ca.null_count(), 1);
    assert!(ca.has_nulls());
    assert_eq!(ca.chunk_lengths(), vec![2, 0, 1]);
    assert_eq!(ca.to_option_vec(), vec![Some(1), None, Some(3)]);
    assert_eq!(ca.name(), "c");

    let like = Int32Chunked::with_chunk_like(&ca, vec![Some(9)]);
    assert_eq!(like.name(), "c");
    assert_eq!(like.to_option_vec(), vec![Some(9)]);

    let nulls = Int32Chunked::full_null_like(&ca, 4);
    assert_eq!(nulls.name(), "c");
    assert_eq!(nulls.to_option_vec(), vec![None, None, None, None]);
    assert_eq!(nulls.null_count(), 4);
}

#[test]
fn from_vec_and_validity() {
    let ca = Int32Chunked::from_vec(String::new(), vec![7, 8, 9]);
    assert_eq!(ca.to_option_vec(), vec![Some(7), Some(8), Some(9)]);
    assert_eq!(ca.null_count(), 0);

    let ca = Int32Chunked::from_vec_validity(
        String::new(),
        vec![7, 8, 9],
        Some(vec![true, false, true]),
    );
    assert_eq!(ca.to_option_vec(), vec![Some(7), None, Some(9)]);

    let ca = Int32Chunked::from_vec_validity(String::new(), vec![7, 8], None);
    assert_eq!(ca.to_option_vec(), vec![Some(7), Some(8)]);
}

#[test]
fn try_from_chunk_iter_stops_at_first_error() {
    let ok: Result<Int32Chunked, PolarsError> = Int32Chunked::try_from_chunk_iter(
        String::new(),
        vec![Ok(vec![Some(1)]), Ok(vec![None, Some(2)])],
    );
    assert_eq!(ok.unwrap().to_option_vec(), vec![Some(1), None, Some(2)]);

    let err: Result<Int32Chunked, PolarsError> = Int32Chunked::try_from_chunk_iter(
        String::new(),
        vec![
            Ok(vec![Some(1)]),
            Err(PolarsError::SchemaMismatch {
                expected: DataType::Int32,
                found: DataType::Boolean,
            }),
            Ok(vec![Some(3)]),
        ],
    );
    assert!(matches!(err, Err(PolarsError::SchemaMismatch { .. })));
}

#[test]
fn from_chunk_iter_and_field_takes_the_field_name() {
    let field = Field::new(String::from("f"), DataType::Int32);
    let ca = Int32Chunked::from_chunk_iter_and_field(field, vec![vec![Some(1)], vec![Some(2)]]);
    assert_eq!(ca.name(), "f");
    assert_eq!(ca.to_option_vec(), vec![Some(1), Some(2)]);
}

#[test]
fn from_chunks_list_dtype_prefers_the_chunks() {
    let chunks: Vec<Vec<Option<i32>>> = vec![vec![Some(1)]];
    assert_eq!(from_chunks_list_dtype(&chunks, DataType::Null), DataType::Int32);
    let empty: Vec<Vec<Option<i32>>> = vec![];
    assert_eq!(from_chunks_list_dtype(&empty, DataType::Null), DataType::Null);
}

#[test]
fn from_bitmap_builds_a_fully_valid_column() {
    let ca = BooleanChunked::from_bitmap(String::from("b"), vec![true, false, true]);
    assert_eq!(ca.to_option_vec(), vec![Some(true), Some(false), Some(true)]);
    assert_eq!(ca.null_count(), 0);
    assert_eq!(ca.name(), "b");
}

#[test]
fn slice_clamps_and_counts_from_the_end() {
    let ca = Int32Chunked::from_slice(String::new(), &[0, 1, 2, 3, 4]);
    assert_eq!(ca.slice(1, 2).to_option_vec(), vec![Some(1), Some(2)]);
    assert_eq!(ca.slice(-2, 2).to_option_vec(), vec![Some(3), Some(4)]);
    assert_eq!(ca.slice(3, 10).to_option_vec(), vec![Some(3), Some(4)]);
    assert_eq!(ca.slice(9, 2).to_option_vec(), Vec::<Option<i32>>::new());
    assert_eq!(ca.slice(-9, 2).to_option_vec(), vec![Some(0), Some(1)]);
}

#[test]
fn storage_operations_on_views() {
    let ca = Int32Chunked::from_slice_options(String::new(), &[Some(1), None, Some(3)]);

    assert_eq!(
        ca.is_null().to_option_vec(),
        vec![Some(false), Some(true), Some(false)]
    );
    assert_eq!(
        ca.is_not_null().to_option_vec(),
        vec![Some(true), Some(false), Some(true)]
    );
    assert_eq!(ca.reverse().to_option_vec(), vec![Some(3), None, Some(1)]);
    assert_eq!(ca.shift(1).to_option_vec(), vec![None, Some(1), None]);
    assert_eq!(ca.shift(-1).to_option_vec(), vec![None, Some(3), None]);
    assert_eq!(ca.shift(5).to_option_vec(), vec![None, None, None]);
    assert_eq!(ca.new_from_index(2, 2).to_option_vec(), vec![Some(3), Some(3)]);

    let rechunked = ca.rechunk();
    assert_eq!(rechunked.chunk_lengths(), vec![3]);
    assert_eq!(rechunked.to_option_vec(), ca.to_option_vec());

    let mask = BooleanChunked::from_slice_options(
        String::new(),
        &[Some(true), Some(true), None],
    );
    assert_eq!(ca.filter(&mask).unwrap().to_option_vec(), vec![Some(1), None]);
    let short_mask = BooleanChunked::from_slice(String::new(), &[true]);
    assert!(ca.filter(&short_mask).is_err());

    assert_eq!(
        ca.take(&vec![2, 0, 0]).to_option_vec(),
        vec![Some(3), Some(1), Some(1)]
    );

    let other = Int32Chunked::from_slice(String::new(), &[7, 8, 9]);
    assert_eq!(
        ca.zip_with(&mask, &other).unwrap().to_option_vec(),
        vec![Some(1), None, Some(9)]
    );
}

#[test]
fn extend_keeps_values_without_a_new_chunk() {
    let mut ca = Int32Chunked::from_slice(String::new(), &[1, 2]);
    let other = Int32Chunked::from_slice_options(String::new(), &[None, Some(4)]);
    ca.extend(&other).unwrap();
    assert_eq!(ca.to_option_vec(), vec![Some(1), Some(2), None, Some(4)]);
    assert_eq!(ca.chunk_lengths(), vec![4]);
    assert_eq!(ca.null_count(), 1);
}

#[test]
fn rename_keeps_the_values() {
    let mut ca = Int32Chunked::from_slice(String::from("old"), &[1]);
    ca.rename(String::from("new"));
    assert_eq!(ca.name(), "new");
    assert_eq!(ca.to_option_vec(), vec![Some(1)]);
}

#[test]
fn string_columns_compare_like_their_bytes() {
    let a = StringChunked::from_slice(String::new(), &["apple", "pear", "zoo"]);
    let b = StringChunked::from_slice(String::new(), &["apricot", "pear", "ant"]);
    assert_eq!(
        a.lt(&b).to_option_vec(),
        vec![Some(true), Some(false), Some(false)]
    );
    assert_eq!(
        a.equal(&b).to_option_vec(),
        vec![Some(false), Some(true), Some(false)]
    );
    assert_eq!(
        a.gt_eq(&b).to_option_vec(),
        vec![Some(false), Some(true), Some(true)]
    );
}

#[test]
fn int64_min_max_ignore_missing() {
    let ca = Int64Chunked::from_slice_options(
        String::new(),
        &[Some(5), None, Some(-3), Some(9)],
    );
    assert_eq!(ca.min(), Some(-3));
    assert_eq!(ca.max(), Some(9));
    let empty = Int64Chunked::from_slice_options(String::new(), &[None]);
    assert_eq!(empty.min(), None);
    assert_eq!(empty.max(), None);
}

#[test]
fn sort_with_orders_values_and_places_nulls() {
    let ca = Int64Chunked::from_slice_options(
        String::new(),
        &[Some(3), None, Some(1), Some(2), None],
    );
    assert_eq!(
        ca.sort_with(false, false).to_option_vec(),
        vec![None, None, Some(1), Some(2), Some(3)]
    );
    assert_eq!(
        ca.sort_with(false, true).to_option_vec(),
        vec![Some(1), Some(2), Some(3), None, None]
    );
    assert_eq!(
        ca.sort_with(true, false).to_option_vec(),
        vec![None, None, Some(3), Some(2), Some(1)]
    );
    assert_eq!(
        ca.sort_with(true, true).to_option_vec(),
        vec![Some(3), Some(2), Some(1), None, None]
    );
}
