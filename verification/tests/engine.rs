use polars_core::chunked::{BinaryChunked, BooleanChunked, Int32Chunked, Int64Chunked};
use polars_core::dtype::TimeUnit;
use polars_core::error::PolarsError;
use polars_core::nested::ArrayChunked;
use polars_core::nested::{ListChunked, _list_comparison_helper};
use polars_core::null::{get_broadcast_length, NullChunked};
use polars_core::series::Series;
use polars_core::structs::StructChunked;

#[test]
fn appended_chunks_compare_like_one_chunk() {
    // Integers built by appending two 3-element chunks against the same
    // values in one chunk.
    let mut a1 = Int32Chunked::from_slice(String::from("a"), &[1, 2, 3]);
    a1.append(&Int32Chunked::from_slice(String::from("a"), &[4, 5, 6]))
        .unwrap();
    let a2 = Int32Chunked::from_slice(String::from("a"), &[1, 2, 3, 4, 5, 6]);

    assert_eq!(a1.len(), 6);
    assert_eq!(a1.chunk_lengths(), vec![3, 3]);
    assert_eq!(a1.equal(&a2).to_option_vec(), vec![Some(true); 6]);
    assert_eq!(a1.gt(&a2).to_option_vec(), vec![Some(false); 6]);
    assert_eq!(a1.lt_eq(&a2).to_option_vec(), vec![Some(true); 6]);
}

#[test]
fn strict_lt_propagates_missing() {
    let a = Int32Chunked::from_slice_options(String::new(), &[Some(1), None, Some(3)]);
    let b = Int32Chunked::from_slice_options(String::new(), &[Some(1), Some(2), Some(3)]);
    assert_eq!(
        a.lt(&b).to_option_vec(),
        vec![Some(false), None, Some(false)]
    );
}

#[test]
fn struct_with_null_field_equal_missing_and_strict() {
    // One row each, fields {x, y}: {x:1, y:None} vs {x:1, y:None}.
    let make = || {
        StructChunked::from_series(
            String::new(),
            vec![String::from("x"), String::from("y")],
            vec![
                Series::Int32(Int32Chunked::from_slice_options(
                    String::from("x"),
                    &[Some(1)],
                )),
                Series::Int32(Int32Chunked::from_slice_options(String::from("y"), &[None])),
            ],
            vec![true],
        )
    };
    let a = make();
    let b = make();
    assert_eq!(a.equal_missing(&b).to_option_vec(), vec![Some(true)]);
    assert_eq!(a.not_equal_missing(&b).to_option_vec(), vec![Some(false)]);
    // Under strict equality the position is missing, because field y is
    // null on both sides.
    assert_eq!(a.equal(&b).to_option_vec(), vec![None]);
    assert_eq!(a.not_equal(&b).to_option_vec(), vec![None]);
}

#[test]
fn struct_arity_mismatch_is_unequal_not_an_error() {
    let a = StructChunked::from_series(
        String::new(),
        vec![String::from("x")],
        vec![Series::Int32(Int32Chunked::from_slice(
            String::from("x"),
            &[1, 2],
        ))],
        vec![true, true],
    );
    let b = StructChunked::from_series(
        String::new(),
        vec![String::from("x"), String::from("y")],
        vec![
            Series::Int32(Int32Chunked::from_slice(String::from("x"), &[1, 2])),
            Series::Int32(Int32Chunked::from_slice(String::from("y"), &[3, 4])),
        ],
        vec![true, true],
    );
    assert_eq!(a.equal(&b).to_option_vec(), vec![Some(false), Some(false)]);
    assert_eq!(a.not_equal(&b).to_option_vec(), vec![Some(true), Some(true)]);
}

#[test]
fn struct_broadcasts_single_row() {
    let a = StructChunked::from_series(
        String::new(),
        vec![String::from("x")],
        vec![Series::Int32(Int32Chunked::from_slice(
            String::from("x"),
            &[1, 2, 1],
        ))],
        vec![true, true, true],
    );
    let b = StructChunked::from_series(
        String::new(),
        vec![String::from("x")],
        vec![Series::Int32(Int32Chunked::from_slice(
            String::from("x"),
            &[1],
        ))],
        vec![true],
    );
    assert_eq!(
        a.equal_missing(&b).to_option_vec(),
        vec![Some(true), Some(false), Some(true)]
    );
    assert_eq!(
        a.equal(&b).to_option_vec(),
        vec![Some(true), Some(false), Some(true)]
    );
}

#[test]
fn missing_aware_reflexivity_concrete() {
    let x = Int32Chunked::from_slice_options(String::new(), &[Some(5), None, Some(-1), None]);
    assert_eq!(x.equal_missing(&x).to_option_vec(), vec![Some(true); 4]);
    assert_eq!(x.not_equal_missing(&x).to_option_vec(), vec![Some(false); 4]);
}

#[test]
fn missing_aware_negates_missing_aware_equality() {
    let a = Int32Chunked::from_slice_options(String::new(), &[Some(1), None, Some(3), None]);
    let b = Int32Chunked::from_slice_options(String::new(), &[Some(1), Some(2), None, None]);
    let eq = a.equal_missing(&b);
    let ne = a.not_equal_missing(&b);
    assert_eq!(
        eq.to_option_vec(),
        vec![Some(true), Some(false), Some(false), Some(true)]
    );
    assert_eq!(ne.to_option_vec(), eq.not().to_option_vec());
}

#[test]
fn broadcast_equals_repeated_scalar() {
    let a = Int32Chunked::from_slice_options(String::new(), &[Some(1), None, Some(2)]);
    let one = Int32Chunked::from_slice(String::new(), &[2]);
    let repeated = Int32Chunked::from_slice(String::new(), &[2, 2, 2]);
    assert_eq!(a.equal(&one).to_option_vec(), a.equal(&repeated).to_option_vec());
    assert_eq!(a.lt(&one).to_option_vec(), a.lt(&repeated).to_option_vec());
    assert_eq!(
        a.equal_missing(&one).to_option_vec(),
        a.equal_missing(&repeated).to_option_vec()
    );
}

#[test]
fn missing_scalar_strict_and_missing_aware() {
    let a = Int32Chunked::from_slice_options(String::new(), &[Some(1), None, Some(3)]);
    let null_scalar = Int32Chunked::from_slice_options(String::new(), &[None]);
    assert_eq!(a.equal(&null_scalar).to_option_vec(), vec![None, None, None]);
    assert_eq!(a.lt(&null_scalar).to_option_vec(), vec![None, None, None]);
    // Missing-aware: the null scalar equals exactly the missing positions.
    assert_eq!(
        a.equal_missing(&null_scalar).to_option_vec(),
        vec![Some(false), Some(true), Some(false)]
    );
    assert_eq!(
        a.not_equal_missing(&null_scalar).to_option_vec(),
        vec![Some(true), Some(false), Some(true)]
    );
}

#[test]
fn kleene_reductions() {
    let empty = BooleanChunked::from_slice_options(String::new(), &[]);
    assert!(!empty.any());
    assert!(empty.all());
    assert_eq!(empty.any_kleene(), Some(false));
    assert_eq!(empty.all_kleene(), Some(true));

    let mixed = BooleanChunked::from_slice_options(String::new(), &[Some(false), None]);
    assert!(!mixed.any());
    assert!(!mixed.all());
    assert_eq!(mixed.any_kleene(), None);
    assert_eq!(mixed.all_kleene(), Some(false));

    let with_true = BooleanChunked::from_slice_options(String::new(), &[Some(true), None]);
    assert!(with_true.any());
    assert_eq!(with_true.any_kleene(), Some(true));
    assert_eq!(with_true.all_kleene(), None);

    let all_null = BooleanChunked::from_slice_options(String::new(), &[None, None]);
    assert_eq!(all_null.any_kleene(), None);
    assert_eq!(all_null.all_kleene(), None);
    assert_eq!(all_null.sum(), Some(0));
    assert_eq!(with_true.sum(), Some(1));
}

#[test]
fn null_columns_compare_degenerately() {
    let a = NullChunked::new(String::from("n"), 3);
    let b = NullChunked::new(String::from("m"), 1);
    assert_eq!(get_broadcast_length(&a, &b), 3);
    assert_eq!(a.equal(&b).to_option_vec(), vec![None, None, None]);
    assert_eq!(a.equal_missing(&b).to_option_vec(), vec![Some(true); 3]);
    assert_eq!(a.not_equal_missing(&b).to_option_vec(), vec![Some(false); 3]);
    assert_eq!(a.lt(&b).to_option_vec(), vec![None, None, None]);
    assert_eq!(a.gt_eq(&b).to_option_vec(), vec![None, None, None]);
}

#[test]
fn binary_byte_lexicographic_order() {
    let a = BinaryChunked::from_slice(
        String::new(),
        &[vec![1u8, 2], vec![1u8, 2, 3], vec![2u8]],
    );
    let b = BinaryChunked::from_slice(
        String::new(),
        &[vec![1u8, 3], vec![1u8, 2], vec![2u8]],
    );
    assert_eq!(
        a.lt(&b).to_option_vec(),
        vec![Some(true), Some(false), Some(false)]
    );
    assert_eq!(
        a.lt_eq(&b).to_option_vec(),
        vec![Some(true), Some(false), Some(true)]
    );
    assert_eq!(
        a.equal(&b).to_option_vec(),
        vec![Some(false), Some(false), Some(true)]
    );
}

#[test]
fn fixed_size_arrays_compare_structurally() {
    let lhs = ArrayChunked::<i32>::from_rows(
        String::new(),
        2,
        vec![
            Some(vec![Some(1), Some(2)]),
            Some(vec![Some(1), None]),
            None,
        ],
    );
    let rhs = ArrayChunked::<i32>::from_rows(
        String::new(),
        2,
        vec![
            Some(vec![Some(1), Some(2)]),
            Some(vec![Some(1), None]),
            None,
        ],
    );
    assert_eq!(
        lhs.equal(&rhs).to_option_vec(),
        vec![Some(true), Some(true), None]
    );
    assert_eq!(
        lhs.equal_missing(&rhs).to_option_vec(),
        vec![Some(true), Some(true), Some(true)]
    );
    assert_eq!(
        lhs.not_equal_missing(&rhs).to_option_vec(),
        vec![Some(false), Some(false), Some(false)]
    );
}

#[test]
fn list_scalar_missing_falls_back_to_is_null() {
    let lhs = ListChunked::with_chunk(
        String::new(),
        vec![Some(vec![Some(1)]), None, Some(vec![Some(2)])],
    );
    let null_row = ListChunked::with_chunk(String::new(), vec![None]);
    assert_eq!(
        _list_comparison_helper(&lhs, &null_row, true, false).to_option_vec(),
        vec![Some(false), Some(true), Some(false)]
    );
    assert_eq!(
        _list_comparison_helper(&lhs, &null_row, true, true).to_option_vec(),
        vec![Some(true), Some(false), Some(true)]
    );
    assert_eq!(
        _list_comparison_helper(&lhs, &null_row, false, false).to_option_vec(),
        vec![None, None, None]
    );
}

#[test]
fn series_dispatch_rejects_mismatched_dtypes() {
    let ints = Series::Int32(Int32Chunked::from_slice(String::new(), &[1]));
    let bools = Series::Boolean(BooleanChunked::from_slice(String::new(), &[true]));
    assert!(matches!(
        ints.equal(&bools),
        Err(PolarsError::InvalidOperation { .. })
    ));
    assert!(matches!(
        ints.lt(&bools),
        Err(PolarsError::InvalidOperation { .. })
    ));
    let out = ints.equal(&ints).unwrap();
    assert_eq!(out.to_option_vec(), vec![Some(true)]);
}

#[test]
fn datetime_subtract_gives_duration() {
    let a = Int64Chunked::from_slice_options(String::new(), &[Some(100), None, Some(300)])
        .into_datetime(TimeUnit::Milliseconds, None);
    let b = Int64Chunked::from_slice_options(String::new(), &[Some(40), Some(50), Some(60)])
        .into_datetime(TimeUnit::Milliseconds, None);
    let d = a.subtract(&b.into_series()).unwrap();
    match d {
        Series::Duration(dur) => {
            assert_eq!(dur.time_unit(), TimeUnit::Milliseconds);
            assert_eq!(
                dur.physical().to_option_vec(),
                vec![Some(60), None, Some(240)]
            );
        }
        _ => panic!("expected a duration column"),
    }
}

#[test]
fn datetime_add_duration_and_rejections() {
    let a = Int64Chunked::from_slice(String::new(), &[100, 200])
        .into_datetime(TimeUnit::Microseconds, Some(String::from("UTC")));
    let d = Int64Chunked::from_slice(String::new(), &[5])
        .into_duration(TimeUnit::Microseconds);
    let out = a.add_to(&d.into_series()).unwrap();
    match out {
        Series::Datetime(dt) => {
            assert_eq!(dt.physical().to_option_vec(), vec![Some(105), Some(205)]);
            assert_eq!(dt.time_zone(), &Some(String::from("UTC")));
        }
        _ => panic!("expected a datetime column"),
    }
    let ints = Series::Int64(Int64Chunked::from_slice(String::new(), &[1, 2]));
    assert!(matches!(
        a.add_to(&ints),
        Err(PolarsError::InvalidOperation { .. })
    ));
    assert!(matches!(
        a.multiply(&ints),
        Err(PolarsError::InvalidOperation { .. })
    ));
    assert!(matches!(
        a.divide(&ints),
        Err(PolarsError::InvalidOperation { .. })
    ));
    assert!(matches!(
        a.remainder(&ints),
        Err(PolarsError::InvalidOperation { .. })
    ));
}

#[test]
fn datetime_append_checks_dtype() {
    let mut a = Int64Chunked::from_slice(String::new(), &[1])
        .into_datetime(TimeUnit::Milliseconds, None);
    let b = Int64Chunked::from_slice(String::new(), &[2])
        .into_datetime(TimeUnit::Nanoseconds, None);
    assert!(matches!(
        a.append(&b),
        Err(PolarsError::SchemaMismatch { .. })
    ));
    let c = Int64Chunked::from_slice(String::new(), &[3])
        .into_datetime(TimeUnit::Milliseconds, None);
    a.append(&c).unwrap();
    assert_eq!(a.physical().to_option_vec(), vec![Some(1), Some(3)]);
}

#[test]
fn equal_element_is_missing_aware() {
    let a = Int32Chunked::from_slice_options(String::new(), &[Some(1), None]);
    let b = Series::Int32(Int32Chunked::from_slice_options(
        String::new(),
        &[Some(1), None, Some(2)],
    ));
    assert!(a.equal_element(0, 0, &b));
    assert!(a.equal_element(1, 1, &b));
    assert!(!a.equal_element(0, 1, &b));
    assert!(!a.equal_element(0, 2, &b));
}

#[test]
fn series_level_dispatch() {
    let a = Series::Int32(Int32Chunked::from_slice_options(
        String::new(),
        &[Some(1), None],
    ));
    let b = Series::Int32(Int32Chunked::from_slice_options(
        String::new(),
        &[Some(1), Some(2)],
    ));
    assert_eq!(a.is_null().to_option_vec(), vec![Some(false), Some(true)]);
    assert_eq!(a.is_not_null().to_option_vec(), vec![Some(true), Some(false)]);
    assert_eq!(a.len(), 2);
    assert_eq!(
        a.equal(&b).unwrap().to_option_vec(),
        vec![Some(true), None]
    );
    assert_eq!(
        a.equal_missing(&b).unwrap().to_option_vec(),
        vec![Some(true), Some(false)]
    );
    assert_eq!(
        a.not_equal_missing(&b).unwrap().to_option_vec(),
        vec![Some(false), Some(true)]
    );
    assert_eq!(a.lt_eq(&b).unwrap().to_option_vec(), vec![Some(true), None]);
    assert_eq!(a.gt(&b).unwrap().to_option_vec(), vec![Some(false), None]);
    assert!(a.list().is_err());
}

#[test]
fn series_level_struct_comparison() {
    let make = |v: i32| {
        Series::Struct(StructChunked::from_series(
            String::new(),
            vec![String::from("x")],
            vec![Series::Int32(Int32Chunked::from_slice(
                String::from("x"),
                &[v],
            ))],
            vec![true],
        ))
    };
    let a = make(1);
    let b = make(1);
    let c = make(2);
    assert_eq!(a.equal(&b).unwrap().to_option_vec(), vec![Some(true)]);
    assert_eq!(a.equal_missing(&c).unwrap().to_option_vec(), vec![Some(false)]);
    // Struct columns carry no order.
    assert!(a.lt(&b).is_err());
}
