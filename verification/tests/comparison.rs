use polars_core::chunked::{BooleanChunked, Int32Chunked};
use polars_core::nested::ListChunked;
use polars_core::series::Series;
use polars_core::string::StringChunked;

fn get_chunked_array() -> Int32Chunked {
    Int32Chunked::from_slice(String::from("a"), &[1, 2, 3])
}

fn create_two_chunked() -> (Int32Chunked, Int32Chunked) {
    let mut a1 = Int32Chunked::from_slice(String::from("a"), &[1, 2, 3]);
    let a2 = Int32Chunked::from_slice(String::from("a"), &[4, 5, 6]);
    let a3 = Int32Chunked::from_slice(String::from("a"), &[1, 2, 3, 4, 5, 6]);
    a1.append(&a2).unwrap();
    (a1, a3)
}

#[test]
fn test_bitwise_ops() {
    let a = BooleanChunked::from_slice(String::from("a"), &[true, false, false]);
    let b = BooleanChunked::from_slice_options(
        String::from("b"),
        &[Some(true), Some(true), None],
    );
    assert_eq!(a.bitor(&b).to_option_vec(), &[Some(true), Some(true), None]);
    assert_eq!(
        a.bitand(&b).to_option_vec(),
        &[Some(true), Some(false), Some(false)]
    );
    assert_eq!(b.not().to_option_vec(), &[Some(false), Some(false), None]);
}

#[test]
fn test_compare_chunk_diff() {
    let (a1, a2) = create_two_chunked();

    assert_eq!(a1.equal(&a2).to_option_vec(), vec![Some(true); 6]);
    assert_eq!(a2.equal(&a1).to_option_vec(), vec![Some(true); 6]);
    assert_eq!(a1.not_equal(&a2).to_option_vec(), vec![Some(false); 6]);
    assert_eq!(a2.not_equal(&a1).to_option_vec(), vec![Some(false); 6]);
    assert_eq!(a1.gt(&a2).to_option_vec(), vec![Some(false); 6]);
    assert_eq!(a2.gt(&a1).to_option_vec(), vec![Some(false); 6]);
    assert_eq!(a1.gt_eq(&a2).to_option_vec(), vec![Some(true); 6]);
    assert_eq!(a2.gt_eq(&a1).to_option_vec(), vec![Some(true); 6]);
    assert_eq!(a1.lt_eq(&a2).to_option_vec(), vec![Some(true); 6]);
    assert_eq!(a2.lt_eq(&a1).to_option_vec(), vec![Some(true); 6]);
    assert_eq!(a1.lt(&a2).to_option_vec(), vec![Some(false); 6]);
    assert_eq!(a2.lt(&a1).to_option_vec(), vec![Some(false); 6]);
}

#[test]
fn test_equal_chunks() {
    let a1 = get_chunked_array();
    let a2 = get_chunked_array();

    assert_eq!(a1.equal(&a2).to_option_vec(), vec![Some(true); 3]);
    assert_eq!(a2.equal(&a1).to_option_vec(), vec![Some(true); 3]);
    assert_eq!(a1.not_equal(&a2).to_option_vec(), vec![Some(false); 3]);
    assert_eq!(a2.not_equal(&a1).to_option_vec(), vec![Some(false); 3]);
    assert_eq!(a1.gt(&a2).to_option_vec(), vec![Some(false); 3]);
    assert_eq!(a2.gt(&a1).to_option_vec(), vec![Some(false); 3]);
    assert_eq!(a1.gt_eq(&a2).to_option_vec(), vec![Some(true); 3]);
    assert_eq!(a2.gt_eq(&a1).to_option_vec(), vec![Some(true); 3]);
    assert_eq!(a1.lt_eq(&a2).to_option_vec(), vec![Some(true); 3]);
    assert_eq!(a2.lt_eq(&a1).to_option_vec(), vec![Some(true); 3]);
    assert_eq!(a1.lt(&a2).to_option_vec(), vec![Some(false); 3]);
    assert_eq!(a2.lt(&a1).to_option_vec(), vec![Some(false); 3]);
}

#[test]
fn test_null_handling() {
    // A comparison over one chunk must equal the same comparison over the
    // same data split differently into chunks.
    let a1 = Int32Chunked::from_slice_options(String::new(), &[Some(1), None, Some(3)]);
    let a2 = Int32Chunked::from_slice_options(String::new(), &[Some(1), Some(2), Some(3)]);

    let mut a2_2chunks = Int32Chunked::from_slice_options(String::new(), &[Some(1), Some(2)]);
    a2_2chunks
        .append(&Int32Chunked::from_slice_options(String::new(), &[Some(3)]))
        .unwrap();

    assert_eq!(
        a1.equal(&a2).to_option_vec(),
        a1.equal(&a2_2chunks).to_option_vec()
    );

    assert_eq!(
        a1.not_equal(&a2).to_option_vec(),
        a1.not_equal(&a2_2chunks).to_option_vec()
    );
    assert_eq!(
        a1.not_equal(&a2).to_option_vec(),
        a2_2chunks.not_equal(&a1).to_option_vec()
    );

    assert_eq!(a1.gt(&a2).to_option_vec(), a1.gt(&a2_2chunks).to_option_vec());
    assert_eq!(a1.gt(&a2).to_option_vec(), a2_2chunks.gt(&a1).to_option_vec());

    assert_eq!(
        a1.gt_eq(&a2).to_option_vec(),
        a1.gt_eq(&a2_2chunks).to_option_vec()
    );
    assert_eq!(
        a1.gt_eq(&a2).to_option_vec(),
        a2_2chunks.gt_eq(&a1).to_option_vec()
    );

    assert_eq!(
        a1.lt_eq(&a2).to_option_vec(),
        a1.lt_eq(&a2_2chunks).to_option_vec()
    );
    assert_eq!(
        a1.lt_eq(&a2).to_option_vec(),
        a2_2chunks.lt_eq(&a1).to_option_vec()
    );

    assert_eq!(a1.lt(&a2).to_option_vec(), a1.lt(&a2_2chunks).to_option_vec());
    assert_eq!(a1.lt(&a2).to_option_vec(), a2_2chunks.lt(&a1).to_option_vec());
}

#[test]
fn test_left_right() {
    // A sliced operand must compare like a freshly built one.
    let a1 = Int32Chunked::from_slice_options(String::new(), &[Some(1), Some(2)]);
    let a1 = a1.slice(1, 1);
    let a2 = Int32Chunked::from_slice_options(String::new(), &[Some(2)]);
    assert_eq!(a1.equal(&a2).sum(), a2.equal(&a1).sum());
    assert_eq!(a1.not_equal(&a2).sum(), a2.not_equal(&a1).sum());
    assert_eq!(a1.gt(&a2).sum(), a2.gt(&a1).sum());
    assert_eq!(a1.lt(&a2).sum(), a2.lt(&a1).sum());
    assert_eq!(a1.lt_eq(&a2).sum(), a2.lt_eq(&a1).sum());
    assert_eq!(a1.gt_eq(&a2).sum(), a2.gt_eq(&a1).sum());

    let a1 = StringChunked::from_slice(String::new(), &["a", "b"]);
    let a1 = a1.slice(1, 1);
    let a2 = StringChunked::from_slice(String::new(), &["b"]);
    assert_eq!(a1.equal(&a2).sum(), a2.equal(&a1).sum());
    assert_eq!(a1.not_equal(&a2).sum(), a2.not_equal(&a1).sum());
    assert_eq!(a1.gt(&a2).sum(), a2.gt(&a1).sum());
    assert_eq!(a1.lt(&a2).sum(), a2.lt(&a1).sum());
    assert_eq!(a1.lt_eq(&a2).sum(), a2.lt_eq(&a1).sum());
    assert_eq!(a1.gt_eq(&a2).sum(), a2.gt_eq(&a1).sum());
}

#[test]
fn test_kleene() {
    let a = BooleanChunked::from_slice_options(String::new(), &[Some(true), Some(false), None]);
    let trues = BooleanChunked::from_slice(String::new(), &[true, true, true]);
    let falses = BooleanChunked::from_slice(String::new(), &[false, false, false]);

    let c = a.bitor(&trues);
    assert_eq!(c.to_option_vec(), &[Some(true), Some(true), Some(true)]);

    let c = a.bitor(&falses);
    assert_eq!(c.to_option_vec(), &[Some(true), Some(false), None])
}

#[test]
fn list_broadcasting_lists() {
    let el: Vec<Option<i32>> = vec![Some(1), Some(2), Some(3)];
    let s_lhs = Series::List(ListChunked::with_chunk(
        String::new(),
        vec![Some(el.clone()), Some(el.clone())],
    ));
    let s_rhs = Series::List(ListChunked::with_chunk(String::new(), vec![Some(el)]));

    let result = s_lhs.list().unwrap().equal(s_rhs.list().unwrap());
    assert_eq!(result.len(), 2);
    assert!(result.all());
}

#[test]
fn test_broadcasting_bools() {
    let a = BooleanChunked::from_slice(String::new(), &[true, false, true]);
    let true_ = BooleanChunked::from_slice(String::new(), &[true]);
    let false_ = BooleanChunked::from_slice(String::new(), &[false]);

    let out = a.equal(&true_);
    assert_eq!(out.to_option_vec(), &[Some(true), Some(false), Some(true)]);
    let out = true_.equal(&a);
    assert_eq!(out.to_option_vec(), &[Some(true), Some(false), Some(true)]);
    let out = a.equal(&false_);
    assert_eq!(out.to_option_vec(), &[Some(false), Some(true), Some(false)]);
    let out = false_.equal(&a);
    assert_eq!(out.to_option_vec(), &[Some(false), Some(true), Some(false)]);

    let out = a.not_equal(&true_);
    assert_eq!(out.to_option_vec(), &[Some(false), Some(true), Some(false)]);
    let out = true_.not_equal(&a);
    assert_eq!(out.to_option_vec(), &[Some(false), Some(true), Some(false)]);
    let out = a.not_equal(&false_);
    assert_eq!(out.to_option_vec(), &[Some(true), Some(false), Some(true)]);
    let out = false_.not_equal(&a);
    assert_eq!(out.to_option_vec(), &[Some(true), Some(false), Some(true)]);

    let out = a.gt(&true_);
    assert_eq!(out.to_option_vec(), &[Some(false), Some(false), Some(false)]);
    let out = true_.gt(&a);
    assert_eq!(out.to_option_vec(), &[Some(false), Some(true), Some(false)]);
    let out = a.gt(&false_);
    assert_eq!(out.to_option_vec(), &[Some(true), Some(false), Some(true)]);
    let out = false_.gt(&a);
    assert_eq!(out.to_option_vec(), &[Some(false), Some(false), Some(false)]);

    let out = a.gt_eq(&true_);
    assert_eq!(out.to_option_vec(), &[Some(true), Some(false), Some(true)]);
    let out = true_.gt_eq(&a);
    assert_eq!(out.to_option_vec(), &[Some(true), Some(true), Some(true)]);
    let out = a.gt_eq(&false_);
    assert_eq!(out.to_option_vec(), &[Some(true), Some(true), Some(true)]);
    let out = false_.gt_eq(&a);
    assert_eq!(out.to_option_vec(), &[Some(false), Some(true), Some(false)]);

    let out = a.lt(&true_);
    assert_eq!(out.to_option_vec(), &[Some(false), Some(true), Some(false)]);
    let out = true_.lt(&a);
    assert_eq!(out.to_option_vec(), &[Some(false), Some(false), Some(false)]);
    let out = a.lt(&false_);
    assert_eq!(out.to_option_vec(), &[Some(false), Some(false), Some(false)]);
    let out = false_.lt(&a);
    assert_eq!(out.to_option_vec(), &[Some(true), Some(false), Some(true)]);

    let out = a.lt_eq(&true_);
    assert_eq!(out.to_option_vec(), &[Some(true), Some(true), Some(true)]);
    let out = true_.lt_eq(&a);
    assert_eq!(out.to_option_vec(), &[Some(true), Some(false), Some(true)]);
    let out = a.lt_eq(&false_);
    assert_eq!(out.to_option_vec(), &[Some(false), Some(true), Some(false)]);
    let out = false_.lt_eq(&a);
    assert_eq!(out.to_option_vec(), &[Some(true), Some(true), Some(true)]);

    let a = BooleanChunked::from_slice_options(
        String::new(),
        &[Some(true), Some(false), None],
    );
    let all_true = BooleanChunked::from_slice(String::new(), &[true, true, true]);
    let all_false = BooleanChunked::from_slice(String::new(), &[false, false, false]);
    let out = a.equal(&true_);
    assert_eq!(out.to_option_vec(), &[Some(true), Some(false), None]);
    let out = a.not_equal(&true_);
    assert_eq!(out.to_option_vec(), &[Some(false), Some(true), None]);

    let out = a.equal(&all_true);
    assert_eq!(out.to_option_vec(), &[Some(true), Some(false), None]);
    let out = a.not_equal(&all_true);
    assert_eq!(out.to_option_vec(), &[Some(false), Some(true), None]);
    let out = a.equal(&false_);
    assert_eq!(out.to_option_vec(), &[Some(false), Some(true), None]);
    let out = a.not_equal(&false_);
    assert_eq!(out.to_option_vec(), &[Some(true), Some(false), None]);
    let out = a.equal(&all_false);
    assert_eq!(out.to_option_vec(), &[Some(false), Some(true), None]);
    let out = a.not_equal(&all_false);
    assert_eq!(out.to_option_vec(), &[Some(true), Some(false), None]);
}

#[test]
fn test_broadcasting_numeric() {
    let a = Int32Chunked::from_slice(String::new(), &[1, 2, 3]);
    let one = Int32Chunked::from_slice(String::new(), &[1]);
    let three = Int32Chunked::from_slice(String::new(), &[3]);

    let out = a.equal(&one);
    assert_eq!(out.to_option_vec(), &[Some(true), Some(false), Some(false)]);
    let out = one.equal(&a);
    assert_eq!(out.to_option_vec(), &[Some(true), Some(false), Some(false)]);
    let out = a.equal(&three);
    assert_eq!(out.to_option_vec(), &[Some(false), Some(false), Some(true)]);
    let out = three.equal(&a);
    assert_eq!(out.to_option_vec(), &[Some(false), Some(false), Some(true)]);

    let out = a.not_equal(&one);
    assert_eq!(out.to_option_vec(), &[Some(false), Some(true), Some(true)]);
    let out = one.not_equal(&a);
    assert_eq!(out.to_option_vec(), &[Some(false), Some(true), Some(true)]);
    let out = a.not_equal(&three);
    assert_eq!(out.to_option_vec(), &[Some(true), Some(true), Some(false)]);
    let out = three.not_equal(&a);
    assert_eq!(out.to_option_vec(), &[Some(true), Some(true), Some(false)]);

    let out = a.gt(&one);
    assert_eq!(out.to_option_vec(), &[Some(false), Some(true), Some(true)]);
    let out = one.gt(&a);
    assert_eq!(out.to_option_vec(), &[Some(false), Some(false), Some(false)]);
    let out = a.gt(&three);
    assert_eq!(out.to_option_vec(), &[Some(false), Some(false), Some(false)]);
    let out = three.gt(&a);
    assert_eq!(out.to_option_vec(), &[Some(true), Some(true), Some(false)]);

    let out = a.lt(&one);
    assert_eq!(out.to_option_vec(), &[Some(false), Some(false), Some(false)]);
    let out = one.lt(&a);
    assert_eq!(out.to_option_vec(), &[Some(false), Some(true), Some(true)]);
    let out = a.lt(&three);
    assert_eq!(out.to_option_vec(), &[Some(true), Some(true), Some(false)]);
    let out = three.lt(&a);
    assert_eq!(out.to_option_vec(), &[Some(false), Some(false), Some(false)]);

    let out = a.gt_eq(&one);
    assert_eq!(out.to_option_vec(), &[Some(true), Some(true), Some(true)]);
    let out = one.gt_eq(&a);
    assert_eq!(out.to_option_vec(), &[Some(true), Some(false), Some(false)]);
    let out = a.gt_eq(&three);
    assert_eq!(out.to_option_vec(), &[Some(false), Some(false), Some(true)]);
    let out = three.gt_eq(&a);
    assert_eq!(out.to_option_vec(), &[Some(true), Some(true), Some(true)]);

    let out = a.lt_eq(&one);
    assert_eq!(out.to_option_vec(), &[Some(true), Some(false), Some(false)]);
    let out = one.lt_eq(&a);
    assert_eq!(out.to_option_vec(), &[Some(true), Some(true), Some(true)]);
    let out = a.lt_eq(&three);
    assert_eq!(out.to_option_vec(), &[Some(true), Some(true), Some(true)]);
    let out = three.lt_eq(&a);
    assert_eq!(out.to_option_vec(), &[Some(false), Some(false), Some(true)]);
}
