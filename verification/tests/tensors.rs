use vernier_ffi::dlpack::{
    check_header, describe_dtype, expect_byte_dtype, expect_dtype, expect_ndim, extract_f64_1d,
    extract_f64_2d, extract_f64_3d_kp, extract_i64_1d, extract_u32_1d, extract_u8_or_bool_1d,
    into_view, is_contiguous, n_elements, open_cpu_tensor, open_mask_copy, open_u8_or_bool_2d,
    protocol_error, read_capsule_tensor, screen_cpu_device, CapsuleLayout, CpuTensorMeta, DLDataType, Order,
    ProtocolStep, DL_DTYPE_BOOL, DL_DTYPE_FLOAT, DL_DTYPE_INT, DL_DTYPE_UINT,
};
use vernier_ffi::failure::ErrorKind;

fn fake_meta(shape: Vec<i64>, strides: Option<Vec<i64>>) -> CpuTensorMeta {
    CpuTensorMeta {
        shape,
        strides,
        dtype: DLDataType { code: DL_DTYPE_UINT, bits: 8, lanes: 1 },
        data_addr: 1,
    }
}

fn typed(shape: Vec<i64>, code: u8, bits: u8) -> CpuTensorMeta {
    CpuTensorMeta {
        shape,
        strides: None,
        dtype: DLDataType { code, bits, lanes: 1 },
        data_addr: 8,
    }
}

#[test]
fn f_contiguous_2d_strides_recognized() {
    let meta = fake_meta(vec![4, 3], Some(vec![1, 4]));
    assert!(is_contiguous(&meta, Order::F));
    assert!(!is_contiguous(&meta, Order::C));
}

#[test]
fn c_contiguous_2d_strides_recognized() {
    let meta = fake_meta(vec![4, 3], Some(vec![3, 1]));
    assert!(is_contiguous(&meta, Order::C));
    assert!(!is_contiguous(&meta, Order::F));
}

#[test]
fn neither_c_nor_f_strides_rejected() {
    let meta = fake_meta(vec![4, 3], Some(vec![6, 2]));
    assert!(!is_contiguous(&meta, Order::C));
    assert!(!is_contiguous(&meta, Order::F));
}

#[test]
fn null_strides_treated_as_c_contiguous() {
    let meta = fake_meta(vec![4, 3], None);
    assert!(is_contiguous(&meta, Order::C));
    assert!(!is_contiguous(&meta, Order::F));
}

#[test]
fn degenerate_axes_collapse_the_orders() {
    assert!(is_contiguous(&fake_meta(vec![1, 3], None), Order::F));
    assert!(is_contiguous(&fake_meta(vec![5], Some(vec![1])), Order::F));
    assert!(is_contiguous(&fake_meta(vec![5], Some(vec![1])), Order::C));
    assert!(!is_contiguous(&fake_meta(vec![5], Some(vec![2])), Order::C));
}

#[test]
fn elements_are_multiplied_without_wrapping() {
    assert_eq!(n_elements(&fake_meta(vec![], None)), Some(1));
    assert_eq!(n_elements(&fake_meta(vec![4, 3, 2], None)), Some(24));
    assert_eq!(n_elements(&fake_meta(vec![4, 0], None)), Some(0));
    assert_eq!(n_elements(&fake_meta(vec![i64::MAX, 4], None)), None);
    assert_eq!(n_elements(&fake_meta(vec![4, -1], None)), None);
    assert_eq!(n_elements(&fake_meta(vec![-2, -3], None)), None);
    assert_eq!(n_elements(&fake_meta(vec![0, i64::MIN], None)), None);
}

#[test]
fn strides_are_compared_without_wrapping() {
    let long = fake_meta(vec![i64::MAX, 2, 2], Some(vec![4, 2, 1]));
    assert!(!is_contiguous(&long, Order::C));
    let negative = fake_meta(vec![-2, 3], Some(vec![3, 1]));
    assert!(is_contiguous(&negative, Order::C));
    let low = fake_meta(vec![i64::MIN, 2], Some(vec![1, i64::MIN]));
    assert!(!is_contiguous(&low, Order::F));
}

#[test]
fn a_copied_mask_is_column_major() {
    let view = open_mask_copy(&fake_meta(vec![4, 3], Some(vec![1, 4])), "masks").unwrap();
    assert_eq!((view.len, view.h, view.w, view.order), (12, 4, 3, Order::F));
    // In a single row, and in no row, the two orders are one.
    assert!(open_mask_copy(&fake_meta(vec![1, 3], None), "masks").is_ok());
    assert!(open_mask_copy(&fake_meta(vec![1, 3], Some(vec![3, 1])), "masks").is_ok());
    assert_eq!(open_mask_copy(&fake_meta(vec![0, 5], Some(vec![5, 1])), "masks").unwrap().len, 0);
    let e = open_mask_copy(&fake_meta(vec![4, 3], None), "masks").unwrap_err();
    assert!(e.head.starts_with("detections.masks: array is not contiguous"), "{}", e.head);
    assert!(open_mask_copy(&fake_meta(vec![4], None), "masks").is_err());
}

#[test]
fn only_cpu_devices_pass() {
    assert!(screen_cpu_device(1, "boxes").is_ok());
    assert!(screen_cpu_device(3, "boxes").is_ok());
    let e = screen_cpu_device(2, "boxes").unwrap_err();
    assert_eq!(
        e.head,
        "vernier-0030 does not accept GPU-resident detections; move to CPU with .cpu() or \
         .to('cpu') (field detections.boxes, device_type=2)"
    );
    assert!(check_header(1, 2, "boxes").is_ok());
    assert!(check_header(2, 2, "boxes").is_err());
    assert_eq!(
        check_header(1, 9, "boxes").unwrap_err().head,
        "detections.boxes: implausible ndim 9"
    );
    assert_eq!(
        check_header(1, -1, "boxes").unwrap_err().head,
        "detections.boxes: implausible ndim -1"
    );
}

#[test]
fn protocol_steps_name_the_failing_call() {
    let e = protocol_error("scores", ProtocolStep::DeviceTuple, "it is a list");
    assert_eq!(e.kind, ErrorKind::TypeError);
    assert_eq!(
        e.head,
        "detections.scores: __dlpack_device__ did not return a tuple: it is a list"
    );
}

#[test]
fn capsules_are_told_apart_by_name() {
    assert_eq!(
        read_capsule_tensor(&Some("dltensor".to_string()), "boxes").unwrap(),
        CapsuleLayout::Unversioned
    );
    assert_eq!(
        read_capsule_tensor(&Some("dltensor_versioned".to_string()), "boxes").unwrap(),
        CapsuleLayout::Versioned
    );
    assert!(read_capsule_tensor(&Some("used_dltensor".to_string()), "boxes").is_err());
    assert!(read_capsule_tensor(&None, "boxes").is_err());
}

#[test]
fn dtypes_are_described() {
    assert_eq!(describe_dtype(DLDataType { code: DL_DTYPE_FLOAT, bits: 64, lanes: 1 }), "float64");
    assert_eq!(describe_dtype(DLDataType { code: DL_DTYPE_INT, bits: 32, lanes: 1 }), "int32");
    assert_eq!(describe_dtype(DLDataType { code: DL_DTYPE_UINT, bits: 8, lanes: 4 }), "uint8 (lanes=4)");
    assert_eq!(describe_dtype(DLDataType { code: DL_DTYPE_BOOL, bits: 8, lanes: 1 }), "bool");
    assert_eq!(describe_dtype(DLDataType { code: 9, bits: 16, lanes: 1 }), "dtype(code=9, bits=16)");
}

#[test]
fn dtype_and_axes_are_checked() {
    let meta = typed(vec![3, 4], DL_DTYPE_FLOAT, 64);
    assert!(expect_dtype(&meta, "boxes", DL_DTYPE_FLOAT, 64).is_ok());
    assert!(expect_dtype(&meta, "boxes", DL_DTYPE_FLOAT, 32).is_err());
    assert!(expect_ndim(&meta, "boxes", 2).is_ok());
    assert!(expect_ndim(&meta, "boxes", 1).unwrap_err().head.contains("expected 1-D array"));
    assert!(expect_byte_dtype(&meta, "masks").is_err());
    assert!(expect_byte_dtype(&typed(vec![2, 2], DL_DTYPE_BOOL, 8), "masks").is_ok());
}

#[test]
fn typed_columns_give_their_lengths() {
    assert_eq!(extract_f64_2d(&typed(vec![3, 4], DL_DTYPE_FLOAT, 64), "boxes", 4).unwrap(), 12);
    assert!(extract_f64_2d(&typed(vec![3, 5], DL_DTYPE_FLOAT, 64), "boxes", 4).is_err());
    assert!(extract_f64_2d(&typed(vec![3, 4], DL_DTYPE_FLOAT, 32), "boxes", 4).is_err());
    assert_eq!(
        extract_f64_3d_kp(&typed(vec![2, 17, 3], DL_DTYPE_FLOAT, 64), "keypoints").unwrap(),
        (102, 17)
    );
    assert!(extract_f64_3d_kp(&typed(vec![2, 17, 2], DL_DTYPE_FLOAT, 64), "keypoints").is_err());
    assert_eq!(extract_f64_1d(&typed(vec![7], DL_DTYPE_FLOAT, 64), "scores").unwrap(), 7);
    assert_eq!(extract_i64_1d(&typed(vec![7], DL_DTYPE_INT, 64), "labels").unwrap(), 7);
    assert_eq!(extract_u32_1d(&typed(vec![7], DL_DTYPE_UINT, 32), "counts").unwrap(), 7);
    assert_eq!(extract_u8_or_bool_1d(&typed(vec![7], DL_DTYPE_BOOL, 8), "iscrowd").unwrap(), 7);
    assert!(extract_i64_1d(&typed(vec![7], DL_DTYPE_INT, 32), "labels").is_err());
}

#[test]
fn strided_arrays_are_refused() {
    let meta = fake_meta(vec![4, 3], Some(vec![6, 2]));
    let e = into_view(&meta, "masks", 1).unwrap_err();
    assert_eq!(
        e.head,
        "detections.masks: array is not C-contiguous (fix: pass np.ascontiguousarray(arr))"
    );
    assert!(open_u8_or_bool_2d(&fake_meta(vec![4, 3], None), "masks").is_ok());
    assert!(open_u8_or_bool_2d(&fake_meta(vec![4], None), "masks").is_err());
}

#[test]
fn tensors_open_at_their_offset() {
    let dtype = DLDataType { code: DL_DTYPE_UINT, bits: 8, lanes: 1 };
    let meta = open_cpu_tensor(vec![2, 2], None, dtype, 1000, 24, "masks").unwrap();
    assert_eq!(meta.data_addr, 1024);
    assert_eq!(meta.shape, vec![2, 2]);
}
