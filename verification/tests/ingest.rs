use vernier_ffi::array_ingest::{
    cast_error, cast_warning_due, dicts_to_inputs, extract_one_rle, extract_rles,
    extract_segmentation, new_cast_state, rle_area, ArrayIouType, DetectionsArg, DetectionsDict,
    DetectionsObject, DictKeys,
};
use vernier_ffi::failure::{ErrorKind, Failure};
use vernier_ffi::field_path::FieldPath;
use vernier_ffi::gt_ingest::{
    check_len, exact_u32, extract_categories, extract_images, finite, gt_parts_from_arrays, k3,
    AnnotationColumns, CategoryDict, FlagColumn, ImageColumns, ObjectSequence, ANNOTATIONS, IMAGES,
};
use vernier_ffi::model::{
    Bbox, CountsKind, CountsObject, Held, MaskObject, RleCounts, RleDict, Segmentation,
    SegmentationRle,
};
use vernier_ffi::result_ingest::{
    ann_dicts_to_inputs, exact_int, matrix_to_inputs, ResultDict, COL_NAMES, MATRIX_COLS,
};

const MAX_EXACT_INT_F64: f64 = 9_007_199_254_740_992.0;

fn bits(x: f64) -> u64 {
    x.to_bits()
}

fn all_bits(v: &[f64]) -> Vec<u64> {
    v.iter().map(|x| x.to_bits()).collect()
}

/// The message that a caller sees.
fn message(f: &Failure) -> String {
    let mut m = f.head.clone();
    for (b, tail) in &f.reals {
        m.push_str(&format!("{}", f64::from_bits(*b)));
        m.push_str(tail);
    }
    m
}

// Ids and dimensions ------------------------------------------------------

#[test]
fn iou_type_as_str_pins_user_facing_strings() {
    assert_eq!(ArrayIouType::Bbox.as_str(), "bbox");
    assert_eq!(ArrayIouType::Segm.as_str(), "segm");
    assert_eq!(ArrayIouType::Boundary.as_str(), "boundary");
    assert_eq!(ArrayIouType::Keypoints.as_str(), "keypoints");
}

#[test]
fn exact_u32_accepts_pixel_dimensions() {
    assert_eq!(exact_u32(0, IMAGES, 0, ".width").unwrap(), 0);
    assert_eq!(exact_u32(640, IMAGES, 0, ".width").unwrap(), 640);
    assert_eq!(
        exact_u32(i64::from(u32::MAX), IMAGES, 0, ".width").unwrap(),
        u32::MAX
    );
}

#[test]
fn exact_u32_refuses_to_truncate() {
    assert!(exact_u32(-1, IMAGES, 0, ".width").is_err());
    assert!(exact_u32(i64::from(u32::MAX) + 1, IMAGES, 0, ".height").is_err());
    assert!(exact_u32(i64::MIN, IMAGES, 0, ".width").is_err());
}

#[test]
fn finite_rejects_nan_and_infinities() {
    for bad in [f64::NAN, f64::INFINITY, f64::NEG_INFINITY] {
        assert!(
            finite(bits(bad), ANNOTATIONS, 0, ".bbox", Some(2)).is_err(),
            "{bad} must be rejected"
        );
    }
    assert!(finite(bits(0.0), ANNOTATIONS, 0, ".area", None).is_ok());
    assert!(finite(bits(-1.5), ANNOTATIONS, 0, ".bbox", Some(0)).is_ok());
}

#[test]
fn keypoint_row_width_is_three_per_joint() {
    assert_eq!(k3(17), 51);
    assert_eq!(k3(0), 0);
}

#[test]
fn exact_int_accepts_integral_values() {
    assert_eq!(exact_int(bits(0.0), 0, 0).unwrap(), 0);
    assert_eq!(exact_int(bits(42.0), 6, 0).unwrap(), 42);
    assert_eq!(exact_int(bits(-7.0), 0, 0).unwrap(), -7);
    assert_eq!(
        exact_int(bits(MAX_EXACT_INT_F64), 0, 0).unwrap(),
        9_007_199_254_740_992
    );
}

#[test]
fn exact_int_rejects_fractional_values() {
    assert!(exact_int(bits(3.5), 6, 11).is_err());
    assert!(exact_int(bits(-0.5), 0, 0).is_err());
    assert!(exact_int(bits(1e-9), 0, 0).is_err());
}

#[test]
fn exact_int_rejects_beyond_two_pow_53() {
    assert!(exact_int(bits(MAX_EXACT_INT_F64 * 4.0), 0, 0).is_err());
    assert!(exact_int(bits(-MAX_EXACT_INT_F64 * 4.0), 0, 0).is_err());
}

#[test]
fn exact_int_rejects_non_finite() {
    for bad in [f64::NAN, f64::INFINITY, f64::NEG_INFINITY] {
        assert!(exact_int(bits(bad), 0, 0).is_err(), "{bad} must be rejected");
    }
}

#[test]
fn column_names_cover_the_matrix_width() {
    assert_eq!(COL_NAMES.len(), MATRIX_COLS);
    assert_eq!(COL_NAMES[0], "image_id");
    assert_eq!(COL_NAMES[6], "category_id");
}

#[test]
fn integral_values_agree_with_the_machine() {
    for x in [1.0, -1.0, 2.5, 4_503_599_627_370_495.5, 9e15, -9_007_199_254_740_992.0, 1e300, 5e-324] {
        let exact = x == f64::trunc(x) && f64::abs(x) <= MAX_EXACT_INT_F64;
        let r = exact_int(bits(x), 0, 3);
        assert_eq!(r.is_ok(), exact, "{x}");
        if let Ok(n) = r {
            assert_eq!(n, x as i64);
        }
    }
}

// Routes ------------------------------------------------------------------

fn keys(boxes: bool, bbox: bool, category_id: bool) -> DictKeys {
    DictKeys { boxes, bbox, category_id }
}

fn sequence(items: Vec<Result<DictKeys, String>>) -> DetectionsObject {
    DetectionsObject {
        is_bytes: false,
        dict: None,
        is_array: false,
        items: Some(items),
        class_name: "list".to_string(),
    }
}

#[test]
fn detections_take_their_route() {
    let bytes = DetectionsObject {
        is_bytes: true,
        dict: None,
        is_array: false,
        items: None,
        class_name: "bytes".to_string(),
    };
    assert_eq!(DetectionsArg::extract(&bytes).unwrap(), DetectionsArg::Bytes);
    let one = DetectionsObject {
        is_bytes: false,
        dict: Some(keys(false, true, true)),
        is_array: false,
        items: None,
        class_name: "dict".to_string(),
    };
    assert_eq!(DetectionsArg::extract(&one).unwrap(), DetectionsArg::AnnList);
    let array = DetectionsObject {
        is_bytes: false,
        dict: None,
        is_array: true,
        items: Some(vec![]),
        class_name: "ndarray".to_string(),
    };
    assert_eq!(DetectionsArg::extract(&array).unwrap(), DetectionsArg::Matrix);
    assert_eq!(
        DetectionsArg::extract(&sequence(vec![])).unwrap(),
        DetectionsArg::Dicts { indexed: true }
    );
}

#[test]
fn boxes_are_never_taken_for_annotations() {
    assert_eq!(
        DetectionsArg::extract(&sequence(vec![Ok(keys(true, true, true))])).unwrap(),
        DetectionsArg::Dicts { indexed: true }
    );
    assert_eq!(
        DetectionsArg::extract(&sequence(vec![Ok(keys(false, false, true))])).unwrap(),
        DetectionsArg::AnnList
    );
}

#[test]
fn an_item_that_is_no_dict_is_named() {
    let e = DetectionsArg::extract(&sequence(vec![
        Ok(keys(true, false, false)),
        Err("'int' object".to_string()),
    ]))
    .unwrap_err();
    assert_eq!(e.kind, ErrorKind::TypeError);
    assert_eq!(e.head, "detections[1]: expected a Detections dict: 'int' object");
    let other = DetectionsObject {
        is_bytes: false,
        dict: None,
        is_array: false,
        items: None,
        class_name: "int".to_string(),
    };
    assert!(DetectionsArg::extract(&other).unwrap_err().head.ends_with("; got int"));
}

#[test]
fn the_cast_warning_is_due_once() {
    assert_eq!(new_cast_state(false), None);
    let mut warned = new_cast_state(true).unwrap();
    assert!(cast_warning_due(&mut warned));
    assert!(!cast_warning_due(&mut warned));
    assert!(cast_error("boxes", "float64", "no").head.contains("boxes"));
}

// Columns -----------------------------------------------------------------

fn columns(image_id: i64, boxes: &[f64], scores: &[f64], labels: &[i64]) -> DetectionsDict {
    DetectionsDict {
        image_id: Some(Ok(image_id)),
        boxes: Some(Ok(all_bits(boxes))),
        scores: Some(Ok(all_bits(scores))),
        labels: Some(Ok(labels.to_vec())),
        rles: None,
        keypoints: None,
    }
}

#[test]
fn each_box_becomes_a_detection() {
    let dicts = vec![
        columns(1, &[1.0, 2.0, 3.0, 4.0, 5.0, 6.0, 7.0, 8.0], &[0.9, 0.8], &[7, 7]),
        columns(2, &[0.0, 0.0, 1.0, 1.0], &[0.5], &[3]),
    ];
    let inputs = dicts_to_inputs(&dicts, true, ArrayIouType::Bbox).unwrap();
    assert_eq!(inputs.len(), 3);
    assert_eq!(inputs[1].image_id, 1);
    assert_eq!(inputs[1].category_id, 7);
    assert_eq!(inputs[1].score, bits(0.8));
    assert_eq!(inputs[1].bbox, Bbox { x: bits(5.0), y: bits(6.0), w: bits(7.0), h: bits(8.0) });
    assert_eq!(inputs[1].id, None);
    assert_eq!(inputs[1].area, None);
    assert_eq!(inputs[2].image_id, 2);
}

#[test]
fn a_missing_column_is_named_with_its_place() {
    let mut second = columns(2, &[0.0, 0.0, 1.0, 1.0], &[0.5], &[3]);
    second.scores = None;
    let dicts = vec![columns(1, &[], &[], &[]), second];
    let e = dicts_to_inputs(&dicts, true, ArrayIouType::Bbox).unwrap_err();
    assert!(e.head.contains("detections[1]") && e.head.contains("scores"), "{}", e.head);
    let mut short = columns(2, &[0.0, 0.0, 1.0, 1.0], &[0.5, 0.6], &[3]);
    short.labels = Some(Ok(vec![3]));
    let e = dicts_to_inputs(&vec![short], false, ArrayIouType::Bbox).unwrap_err();
    assert!(e.head.contains("scores"), "{}", e.head);
}

#[test]
fn masks_are_wanted_for_masks_only() {
    let d = columns(1, &[0.0, 0.0, 1.0, 1.0], &[0.5], &[3]);
    assert!(dicts_to_inputs(&vec![d], false, ArrayIouType::Segm).is_err());
    let mut d = columns(1, &[0.0, 0.0, 1.0, 1.0], &[0.5], &[3]);
    d.rles = Some(Ok(vec![MaskObject::Dict(RleDict {
        counts: Some(CountsObject {
            kind: CountsKind::Bytes(Some("04".to_string())),
            array: Err(Failure::value_error("no array".to_string())),
        }),
        size: Some(Ok(vec![Ok(2), Ok(2)])),
    })]));
    let inputs = dicts_to_inputs(&vec![d], false, ArrayIouType::Segm).unwrap();
    assert!(matches!(
        &inputs[0].segmentation,
        Some(Segmentation::Rle(SegmentationRle { h: 2, w: 2, counts: RleCounts::Compressed(c) })) if c == "04"
    ));
}

#[test]
fn bitmasks_and_rings_are_told_apart() {
    let path = FieldPath::new(None, ".rles");
    let rle = SegmentationRle { h: 1, w: 2, counts: RleCounts::Uncompressed(vec![0, 2]) };
    assert!(extract_one_rle(&MaskObject::Bitmask(Ok(rle)), path).is_ok());
    let rings = MaskObject::Rings(vec![all_bits(&[0.0, 0.0, 1.0, 0.0, 1.0, 1.0])], "list".to_string());
    assert!(extract_one_rle(&rings, path).is_err());
    assert!(matches!(extract_segmentation(&rings, path).unwrap(), Segmentation::Polygons(_)));
    assert!(extract_rles(&Ok(vec![]), path, 1).is_err());
}

#[test]
fn mask_areas_are_collected_up_to_a_refusal() {
    assert_eq!(rle_area(&vec![Ok(bits(4.0)), Ok(bits(0.0))]).unwrap(), all_bits(&[4.0, 0.0]));
    let e = rle_area(&vec![Ok(bits(4.0)), Err("bad counts".to_string())]).unwrap_err();
    assert_eq!(e.head, "rles[1]: bad counts");
}

// Result rows ---------------------------------------------------------------

#[test]
fn matrix_rows_become_detections() {
    let flat = all_bits(&[3.0, 1.0, 2.0, 3.0, 4.0, 0.5, 9.0]);
    let inputs = matrix_to_inputs(&flat).unwrap();
    assert_eq!(inputs.len(), 1);
    assert_eq!(inputs[0].image_id, 3);
    assert_eq!(inputs[0].category_id, 9);
    assert_eq!(inputs[0].score, bits(0.5));
    let bad = all_bits(&[3.0, 1.0, 2.0, 3.0, 4.0, 0.5, 9.25]);
    let e = matrix_to_inputs(&bad).unwrap_err();
    assert!(message(&e).starts_with("detections[0].category_id: "), "{}", message(&e));
    assert!(message(&e).contains("9.25"), "{}", message(&e));
}

fn result_dict(image_id: i64) -> ResultDict {
    ResultDict {
        image_id: Some(Ok(image_id)),
        category_id: Some(Ok(1)),
        score: Some(Ok(bits(0.25))),
        bbox: Some(Ok(vec![Ok(bits(1.0)), Ok(bits(2.0)), Ok(bits(3.0)), Ok(bits(4.0))])),
        id: None,
        segmentation: None,
        keypoints: None,
        num_keypoints: None,
    }
}

#[test]
fn annotations_keep_order_and_ids() {
    let mut second = result_dict(8);
    second.id = Some(Held { is_none: false, read: Ok(77) });
    let inputs = ann_dicts_to_inputs(&vec![result_dict(5), second], ArrayIouType::Bbox).unwrap();
    assert_eq!(inputs[0].image_id, 5);
    assert_eq!(inputs[0].id, None);
    assert_eq!(inputs[1].image_id, 8);
    assert_eq!(inputs[1].id, Some(77));
    let mut bad = result_dict(5);
    bad.score = None;
    let e = ann_dicts_to_inputs(&vec![result_dict(1), bad], ArrayIouType::Bbox).unwrap_err();
    assert!(e.head.contains("detections[1]") && e.head.contains("score"), "{}", e.head);
}

// Ground truth --------------------------------------------------------------

fn held<T>(v: T) -> Option<Held<T, Failure>> {
    Some(Held { is_none: false, read: Ok(v) })
}

fn images() -> ImageColumns {
    ImageColumns {
        id: held(vec![10, 11]),
        width: held(vec![640, 320]),
        height: held(vec![480, 240]),
        file_name: None,
    }
}

fn annotations() -> AnnotationColumns {
    AnnotationColumns {
        id: held(vec![1, 2]),
        image_id: held(vec![10, 11]),
        category_id: held(vec![3, 3]),
        bbox: held(all_bits(&[1.0, 2.0, 3.0, 4.0, 5.0, 6.0, 7.0, 8.0])),
        area: held(all_bits(&[12.0, 56.0])),
        iscrowd: held(FlagColumn::Bytes(vec![0, 1])),
        ignore: None,
        segmentation: None,
        keypoints: None,
        num_keypoints: None,
    }
}

fn category(id: i64, name: &str) -> Result<CategoryDict, String> {
    Ok(CategoryDict {
        id: Some(Ok(id)),
        name: Some(Ok(name.to_string())),
        supercategory: None,
    })
}

#[test]
fn ground_truth_is_read_verbatim() {
    let parts = gt_parts_from_arrays(
        &Ok(images()),
        &Ok(annotations()),
        &ObjectSequence::Items(vec![category(3, "cat")]),
    )
    .unwrap();
    assert_eq!(parts.images.len(), 2);
    assert_eq!(parts.images[1].id, 11);
    assert_eq!(parts.images[1].width, 320);
    assert_eq!(parts.annotations.len(), 2);
    assert_eq!(parts.annotations[1].area, bits(56.0));
    assert!(!parts.annotations[0].is_crowd);
    assert!(parts.annotations[1].is_crowd);
    assert_eq!(parts.annotations[1].ignore_flag, None);
    assert_eq!(parts.annotations[0].bbox.w, bits(3.0));
    assert_eq!(parts.categories[0].name, "cat");
}

#[test]
fn ground_truth_columns_have_one_length() {
    let mut a = annotations();
    a.area = held(all_bits(&[12.0]));
    let r = gt_parts_from_arrays(
        &Ok(images()),
        &Ok(a),
        &ObjectSequence::Items(vec![category(3, "cat")]),
    );
    assert!(r.is_err());
    assert!(check_len(2, 2, ANNOTATIONS, ".area", ".id").is_ok());
    assert!(check_len(1, 2, ANNOTATIONS, ".area", ".id").is_err());
    let mut bad = images();
    bad.width = held(vec![640, -1]);
    assert!(message(&extract_images(&Ok(bad)).unwrap_err()).contains("images[1]"));
    assert!(extract_categories(&ObjectSequence::Flat("str".to_string())).is_err());
}

#[test]
fn signed_flags_can_be_absent() {
    let c = FlagColumn::extract(None, Some(vec![-1, 0, 1]), "ndarray", ANNOTATIONS, ".ignore").unwrap();
    assert_eq!(c.len(), 3);
    assert_eq!(c.get_optional(0), None);
    assert_eq!(c.get_optional(1), Some(false));
    assert_eq!(c.get_optional(2), Some(true));
    let c = FlagColumn::extract(Some(vec![0, 2]), None, "ndarray", ANNOTATIONS, ".iscrowd").unwrap();
    assert!(!c.get(0));
    assert!(c.get(1));
    assert!(FlagColumn::extract(None, None, "str", ANNOTATIONS, ".iscrowd").is_err());
}

#[test]
fn field_paths_are_written_out() {
    assert_eq!(FieldPath::new(None, ".boxes").to_text(), "detections.boxes");
    assert_eq!(FieldPath::new(Some(2), ".rles").item(5).to_text(), "detections[2].rles[5]");
    assert_eq!(FieldPath::rooted("images", Some(3), ".width").to_text(), "images[3].width");
}
