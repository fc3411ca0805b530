use std::collections::{HashMap, HashSet};
use vernier_ffi::config::ParityMode;
use vernier_ffi::errors::{ExceptionClass, PartialError, Raised, Refusal};
use vernier_ffi::label_maps::{
    apply_remap_promote_u32, check_shape, extract_label_map, pair_pixels, parse_label_maps,
    pixels_to_u32, LabelEntry, LabelMap, LabelObject, LabelWidths, PixelBuf, PixelPair,
};
use vernier_ffi::panoptic::{
    boundary_cfg_from_ffi, build_image_entry, check_image_tuple, join_images, num_segments,
    num_segments_for, override_partition, panoptic_error_to_pyerr, panoptic_settings,
    parse_categories, parse_panoptic_parity_mode, parse_segments_info, parse_segments_map,
    plan_panoptic, plan_partitioned, prepare_png, read_image_id, subset_by_image_ids, CategoryJson,
    ClassPanopticStats, JsonFlag, PanopticFault, PanopticMetrics, PanopticOptions, PanopticSummary,
    PanopticUpdate, SegmentInfo, SegmentJson, SegmentsEntry, Side,
};
use vernier_ffi::semantic::{
    parse_label_remap, parse_path_dict, parse_path_dict_to_hashmap, prepare_merge, prepare_pngs,
    prepare_rank, prepare_semantic, semantic_error_to_pyerr, semantic_settings, slice_matrices,
    slice_rows, sum_images, ConfusionMatrix, ImageMatrix, PathEntry, RemapEntry,
    SemanticArguments, SemanticError, SemanticFault, SemanticMetrics, SemanticRefusal, SliceSpec,
};
use vernier_ffi::{panoptic, semantic};

fn bits(x: f64) -> u64 {
    x.to_bits()
}

// Label maps ----------------------------------------------------------------

fn map8(id: i64, h: usize, w: usize, fill: u8) -> LabelEntry {
    LabelEntry { key: Ok(id), value: LabelObject::Array(h, w, PixelBuf::U8(vec![fill; h * w])) }
}

fn label_map(h: u32, w: u32) -> LabelMap {
    LabelMap { height: h, width: w, pixels: PixelBuf::U32(vec![0; (h * w) as usize]) }
}

#[test]
fn pixels_widen_without_changing() {
    assert_eq!(pixels_to_u32(&PixelBuf::U16(vec![1, 65535])), vec![1, 65535]);
    assert!(matches!(
        pair_pixels(PixelBuf::U8(vec![1]), PixelBuf::U8(vec![2])),
        PixelPair::U8(a, b) if a == vec![1] && b == vec![2]
    ));
    assert!(matches!(
        pair_pixels(PixelBuf::U8(vec![1]), PixelBuf::U16(vec![2])),
        PixelPair::U32(a, b) if a == vec![1] && b == vec![2]
    ));
    let names = HashMap::from([(1u32, 70_000u32)]);
    assert!(matches!(
        apply_remap_promote_u32(&PixelBuf::U8(vec![1, 2]), &names),
        PixelBuf::U32(v) if v == vec![70_000, 2]
    ));
}

#[test]
fn label_maps_are_read() {
    assert_eq!(check_shape(3, "semantic gt", 2, 5).unwrap(), (2, 5));
    assert!(check_shape(3, "semantic gt", 1 << 33, 5).is_err());
    let maps = parse_label_maps(vec![map8(4, 1, 2, 9)], LabelWidths::Any, "semantic gt").unwrap();
    assert_eq!(maps[0].0, 4);
    assert_eq!((maps[0].1.height, maps[0].1.width), (1, 2));
    let bad = LabelEntry { key: Err("'str' object".to_string()), value: LabelObject::Other("x".to_string()) };
    assert!(parse_label_maps(vec![bad], LabelWidths::Any, "semantic gt").is_err());
    let e = extract_label_map(LabelObject::Other("a list".to_string()), LabelWidths::Only32, "panoptic", 7)
        .unwrap_err();
    assert!(e.head.ends_with("must be a 2-D uint32 ndarray: a list"), "{}", e.head);
}

// Semantic ------------------------------------------------------------------

fn semantic_arguments(gt: Vec<LabelEntry>, dt: Vec<LabelEntry>) -> SemanticArguments {
    SemanticArguments {
        n_classes: 3,
        parity_mode: "strict".to_string(),
        gt,
        dt,
        label_remap: None,
    }
}

#[test]
fn images_are_paired_in_ascending_order() {
    let w = prepare_semantic(semantic_arguments(
        vec![map8(9, 1, 1, 1), map8(2, 1, 1, 0)],
        vec![map8(2, 1, 1, 2), map8(9, 1, 1, 2), map8(77, 5, 5, 0)],
    ))
    .unwrap();
    assert_eq!(w.mode, ParityMode::Strict);
    let ids: Vec<i64> = w.pairs.iter().map(|p| p.image_id).collect();
    assert_eq!(ids, vec![2, 9]);
}

#[test]
fn semantic_faults_are_found() {
    let r = prepare_semantic(semantic_arguments(vec![map8(1, 1, 1, 0)], vec![]));
    assert!(matches!(r, Err(SemanticRefusal::Data(SemanticFault::MissingPrediction { image_id: 1 }))));
    let r = prepare_semantic(semantic_arguments(vec![], vec![]));
    assert!(matches!(r, Err(SemanticRefusal::Data(SemanticFault::EmptyDataset))));
    let r = prepare_semantic(semantic_arguments(vec![map8(1, 1, 2, 0)], vec![map8(1, 2, 1, 0)]));
    assert!(matches!(
        r,
        Err(SemanticRefusal::Data(SemanticFault::ShapeMismatch { image_id: 1, gt_shape: (1, 2), dt_shape: (2, 1) }))
    ));
    let mut a = semantic_arguments(vec![], vec![]);
    a.n_classes = 0;
    assert!(matches!(
        prepare_semantic(a),
        Err(SemanticRefusal::Argument(f)) if f.head == "semantic evaluator requires n_classes >= 1"
    ));
    assert!(prepare_rank(3, "strict", vec![], vec![]).unwrap().pairs.is_empty());
    assert!(semantic_settings("x", 1, "loose").is_err());
}

#[test]
fn predictions_are_renamed() {
    let mut a = semantic_arguments(vec![map8(1, 1, 1, 0)], vec![map8(1, 1, 1, 5)]);
    a.label_remap = Some(vec![RemapEntry { key: Ok(5), value: Ok(2) }]);
    let w = prepare_semantic(a).unwrap();
    assert!(matches!(&w.pairs[0].dt.pixels, PixelBuf::U32(v) if v == &vec![2]));
    assert!(matches!(&w.pairs[0].gt.pixels, PixelBuf::U8(v) if v == &vec![0]));
    let e = parse_label_remap(Some(vec![RemapEntry { key: Ok(1), value: Err("neg".to_string()) }])).unwrap_err();
    assert_eq!(e.head, "label_remap value must be uint32: neg");
    assert!(parse_label_remap(None).unwrap().is_none());
}

fn matrix(counts: &[u64]) -> ConfusionMatrix {
    ConfusionMatrix { n_classes: 2, counts: counts.to_vec() }
}

#[test]
fn matrices_add_up() {
    let m = matrix(&[1, 2, 3, 4]);
    assert_eq!((m.total(), m.trace()), (10, 5));
    assert_eq!(m.get(1, 0).unwrap(), 3);
    assert!(m.get(2, 0).is_err());
    assert_eq!(m.rows(), vec![vec![1, 2], vec![3, 4]]);
    assert_eq!(m.repr(), "ConfusionMatrix(n_classes=2, total=10, trace=5)");
    let mut z = ConfusionMatrix::zeros(2);
    z.add_assign(&m);
    z.add_assign(&m);
    assert_eq!(z.counts, vec![2, 4, 6, 8]);
}

fn slice(value: &str, ids: &[i64]) -> SliceSpec {
    SliceSpec { axis: "weather".to_string(), value: value.to_string(), image_ids: ids.to_vec() }
}

#[test]
fn disjoint_slices_add_up() {
    let per_image = vec![
        ImageMatrix { image_id: 1, matrix: matrix(&[1, 0, 0, 1]) },
        ImageMatrix { image_id: 2, matrix: matrix(&[0, 5, 0, 0]) },
        ImageMatrix { image_id: 3, matrix: matrix(&[0, 0, 7, 0]) },
    ];
    let all = sum_images(&per_image, &None, 2);
    assert_eq!(all.counts, vec![1, 5, 7, 1]);
    let some = sum_images(&per_image, &Some(HashSet::from([1, 3])), 2);
    assert_eq!(some.counts, vec![1, 0, 7, 1]);
    let slices = vec![slice("rain", &[1, 3]), slice("sun", &[2, 2]), slice("none", &[])];
    let m = slice_matrices(&per_image, &slices, 2);
    assert_eq!(m[0].as_ref().unwrap().counts, vec![1, 0, 7, 1]);
    assert_eq!(m[1].as_ref().unwrap().counts, vec![0, 5, 0, 0]);
    assert!(m[2].is_none());
    let half = SemanticMetrics {
        miou: bits(0.5),
        fwiou: bits(0.5),
        pixel_accuracy: bits(0.5),
        mean_accuracy: bits(0.5),
    };
    let rows = slice_rows(&slices, &vec![Some(half), Some(half), Some(half)]);
    assert_eq!((rows[0].n_images, rows[0].miou), (2, bits(0.5)));
    assert_eq!(rows[1].n_images, 1);
    assert_eq!((rows[2].n_images, rows[2].miou, rows[2].n_detections), (0, 0, 0));
    assert_eq!(
        semantic::partitioned_repr(3, 2),
        "PartitionedSemanticReport(overall_n_images=3, n_slices=2)"
    );
}

fn path(key: i64, value: &str) -> PathEntry<String> {
    PathEntry { key: Ok(key), value: Ok(value.to_string()) }
}

#[test]
fn paths_are_put_in_order() {
    let v = parse_path_dict(vec![path(3, "c"), path(1, "a")], "semantic gt").unwrap();
    assert_eq!(v, vec![(1, "a".to_string()), (3, "c".to_string())]);
    let m = parse_path_dict_to_hashmap(vec![path(3, "c")], "semantic dt").unwrap();
    assert_eq!(m[&3], "c");
    let bad: PathEntry<String> = PathEntry { key: Ok(1), value: Err("int".to_string()) };
    assert_eq!(
        parse_path_dict(vec![bad], "semantic gt").unwrap_err().head,
        "semantic gt: values must be str or os.PathLike: int"
    );
    let w = prepare_pngs(2, "strict", vec![path(2, "b"), path(1, "a")], vec![path(1, "x")]).unwrap();
    assert_eq!(w.gt[0].0, 1);
    assert_eq!(w.dt.len(), 1);
    let e = prepare_pngs::<String>(0, "strict", vec![], vec![]).unwrap_err();
    assert_eq!(e.head, "evaluate_semantic_from_pngs requires n_classes >= 1");
}

#[test]
fn semantic_requests_are_checked() {
    let (mode, buffers) = prepare_merge(2, "strict", vec![Some(vec![7])]).unwrap();
    assert_eq!((mode, buffers), (ParityMode::Strict, vec![vec![7]]));
    assert_eq!(
        prepare_merge(2, "strict", vec![None]).unwrap_err().head,
        "merge_semantic_partials expects a list of bytes objects"
    );
    assert_eq!(
        prepare_merge(0, "strict", vec![None]).unwrap_err().head,
        "merge_semantic_partials requires n_classes >= 1"
    );
    let array = |h, w| LabelObject::Array(h, w, PixelBuf::U16(vec![3; h * w]));
    let (update, t) = semantic::prepare_submit(5, array(1, 2), array(1, 2), Some(bits(0.5))).unwrap();
    assert_eq!((update.image_id, t), (5, Some(bits(0.5))));
    assert!(matches!(update.pixels, PixelPair::U16(a, _) if a == vec![3, 3]));
    let narrow = LabelObject::Array(1, 2, PixelBuf::U8(vec![7, 8]));
    let (update, _) = semantic::prepare_submit(5, narrow, array(1, 2), None).unwrap();
    assert!(matches!(update.pixels, PixelPair::U32(a, b) if a == vec![7, 8] && b == vec![3, 3]));
    let r = semantic::prepare_submit(5, array(1, 2), array(2, 1), Some(bits(-1.0)));
    assert!(matches!(r, Err(SemanticRefusal::Data(SemanticFault::ShapeMismatch { image_id: 5, .. }))));
    let r = semantic::prepare_submit(5, array(1, 2), array(1, 2), Some(bits(-1.0)));
    assert!(matches!(r, Err(SemanticRefusal::Argument(f)) if f.head.starts_with("timeout must be")));
    assert_eq!(semantic::background_repr(19), "BackgroundSemanticEvaluator(n_classes=19)");
    let x = semantic_error_to_pyerr(SemanticError::Other { text: "why".to_string() });
    assert_eq!((x.class, x.message.as_str()), (ExceptionClass::ValueError, "why"));
    let x = semantic_error_to_pyerr(SemanticError::Partial {
        error: PartialError::RankCollision { rank_id: 1 },
        text: "why".to_string(),
    });
    assert_eq!(x.class, ExceptionClass::PartialRankCollision);
}

// Panoptic ------------------------------------------------------------------

fn segment(id: u32, flag: JsonFlag) -> SegmentJson {
    SegmentJson { id, category_id: 1, iscrowd: flag, area: 10 }
}

#[test]
fn flags_may_be_numbers() {
    let s = parse_segments_info(
        Ok(vec![
            segment(1, JsonFlag::Bool(true)),
            segment(2, JsonFlag::Integer(1)),
            segment(3, JsonFlag::Integer(0)),
            segment(4, JsonFlag::Other),
        ]),
        9,
    )
    .unwrap();
    let crowds: Vec<bool> = s.iter().map(|s| s.iscrowd).collect();
    assert_eq!(crowds, vec![true, true, false, false]);
    let x = parse_segments_info(Err("eof".to_string()), 9).unwrap_err();
    assert_eq!(x.message, "invalid panoptic input: segments_info JSON for image_id=9 is invalid: eof");
}

#[test]
fn image_ids_are_read_as_numbers() {
    assert_eq!(read_image_id("42"), Some(42));
    assert_eq!(read_image_id("-7"), Some(-7));
    assert_eq!(read_image_id("+7"), Some(7));
    assert_eq!(read_image_id("9223372036854775807"), Some(i64::MAX));
    assert_eq!(read_image_id("-9223372036854775808"), Some(i64::MIN));
    assert_eq!(read_image_id("9223372036854775808"), None);
    assert_eq!(read_image_id(""), None);
    assert_eq!(read_image_id("-"), None);
    assert_eq!(read_image_id(" 4"), None);
    let m = parse_segments_map(&vec![SegmentsEntry { key: "3".to_string(), segments: vec![segment(1, JsonFlag::Bool(false))] }]).unwrap();
    assert_eq!(m[0].0, 3);
    assert!(parse_segments_map(&vec![SegmentsEntry { key: "x".to_string(), segments: vec![] }]).is_err());
}

fn category(id: i64, isthing: bool) -> CategoryJson {
    CategoryJson { id, isthing: JsonFlag::Bool(isthing) }
}

#[test]
fn partitions_move_known_categories() {
    let cats = parse_categories(Ok(vec![category(1, true), category(2, false)])).unwrap();
    let out = override_partition(cats, &vec![1, 2, 99], &vec![2]);
    assert_eq!(out.len(), 2);
    assert!(!out[&1]);
    assert!(out[&2]);
    let x = parse_categories(Err("eof".to_string())).unwrap_err();
    assert_eq!(x.message, "panoptic JSON parse error: eof");
}

#[test]
fn segments_are_joined_with_their_maps() {
    let segs = |id: u32| vec![SegmentInfo { id, category_id: 1, iscrowd: false, area: 1 }];
    let images = join_images(
        vec![(1, segs(10)), (2, segs(20))],
        vec![(2, label_map(1, 2)), (1, label_map(3, 4)), (7, label_map(1, 1))],
        Side::GroundTruth,
    )
    .unwrap();
    assert_eq!(images.len(), 2);
    assert_eq!((images[0].image_id, images[0].map.height), (1, 3));
    assert_eq!(images[1].segments[0].id, 20);
    let e = join_images(vec![(5, segs(1))], vec![], Side::Prediction).unwrap_err();
    assert_eq!(e.head, "panoptic dt: segments_info has image_id=5 but label_maps does not");
    assert!(Side::Prediction.recounts_areas());
    assert!(!Side::GroundTruth.recounts_areas());
}

#[test]
fn counting_agrees_with_keeping() {
    let counts = vec![(1i64, 4u64), (2, 5), (3, 6)];
    assert_eq!(num_segments(&counts), 15);
    assert_eq!(num_segments_for(&counts, &vec![3, 1, 3, 99]), 10);
    let kept = subset_by_image_ids(counts, &vec![3, 1, 3, 99]);
    assert_eq!(kept, vec![(1, 4), (3, 6)]);
    assert_eq!(num_segments(&kept), 10);
}

#[test]
fn empty_slices_are_rows_of_zeros() {
    let counts = vec![(1i64, 4u64), (2, 5)];
    let m = PanopticMetrics { pq: bits(0.5), sq: bits(0.6), rq: bits(0.7) };
    let rows = panoptic::slice_rows(
        &vec![slice("rain", &[2]), slice("none", &[])],
        &counts,
        &vec![Some(m), Some(m)],
    );
    assert_eq!((rows[0].n_images, rows[0].n_detections, rows[0].pq), (1, 5, bits(0.5)));
    assert_eq!((rows[1].n_images, rows[1].n_detections, rows[1].pq), (0, 0, 0));
    assert!(!panoptic::slice_needs_summary(&slice("none", &[])));
    assert!(panoptic::slice_needs_summary(&slice("rain", &[2])));
    assert_eq!(
        panoptic::partitioned_repr(2, 9, 2),
        "PartitionedPanopticReport(overall_n_images=2, overall_n_detections=9, n_slices=2)"
    );
}

#[test]
fn partitioned_requests_are_those_without_options() {
    let none = || PanopticOptions {
        pq_iou_threshold: None,
        category_filter: None,
        class_grouping: None,
        stuff_thing_partition: None,
    };
    let whole = plan_panoptic("strict", true, none(), true, bits(0.02)).unwrap();
    let parts = plan_partitioned("strict", true, true, bits(0.02)).unwrap();
    assert_eq!(format!("{whole:?}"), format!("{parts:?}"));
    assert_eq!(parts.mode, ParityMode::Strict);
    assert_eq!(parts.boundary.unwrap().dilation_ratio, bits(0.02));
    let options = PanopticOptions { category_filter: Some(vec![3]), ..none() };
    let kept = plan_panoptic("corrected", false, options, false, bits(-1.0)).unwrap();
    assert_eq!((kept.options.category_filter, kept.things_stuff_split), (Some(vec![3]), false));
    assert!(kept.boundary.is_none());
    // The rule book is looked at before the outlines.
    let e = plan_partitioned("lax", true, true, bits(-1.0)).unwrap_err();
    assert!(e.head.starts_with("unknown panoptic parity_mode"), "{}", e.head);
    let e = plan_partitioned("strict", true, true, bits(-1.0)).unwrap_err();
    assert!(e.head.starts_with("dilation_ratio must be"), "{}", e.head);
}

#[test]
fn the_whole_is_reported_whatever_the_slices() {
    let ids = vec![1i64, 2, 7];
    let counts = vec![(1i64, 4u64), (2, 5), (7, 0)];
    let m = PanopticMetrics { pq: bits(0.5), sq: bits(0.6), rq: bits(0.7) };
    let some = panoptic::partitioned_report(
        "summary",
        &ids,
        &counts,
        &vec![slice("rain", &[2]), slice("none", &[])],
        &vec![Some(m), None],
    );
    let other = panoptic::partitioned_report(
        "summary",
        &ids,
        &counts,
        &vec![slice("sun", &[1, 7])],
        &vec![Some(m)],
    );
    for r in [&some, &other] {
        assert_eq!((r.overall, r.overall_n_images, r.overall_n_detections), ("summary", 3, 9));
    }
    assert_eq!((some.rows.len(), some.rows[0].n_detections), (2, 5));
    assert_eq!((other.rows.len(), other.rows[0].n_detections), (1, 4));
}

#[test]
fn panoptic_settings_are_checked_in_order() {
    assert_eq!(parse_panoptic_parity_mode("strict").unwrap(), ParityMode::Strict);
    let r = panoptic_settings("loose", Err("eof".to_string()), true, 0);
    assert!(matches!(r, Err(Refusal::Argument(f)) if f.head
        == "unknown panoptic parity_mode \"loose\"; expected 'strict' or 'corrected'"));
    let r = panoptic_settings("strict", Err("eof".to_string()), true, 0);
    assert!(matches!(r, Err(Refusal::Raised(x)) if x.class == ExceptionClass::ValueError));
    let r = panoptic_settings("strict", Ok(vec![]), true, 0);
    assert!(matches!(r, Err(Refusal::Argument(f)) if f.head.starts_with("dilation_ratio must be")));
    let s = panoptic_settings("strict", Ok(vec![category(4, true)]), false, 0).unwrap();
    assert!(s.boundary.is_none());
    assert_eq!(s.categories.len(), 1);
    assert_eq!(
        boundary_cfg_from_ffi(true, bits(0.01), ParityMode::Strict).unwrap().unwrap().dilation_ratio,
        bits(0.01)
    );
    let r = panoptic::prepare_merge("strict", Ok(vec![]), false, 0, vec![None]);
    assert!(matches!(r, Err(Refusal::Argument(f)) if f.head
        == "merge_panoptic_partials expects a list of bytes objects"));
    assert!(panoptic::prepare_merge("strict", Ok(vec![]), false, 0, vec![Some(vec![1])]).is_ok());
}

#[test]
fn image_tuples_have_five_parts() {
    assert!(check_image_tuple(Some(5)).is_ok());
    assert_eq!(
        check_image_tuple(Some(4)).unwrap_err().head,
        "evaluate_panoptic_to_partial expects 5-tuples; got 4-tuple"
    );
    assert_eq!(
        check_image_tuple(None).unwrap_err().head,
        "evaluate_panoptic_to_partial expects a list of 5-tuples \
         (image_id, gt_label_map, gt_segments_info, dt_label_map, dt_segments_info)"
    );
    let image = build_image_entry(3, label_map(1, 1), Ok(vec![segment(8, JsonFlag::Bool(false))])).unwrap();
    assert_eq!((image.image_id, image.segments[0].id), (3, 8));
}

fn raised(message: &str) -> Raised {
    Raised::bare(ExceptionClass::ValueError, message.to_string())
}

#[test]
fn submits_are_checked_in_order() {
    let (update, t) = panoptic::prepare_submit(1, Ok('g'), Ok('d'), None).unwrap();
    assert!(matches!(update, PanopticUpdate::Decoded { image_id: 1, gt: 'g', dt: 'd' }));
    assert_eq!(t, None);
    let r = panoptic::prepare_submit::<u8>(1, Err(raised("gt")), Err(raised("dt")), Some(bits(-1.0)));
    assert!(matches!(r, Err(Refusal::Raised(x)) if x.message == "gt"));
    let r = panoptic::prepare_submit(1, Ok(0u8), Ok(0u8), Some(bits(-1.0)));
    assert!(matches!(r, Err(Refusal::Argument(_))));
    let r = prepare_png(1, Err("eof".to_string()), Ok(vec![]), Some(bits(-1.0)), None);
    assert!(matches!(r, Err(Refusal::Argument(_))));
    let r = prepare_png(1, Err("eof".to_string()), Ok(vec![]), None, None);
    assert!(matches!(r, Err(Refusal::Raised(_))));
    assert!(!prepare_png(1, Ok(vec![]), Ok(vec![]), None, None).unwrap().decode_in_worker);
    assert!(prepare_png(1, Ok(vec![]), Ok(vec![]), None, Some(4)).unwrap().decode_in_worker);
}

#[test]
fn strict_dicts_leave_counts_out() {
    let row = ClassPanopticStats { pq: bits(0.5), sq: bits(0.6), rq: bits(0.7), n_tp: 1, n_fp: 2, n_fn: 3 };
    let s = PanopticSummary {
        pq: bits(0.1),
        sq: bits(0.2),
        rq: bits(0.3),
        n: 4,
        pq_things: Some(bits(0.4)),
        sq_things: Some(bits(0.5)),
        rq_things: Some(bits(0.6)),
        n_things: Some(2),
        pq_stuff: Some(bits(0.4)),
        sq_stuff: None,
        rq_stuff: Some(bits(0.6)),
        n_stuff: Some(2),
        per_class: vec![(7, row)],
    };
    let d = s.to_dict(false);
    assert_eq!(d.all.n, 4);
    assert_eq!(d.things.unwrap().n, 2);
    assert!(d.stuff.is_none());
    assert_eq!(d.per_class[0].0, 7);
    assert_eq!(d.per_class[0].1.n_fp, Some(2));
    let d = s.to_dict(true);
    assert_eq!(d.per_class[0].1.pq, bits(0.5));
    assert_eq!((d.per_class[0].1.n_tp, d.per_class[0].1.n_fp, d.per_class[0].1.n_fn), (None, None, None));
}

#[test]
fn panoptic_faults_are_spelled_out() {
    let x = panoptic_error_to_pyerr(PanopticFault::ShapeMismatch { image_id: 4, gt_shape: (1, 2), dt_shape: (3, 4) });
    assert_eq!(x.class, ExceptionClass::ValueError);
    assert!(x.message.contains("(1, 2)") && x.message.contains("(3, 4)"), "{}", x.message);
    let x = panoptic_error_to_pyerr(PanopticFault::Partial {
        error: PartialError::RankCollision { rank_id: 1 },
        text: "why".to_string(),
    });
    assert_eq!(x.class, ExceptionClass::PartialRankCollision);
    assert_eq!(panoptic::dataset_repr(1, 2), "PanopticDataset(images=1, categories=2)");
    assert_eq!(panoptic::predictions_repr(3), "PanopticPredictions(images=3)");
    assert_eq!(panoptic::background_repr(3), "BackgroundPanopticEvaluator(n_categories=3)");
}
