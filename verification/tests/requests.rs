use std::collections::HashMap;
use vernier_ffi::background::{BackgroundLifecycle, QueueFull};
use vernier_ffi::breakdown::PyBreakdown;
use vernier_ffi::config::{
    memory_budget, parse_parity_mode, resolve_grid_axes, resolve_max_dets, validate_dilation_ratio,
    validate_shutdown_timeout, validate_submit_timeout, AreaAxis, EvalIouType, Ladder,
    MemoryBudget, ParityMode, SigmaEntry, SummarizePlan, SOFT_WARN_FRACTION,
};
use vernier_ffi::confusion::{
    check_boundary_confusion_pass, check_confusion_pass, class_label, counts_to_table,
};
use vernier_ffi::dataset::{dataset_repr, lvis_error_to_pyerr, LvisFault};
use vernier_ffi::errors::{
    coco_load_error_to_pyerr, eval_error_to_pyerr, queue_full_to_pyerr, submit_error_to_pyerr,
    Attribute, EvalError, EvalErrorKind, ExceptionClass, PartialError, Raised, Refusal,
    SubmitError,
};
use vernier_ffi::failure::{ErrorKind, Failure};
use vernier_ffi::ids::{image_places, sort_ids};
use vernier_ffi::obb::check_ceiling;
use vernier_ffi::pipeline::{
    accumulated_repr, check_lrp_pass, flag_bytes, grid_repr, kept_detections, plan_grid,
    plan_summary, summarize_lvis_request, summarize_request, summary_repr, trim_cap,
};
use vernier_ffi::streaming::{
    build_update_payload, choose_kernel, finalized_error, ingest_refusal, live, plan_background,
    plan_merge, plan_stream, poisoned_error, scheduling_step, start_background, take_live,
    update_report, DetectionsSource, GtObject, SchedulingStep, StreamArguments, Surface,
    UpdatePayload, UpdateReport,
};
use vernier_ffi::array_ingest::ArrayIouType;

fn bits(x: f64) -> u64 {
    x.to_bits()
}

fn message(f: &Failure) -> String {
    let mut m = f.head.clone();
    for (b, tail) in &f.reals {
        m.push_str(&format!("{}", f64::from_bits(*b)));
        m.push_str(tail);
    }
    m
}

// Settings ------------------------------------------------------------------

#[test]
fn rule_books_are_read_from_words() {
    assert_eq!(parse_parity_mode("strict").unwrap(), ParityMode::Strict);
    assert_eq!(parse_parity_mode("corrected").unwrap(), ParityMode::Corrected);
    assert_eq!(
        parse_parity_mode("Str\"ict").unwrap_err().head,
        "invalid parity_mode \"Str\\\"ict\"; expected 'strict' or 'corrected'"
    );
}

#[test]
fn ladders_are_sorted_and_not_empty() {
    assert_eq!(resolve_max_dets(vec![100, 1, 10]).unwrap(), (vec![1, 10, 100], 100));
    assert_eq!(
        resolve_max_dets(vec![]).unwrap_err().head,
        "max_dets must contain at least one entry"
    );
}

#[test]
fn widths_and_waits_are_checked() {
    assert!(validate_dilation_ratio(bits(0.02)).is_ok());
    for bad in [0.0, -0.0, -0.02, f64::NAN, f64::INFINITY] {
        assert!(validate_dilation_ratio(bits(bad)).is_err(), "{bad}");
    }
    assert_eq!(
        message(&validate_dilation_ratio(bits(-0.5)).unwrap_err()),
        "dilation_ratio must be a positive finite float, got -0.5"
    );
    assert_eq!(validate_shutdown_timeout(bits(0.0)).unwrap(), bits(0.0));
    assert_eq!(
        message(&validate_shutdown_timeout(bits(-1.0)).unwrap_err()),
        "shutdown_timeout_seconds must be a non-negative finite float, got -1"
    );
    assert_eq!(validate_submit_timeout(None).unwrap(), None);
    assert_eq!(validate_submit_timeout(Some(bits(1.5))).unwrap(), Some(bits(1.5)));
    assert_eq!(
        message(&validate_submit_timeout(Some(bits(f64::NAN))).unwrap_err()),
        "timeout must be a non-negative finite float or None, got NaN"
    );
}

#[test]
fn budgets_warn_at_four_fifths() {
    assert_eq!(SOFT_WARN_FRACTION, bits(0.80));
    assert_eq!(memory_budget(None), MemoryBudget::Auto);
    assert_eq!(
        memory_budget(Some(9)),
        MemoryBudget::Bytes { bytes: 9, soft_warn_fraction: bits(0.80) }
    );
}

#[test]
fn axes_fall_back_to_the_usual_ones() {
    let (iou, recall, area) = resolve_grid_axes(&EvalIouType::Bbox, None, None, None).unwrap();
    assert!(matches!(iou, Ladder::Canonical));
    assert!(matches!(recall, Ladder::Canonical));
    assert!(matches!(area, AreaAxis::Coco));
    let kp = EvalIouType::Keypoints { sigmas: HashMap::new() };
    assert!(matches!(resolve_grid_axes(&kp, None, None, None).unwrap().2, AreaAxis::Keypoints));
    let ranges = PyBreakdown::from_ranges("area".to_string(), &vec![("all".to_string(), bits(0.0), bits(1e10))]).unwrap();
    let (iou, _, area) =
        resolve_grid_axes(&EvalIouType::Segm, Some(vec![bits(0.5)]), None, Some(&ranges)).unwrap();
    assert!(matches!(iou, Ladder::Given(v) if v == vec![bits(0.5)]));
    assert!(matches!(area, AreaAxis::Given(b) if b.len() == 1 && b[0].label == "all"));
    let groups = PyBreakdown::from_class_groups("c".to_string(), &vec![("a".to_string(), vec![1])]).unwrap();
    assert!(resolve_grid_axes(&EvalIouType::Segm, None, None, Some(&groups)).is_err());
}

// Breakdowns ----------------------------------------------------------------

#[test]
fn ranges_are_kept_in_order() {
    let b = PyBreakdown::from_ranges(
        "area".to_string(),
        &vec![
            ("small".to_string(), bits(0.0), bits(10.0)),
            ("large".to_string(), bits(10.0), bits(20.0)),
        ],
    )
    .unwrap();
    assert_eq!(b.len(), 2);
    assert_eq!(b.axis(), "area");
    assert_eq!(b.buckets().unwrap()[1], ("large".to_string(), bits(10.0), bits(20.0)));
    assert!(b.class_groups().is_err());
    let bad = |l: f64, h: f64| {
        message(&PyBreakdown::from_ranges("a".to_string(), &vec![("x".to_string(), bits(l), bits(h))]).unwrap_err())
    };
    assert_eq!(bad(-1.0, 2.0), "Breakdown.from_ranges: bucket[0] lo must be >= 0, got -1");
    assert_eq!(bad(3.0, 2.0), "Breakdown.from_ranges: bucket[0] requires lo <= hi, got lo=3, hi=2");
    assert_eq!(bad(f64::NAN, 2.0), "Breakdown.from_ranges: bucket[0] lo must be finite, got NaN");
    assert_eq!(bad(0.0, f64::INFINITY), "Breakdown.from_ranges: bucket[0] hi must be finite, got inf");
    assert!(PyBreakdown::from_ranges("a".to_string(), &vec![]).is_err());
    let twice = vec![
        ("x".to_string(), bits(0.0), bits(1.0)),
        ("x".to_string(), bits(1.0), bits(2.0)),
    ];
    assert_eq!(
        PyBreakdown::from_ranges("a".to_string(), &twice).unwrap_err().head,
        "Breakdown.from_ranges: duplicate bucket label \"x\""
    );
}

#[test]
fn class_groups_partition() {
    let g = PyBreakdown::from_class_groups(
        "kind".to_string(),
        &vec![("a".to_string(), vec![1, 2]), ("b".to_string(), vec![3])],
    )
    .unwrap();
    assert_eq!(g.class_groups().unwrap()[0], ("a".to_string(), vec![1, 2]));
    assert!(g.buckets().is_err());
    let overlap = vec![("a".to_string(), vec![1]), ("b".to_string(), vec![1])];
    assert!(PyBreakdown::from_class_groups("k".to_string(), &overlap).is_err());
}

// Confusion -----------------------------------------------------------------

#[test]
fn confusion_requests_are_checked_in_order() {
    assert_eq!(check_confusion_pass("strict", bits(0.5), 100, true).unwrap(), ParityMode::Strict);
    assert!(check_confusion_pass("x", bits(9.0), 0, false).unwrap_err().head.starts_with("invalid parity_mode"));
    assert_eq!(
        message(&check_confusion_pass("strict", bits(1.5), 0, false).unwrap_err()),
        "iou_threshold must be a finite float in [0, 1], got 1.5"
    );
    assert!(check_confusion_pass("strict", bits(1.0), 0, false).unwrap_err().head.starts_with("max_dets_per_image"));
    assert!(check_confusion_pass("strict", bits(0.0), 1, false).unwrap_err().head.starts_with("use_cats=False"));
    assert!(check_boundary_confusion_pass(bits(0.0), "x", bits(0.5), 1, true)
        .unwrap_err()
        .head
        .starts_with("dilation_ratio"));
}

#[test]
fn confusion_rows_are_sorted_with_none_last() {
    let t = counts_to_table(
        &vec![((None, Some(0)), 4), ((Some(1), None), 3), ((Some(0), Some(1)), 2), ((Some(0), Some(0)), 1)],
        &vec![10, 20],
    );
    assert_eq!(t.gt_class, vec!["10", "10", "20", "__none__"]);
    assert_eq!(t.dt_class, vec!["10", "20", "__none__", "10"]);
    assert_eq!(t.count, vec![1, 2, 3, 4]);
    assert_eq!(class_label(Some(1), &vec![10, -20]), "-20");
    assert_eq!(class_label(None, &vec![]), "__none__");
}

// Errors --------------------------------------------------------------------

fn eval_error(kind: EvalErrorKind) -> EvalError {
    EvalError { kind, text: "why".to_string() }
}

#[test]
fn evaluation_errors_have_their_classes() {
    let x = eval_error_to_pyerr(eval_error(EvalErrorKind::OutOfBudget {
        used_bytes: 9,
        budget_bytes: 8,
        breakdown: vec![("cells".to_string(), 9)],
    }));
    assert_eq!(x.class, ExceptionClass::OutOfBudgetError);
    assert_eq!(x.message, "memory budget exceeded: used 9 / budget 8 bytes");
    assert_eq!(x.attributes.len(), 3);
    assert_eq!(x.attributes[0].0, "used_bytes");
    assert!(matches!(x.attributes[1].1, Attribute::Number(8)));
    for (kind, class) in [
        (EvalErrorKind::InvalidAnnotation, ExceptionClass::InvalidAnnotationError),
        (EvalErrorKind::NonFinite, ExceptionClass::NonFiniteError),
        (EvalErrorKind::DimensionMismatch, ExceptionClass::DimensionMismatchError),
        (EvalErrorKind::InvalidConfig, ExceptionClass::InvalidConfigError),
        (EvalErrorKind::Other, ExceptionClass::ValueError),
    ] {
        let x = eval_error_to_pyerr(eval_error(kind));
        assert_eq!(x.class, class);
        assert_eq!(x.message, "why");
    }
    let x = eval_error_to_pyerr(eval_error(EvalErrorKind::NotImplemented { feature: "obb".to_string() }));
    assert_eq!((x.class, x.message.as_str()), (ExceptionClass::NotImplementedError, "obb"));
    let x = coco_load_error_to_pyerr(eval_error(EvalErrorKind::NotImplemented { feature: "obb".to_string() }));
    assert_eq!((x.class, x.message.as_str()), (ExceptionClass::ValueError, "why"));
}

#[test]
fn partial_errors_carry_their_attributes() {
    let x = eval_error_to_pyerr(eval_error(EvalErrorKind::Partial(PartialError::PartitionOverlap {
        rank_a: 1,
        rank_b: 2,
        image_id: 3,
    })));
    assert_eq!(x.class, ExceptionClass::PartialPartitionOverlap);
    assert_eq!(x.attributes.len(), 3);
    let x = eval_error_to_pyerr(eval_error(EvalErrorKind::Partial(PartialError::RankCollision { rank_id: 7 })));
    assert_eq!(x.class, ExceptionClass::PartialRankCollision);
    let x = eval_error_to_pyerr(eval_error(EvalErrorKind::Partial(PartialError::DatasetMismatch {
        expected: [1; 32],
        actual: [2; 32],
    })));
    assert_eq!(x.class, ExceptionClass::PartialDatasetMismatch);
    assert!(matches!(&x.attributes[0].1, Attribute::Bytes(b) if b == &vec![1u8; 32]));
    let x = eval_error_to_pyerr(eval_error(EvalErrorKind::Partial(PartialError::Format {
        tag: "magic".to_string(),
    })));
    assert_eq!(x.class, ExceptionClass::PartialFormatMismatch);
}

#[test]
fn a_full_queue_says_how_long_it_was_waited_for() {
    let x = queue_full_to_pyerr(QueueFull { queue_capacity: 8, timeout_ns: 1_500_000_000 });
    assert_eq!(x.class, ExceptionClass::QueueFullError);
    assert_eq!(x.message, "background submit queue full (capacity=8, timeout=1.5s)");
    assert!(matches!(x.attributes[1].1, Attribute::Seconds(1, 500_000_000)));
    let x = submit_error_to_pyerr(SubmitError::Full(QueueFull { queue_capacity: 1, timeout_ns: 0 }));
    assert_eq!(x.message, "background submit queue full (capacity=1, timeout=0ns)");
    let x = submit_error_to_pyerr(SubmitError::Eval(eval_error(EvalErrorKind::NonFinite)));
    assert_eq!(x.class, ExceptionClass::NonFiniteError);
}

#[test]
fn federated_faults_are_spelled_out() {
    let e = lvis_error_to_pyerr(LvisFault::FederatedConflict {
        image_id: -3,
        category_id: 4,
        detail: "neg has GT".to_string(),
    });
    assert_eq!(e.kind, ErrorKind::ValueError);
    assert_eq!(e.head, "lvis federated conflict on image_id=-3, category_id=4: neg has GT");
    let e = lvis_error_to_pyerr(LvisFault::MissingFrequency { category_ids: vec![1, 20, 3] });
    assert_eq!(e.head, "lvis dataset is missing `frequency` on 3 categories: [1, 20, 3]");
    assert_eq!(lvis_error_to_pyerr(LvisFault::Other { text: "x".to_string() }).head, "x");
    assert_eq!(dataset_repr(1, 2, 3, false), "CocoDataset(images=1, annotations=2, categories=3)");
    assert_eq!(
        dataset_repr(1, 2, 3, true),
        "CocoDataset(images=1, annotations=2, categories=3, federated=True)"
    );
}

// Pipelines -----------------------------------------------------------------

#[test]
fn ids_are_put_in_order() {
    assert_eq!(sort_ids(&vec![5, -1, 3]), vec![-1, 3, 5]);
    let places = image_places(&vec![5, -1, 3]);
    assert_eq!((places[&-1], places[&3], places[&5]), (0, 1, 2));
    assert!(image_places(&vec![]).is_empty());
}

#[test]
fn grids_are_planned() {
    let p = plan_grid(&EvalIouType::Bbox, "strict", None, Some(vec![bits(0.0)]), None).unwrap();
    assert_eq!(p.parity, ParityMode::Strict);
    assert!(matches!(p.recall_thresholds, Ladder::Given(_)));
    let groups = PyBreakdown::from_class_groups("c".to_string(), &vec![("a".to_string(), vec![1])]).unwrap();
    let e = plan_grid(&EvalIouType::Bbox, "x", None, None, Some(&groups)).unwrap_err();
    assert!(e.head.starts_with("invalid parity_mode"));
}

#[test]
fn federated_datasets_trim() {
    assert_eq!(trim_cap(false, 100), None);
    assert_eq!(trim_cap(true, 300), Some(300));
    assert_eq!(trim_cap(true, usize::MAX), Some(-1));
    assert_eq!(trim_cap(true, 1 << 63), Some(i64::MIN));
    for n in [0usize, 1, usize::MAX / 2, usize::MAX / 2 + 1, usize::MAX - 4] {
        assert_eq!(trim_cap(true, n), Some(n as i64));
    }
}

#[test]
fn summaries_are_planned() {
    let kp = EvalIouType::Keypoints { sigmas: HashMap::new() };
    let p = plan_summary(&kp, "corrected", vec![20, 1]).unwrap();
    assert_eq!(p.max_dets, vec![1, 20]);
    assert_eq!(p.max_dets_per_image, 20);
    assert_eq!(p.plan, SummarizePlan::Keypoints);
    assert!(matches!(p.area, AreaAxis::Keypoints));
    assert!(plan_summary(&kp, "corrected", vec![]).is_err());
    let (plan, ladder) = summarize_request(None, None, &vec![1, 10]).unwrap();
    assert_eq!((plan, ladder), (SummarizePlan::Detection, vec![1, 10]));
    let (plan, ladder) = summarize_request(Some("keypoints"), Some(vec![5, 2]), &vec![1]).unwrap();
    assert_eq!((plan, ladder), (SummarizePlan::Keypoints, vec![2, 5]));
    assert_eq!(
        summarize_request(Some("lvis"), Some(vec![]), &vec![1]).unwrap_err().head,
        "invalid plan \"lvis\"; expected 'detection' or 'keypoints'"
    );
    let (ladder, ids) = summarize_lvis_request(Some(vec![300]), &vec![1], &vec![9, 2]).unwrap();
    assert_eq!((ladder, ids), (vec![300], vec![2, 9]));
    assert!(summarize_lvis_request(Some(vec![]), &vec![1], &vec![]).is_err());
}

#[test]
fn lrp_requests_check_the_band_first() {
    assert_eq!(check_lrp_pass("strict", None).unwrap(), ParityMode::Strict);
    assert_eq!(check_lrp_pass("strict", Some(bits(0.02))).unwrap(), ParityMode::Strict);
    assert!(check_lrp_pass("x", Some(bits(0.0))).unwrap_err().head.starts_with("dilation_ratio"));
    assert!(check_lrp_pass("x", None).unwrap_err().head.starts_with("invalid parity_mode"));
}

#[test]
fn grids_describe_themselves() {
    assert_eq!(summary_repr(12), "Summary(lines=12)");
    assert_eq!(grid_repr(1, 4, 9), "EvalGrid(n_categories=1, n_area_ranges=4, n_images=9)");
    assert_eq!(accumulated_repr(10, 101, 2, 4, 3), "Accumulated(precision=10x101x2x4x3)");
    assert_eq!(flag_bytes(&vec![true, false, true]), vec![1, 0, 1]);
    assert_eq!(kept_detections(Some(4)).unwrap(), 4);
    let nothing: Option<u8> = None;
    assert_eq!(
        kept_detections(nothing).unwrap_err().head,
        "per_detection table requires the grid to be built with retain_iou=true; \
         rebuild via `tables=('per_detection', ...)`"
    );
}

// Streams -------------------------------------------------------------------

fn arguments(iou_type: &str) -> StreamArguments {
    StreamArguments {
        iou_type: iou_type.to_string(),
        parity_mode: "corrected".to_string(),
        max_dets: vec![100, 1, 10],
        use_cats: true,
        memory_budget_bytes: None,
        dilation_ratio: bits(0.02),
        sigmas: None,
        retain_iou: false,
    }
}

fn load_error() -> Raised {
    coco_load_error_to_pyerr(eval_error(EvalErrorKind::NonFinite))
}

#[test]
fn streams_are_planned() {
    let p = plan_stream(arguments("segm"), Ok(5u8)).unwrap();
    assert_eq!(p.settings.max_dets_per_image, 100);
    assert_eq!(p.settings.parity, ParityMode::Corrected);
    assert_eq!(p.dataset, 5);
    assert!(matches!(p.kernel, EvalIouType::Segm));
    assert!(matches!(p.area, AreaAxis::Coco));
    let p = plan_stream(arguments("keypoints"), Ok(5u8)).unwrap();
    assert!(matches!(p.area, AreaAxis::Keypoints));
    let p = plan_stream(arguments("boundary"), Ok(5u8)).unwrap();
    assert!(matches!(p.kernel, EvalIouType::Boundary { dilation_ratio } if dilation_ratio == bits(0.02)));
}

#[test]
fn stream_refusals_come_in_order() {
    let mut a = arguments("cube");
    a.parity_mode = "x".to_string();
    a.max_dets = vec![];
    let r: Result<_, Refusal> = plan_stream::<u8>(a, Err(load_error()));
    assert!(matches!(r, Err(Refusal::Argument(f)) if f.head.starts_with("invalid parity_mode")));
    let mut a = arguments("cube");
    a.max_dets = vec![];
    let r = plan_stream::<u8>(a, Err(load_error()));
    assert!(matches!(r, Err(Refusal::Argument(f)) if f.head.starts_with("max_dets")));
    let r = plan_stream::<u8>(arguments("cube"), Err(load_error()));
    assert!(matches!(r, Err(Refusal::Raised(x)) if x.class == ExceptionClass::NonFiniteError));
    let r = plan_stream(arguments("cube"), Ok(1u8));
    assert!(matches!(r, Err(Refusal::Argument(f)) if f.head
        == "invalid iou_type \"cube\"; expected 'bbox', 'segm', 'boundary', or 'keypoints'"));
    let mut a = arguments("boundary");
    a.dilation_ratio = bits(0.0);
    assert!(plan_stream(a, Ok(1u8)).is_err());
    let mut a = arguments("bbox");
    a.dilation_ratio = bits(0.0);
    assert!(plan_stream(a, Ok(1u8)).is_ok());
}

#[test]
fn merging_checks_more_than_streaming() {
    let (plan, buffers) = plan_merge(arguments("bbox"), Ok(1u8), vec![Some(vec![1, 2]), Some(vec![])]).unwrap();
    assert!(matches!(plan.kernel, EvalIouType::Bbox));
    assert_eq!(buffers, vec![vec![1, 2], vec![]]);
    let r = plan_merge(arguments("bbox"), Ok(1u8), vec![None]);
    assert!(matches!(r, Err(Refusal::Argument(f)) if f.head == "partials must be a sequence of bytes objects"));
    let mut a = arguments("bbox");
    a.dilation_ratio = bits(0.0);
    let r = plan_merge(a, Ok(1u8), vec![]);
    assert!(matches!(r, Err(Refusal::Argument(f)) if f.head.starts_with("dilation_ratio")));
    let r = plan_merge(arguments("cube"), Ok(1u8), vec![]);
    assert!(matches!(r, Err(Refusal::Config(d)) if d.starts_with("invalid iou_type \"cube\"")));
    let bad_sigmas = || Some(vec![SigmaEntry {
        category: Err(Failure::type_error("an int".to_string())),
        sigmas: Ok(vec![]),
    }]);
    let mut a = arguments("keypoints");
    a.sigmas = bad_sigmas();
    assert!(matches!(plan_merge(a, Ok(1u8), vec![]), Err(Refusal::Argument(f)) if f.head == "an int"));
    let mut a = arguments("bbox");
    a.sigmas = bad_sigmas();
    assert!(plan_merge(a, Ok(1u8), vec![]).is_ok());
}

#[test]
fn background_evaluators_use_caches_of_a_handle() {
    let start = |gt: GtObject<u8>| start_background("strict", vec![10], None, gt, bits(5.0));
    let s = start(GtObject::Handle(3)).unwrap();
    assert!(s.has_handle);
    let p = plan_background(s, "segm", bits(0.02), None, true, false).unwrap();
    assert!(p.cached);
    assert_eq!(p.shutdown_timeout, bits(5.0));
    let p = plan_background(start(GtObject::Handle(3)).unwrap(), "bbox", bits(0.02), None, true, false).unwrap();
    assert!(!p.cached);
    let p = plan_background(start(GtObject::Bytes(Ok(3))).unwrap(), "boundary", bits(0.02), None, true, false).unwrap();
    assert!(!p.cached);
    assert!(plan_background(start(GtObject::Handle(3)).unwrap(), "x", bits(0.02), None, true, false).is_err());
    let r = start(GtObject::Other);
    assert!(matches!(r, Err(Refusal::Argument(f)) if f.kind == ErrorKind::TypeError
        && f.head == "BackgroundEvaluator(...) gt must be `bytes` or `vernier.instance.CocoDataset`"));
    assert!(matches!(start(GtObject::Bytes(Err(load_error()))), Err(Refusal::Raised(_))));
    let r = start_background("strict", vec![10], None, GtObject::Handle(3u8), bits(-1.0));
    assert!(matches!(r, Err(Refusal::Argument(f)) if f.head.starts_with("shutdown_timeout_seconds")));
}

#[test]
fn kernels_are_read_from_words() {
    assert!(matches!(choose_kernel("bbox", 0, None), Ok(EvalIouType::Bbox)));
    let sigmas = vec![SigmaEntry { category: Ok(1), sigmas: Ok(vec![bits(0.1)]) }];
    let k = choose_kernel("keypoints", 0, Some(sigmas)).unwrap();
    assert!(matches!(k, EvalIouType::Keypoints { sigmas } if sigmas[&1] == vec![bits(0.1)]));
}

#[test]
fn payloads_follow_their_route() {
    let p = build_update_payload(DetectionsSource::Bytes(vec![1]), ArrayIouType::Bbox).unwrap();
    assert!(matches!(p, UpdatePayload::Bytes(b) if b == vec![1]));
    let row: Vec<u64> = [3.0, 1.0, 2.0, 3.0, 4.0, 0.5, 9.0].iter().map(|x: &f64| x.to_bits()).collect();
    let p = build_update_payload(DetectionsSource::Matrix(Ok(row)), ArrayIouType::Bbox).unwrap();
    assert!(matches!(p, UpdatePayload::Inputs(v) if v.len() == 1 && v[0].image_id == 3));
    let e = build_update_payload(
        DetectionsSource::Matrix(Err(Failure::value_error("no array".to_string()))),
        ArrayIouType::Bbox,
    )
    .unwrap_err();
    assert_eq!(e.head, "no array");
    assert!(build_update_payload(DetectionsSource::AnnList(vec![]), ArrayIouType::Bbox).is_ok());
    assert!(build_update_payload(
        DetectionsSource::Dicts { dicts: vec![], indexed: true },
        ArrayIouType::Bbox
    )
    .is_ok());
    assert_eq!(ingest_refusal("dup id").head, "detections array ingest: dup id");
}

#[test]
fn finalizing_is_final() {
    let mut l = BackgroundLifecycle::new(4u8);
    assert_eq!(live(&l, Surface::Background), Ok(&4));
    assert_eq!(take_live(&mut l, Surface::Background), Ok(4));
    assert_eq!(
        take_live(&mut l, Surface::Background),
        Err("BackgroundEvaluator has already been finalized".to_string())
    );
    assert_eq!(
        live(&l, Surface::Streaming),
        Err("StreamingEvaluator has already been finalized".to_string())
    );
    assert_eq!(
        finalized_error(Surface::BackgroundPanoptic),
        "BackgroundPanopticEvaluator has already been finalized"
    );
    assert_eq!(
        poisoned_error(Surface::BackgroundSemantic),
        "BackgroundSemanticEvaluator state mutex poisoned"
    );
}

#[test]
fn reports_warn_where_memory_runs_low() {
    let r = UpdateReport { n_images_in_batch: 2, n_detections_accepted: 7, soft_warn_triggered: true };
    let (dict, warning) = update_report(r, 1024);
    assert_eq!((dict.new_images, dict.new_detections, dict.memory_used_bytes), (2, 7, 1024));
    assert_eq!(
        warning.as_deref(),
        Some("StreamingEvaluator memory usage crossed the soft-warn threshold (1024 bytes used)")
    );
    let quiet = UpdateReport { soft_warn_triggered: false, ..r };
    assert_eq!(update_report(quiet, 1024).1, None);
}

#[test]
fn scheduling_is_asked_for_ten_times() {
    assert!(matches!(scheduling_step("X", 1, None), SchedulingStep::Sleep { again: true }));
    assert!(matches!(scheduling_step("X", 9, None), SchedulingStep::Sleep { again: true }));
    assert!(matches!(scheduling_step("X", 10, None), SchedulingStep::Sleep { again: false }));
    assert!(matches!(scheduling_step("X", 1, Some(Ok(()))), SchedulingStep::Done(None)));
    let s = scheduling_step("BackgroundEvaluator", 2, Some(Err("nice: no".to_string())));
    assert!(matches!(s, SchedulingStep::Done(Some(w)) if w == "BackgroundEvaluator scheduling: nice: no"));
}

// Oriented boxes ------------------------------------------------------------

#[test]
fn every_quad_has_a_category() {
    assert!(check_ceiling(0, 0).is_ok());
    assert!(check_ceiling(3, 3).is_ok());
    let e = check_ceiling(3, 12).unwrap_err();
    assert_eq!(e.kind, ErrorKind::ValueError);
    assert_eq!(e.head, "quads and category_ids disagree on length: 3 vs 12");
}
