use arrow_array::{
    cast::AsArray, types::Float64Type, Array, ArrayRef, BooleanArray, FixedSizeListArray,
    Float64Array, Int16Array, Int32Array, Int64Array, Int8Array, LargeStringArray, StringArray,
    StringViewArray, StructArray, UInt16Array, UInt32Array, UInt64Array, UInt8Array,
};
use arrow_data::ArrayData;
use arrow_schema::{DataType, TimeUnit};
use std::sync::Arc;
use vernier_ffi::batch::{
    arrow_err, build_batch, column_cells, export, wrap_batch, ArrowRecordBatch, Cell, Cells,
    TableColumn,
};
use vernier_ffi::manifest::{
    batches_share_schema, check_extension, column_value, manifest_document, manifest_route,
    manifest_rows, record_batches_to_json_bytes, ArrowBatch, ManifestBatch, ManifestColumn,
    ManifestObject, ManifestRoute, Scalar,
};
use vernier_ffi::model::Bbox;
use vernier_ffi::partition::{
    manifest_refusal, slices_batch_instance_ap, slices_batch_panoptic, slices_batch_semantic,
    unknown_key_warning, PartitionedReport,
};
use vernier_ffi::streaming::{streaming_tables_result, Tables};
use vernier_ffi::tables::{
    per_class_record_batch, per_detection_record_batch, per_image_record_batch,
    per_pair_record_batch, slices_metadata, table_metadata, InstanceSliceRow, PanopticSliceRow,
    PerClassTable, PerDetectionTable, PerImageTable, PerPairTable, SemanticSliceRow,
};
use vernier_ffi::{panoptic_tables, semantic_tables};

fn bits(x: f64) -> u64 {
    x.to_bits()
}

fn columns(w: &ArrowRecordBatch) -> StructArray {
    StructArray::from(w.data.clone())
}

fn names(w: &ArrowRecordBatch) -> Vec<String> {
    w.schema.fields().iter().map(|f| f.name().clone()).collect()
}

fn column(name: &'static str, nullable: bool, cells: Cells) -> TableColumn {
    TableColumn { name, nullable, cells }
}

fn meta(w: &ArrowRecordBatch, key: &str) -> Option<String> {
    w.schema.metadata().get(key).cloned()
}

#[test]
fn every_sort_of_column_is_built() {
    let built = build_batch(
        vec![
            column("i", false, Cells::Int64(vec![-1, 2])),
            column("oi", true, Cells::OptInt64(vec![None, Some(5)])),
            column("u32", false, Cells::UInt32(vec![3, u32::MAX])),
            column("u64", false, Cells::UInt64(vec![4, u64::MAX])),
            column("f", false, Cells::Float64(vec![bits(0.5), bits(-2.0)])),
            column("of", true, Cells::OptFloat64(vec![Some(bits(1.25)), None])),
            column("t", false, Cells::Text(vec!["a".to_string(), "é".to_string()])),
            column(
                "l",
                false,
                Cells::Labels(vec![1, 0], vec!["tp".to_string(), "fp".to_string()]),
            ),
            column(
                "q",
                false,
                Cells::Quads(vec![
                    bits(1.0), bits(2.0), bits(3.0), bits(4.0), bits(5.0), bits(6.0), bits(7.0), bits(8.0),
                ]),
            ),
        ],
        vec![("k".to_string(), "v".to_string())],
    );
    let w = wrap_batch(built.ok().unwrap());
    let s = columns(&w);
    assert_eq!(s.len(), 2);
    assert_eq!(names(&w), vec!["i", "oi", "u32", "u64", "f", "of", "t", "l", "q"]);
    assert_eq!(meta(&w, "k").as_deref(), Some("v"));
    let i = s.column(0).as_any().downcast_ref::<Int64Array>().unwrap();
    assert_eq!(i.values().to_vec(), vec![-1, 2]);
    let oi = s.column(1).as_any().downcast_ref::<Int64Array>().unwrap();
    assert!(oi.is_null(0));
    assert_eq!(oi.value(1), 5);
    let u = s.column(2).as_any().downcast_ref::<UInt32Array>().unwrap();
    assert_eq!(u.values().to_vec(), vec![3, u32::MAX]);
    let u = s.column(3).as_any().downcast_ref::<UInt64Array>().unwrap();
    assert_eq!(u.values().to_vec(), vec![4, u64::MAX]);
    let f = s.column(4).as_any().downcast_ref::<Float64Array>().unwrap();
    assert_eq!(f.values().to_vec(), vec![0.5, -2.0]);
    let of = s.column(5).as_any().downcast_ref::<Float64Array>().unwrap();
    assert_eq!(of.value(0), 1.25);
    assert!(of.is_null(1));
    let t = s.column(6).as_any().downcast_ref::<StringArray>().unwrap();
    assert_eq!((t.value(0), t.value(1)), ("a", "é"));
    let l = s.column(7).as_any_dictionary();
    let values = l.values().as_any().downcast_ref::<StringArray>().unwrap();
    assert_eq!(l.normalized_keys(), vec![1, 0]);
    assert_eq!(values.value(1), "fp");
    let q = s.column(8).as_any().downcast_ref::<FixedSizeListArray>().unwrap();
    assert_eq!(q.value_length(), 4);
    let second = q.value(1);
    assert_eq!(second.as_primitive::<Float64Type>().values().to_vec(), vec![5.0, 6.0, 7.0, 8.0]);
    assert!(w.schema.field(1).is_nullable());
    assert!(!w.schema.field(0).is_nullable());
    assert_eq!(w.repr(), "ArrowRecordBatch(rows=2, columns=9)");
}

#[test]
fn columns_that_do_not_fit_are_refused() {
    let short = build_batch(
        vec![
            column("a", false, Cells::Int64(vec![1, 2])),
            column("b", false, Cells::Int64(vec![1])),
        ],
        vec![],
    );
    let e = export(short).err().unwrap();
    assert!(e.head.starts_with("arrow record batch build failed: "), "{}", e.head);
    let null = build_batch(vec![column("a", false, Cells::OptInt64(vec![None]))], vec![]);
    assert!(null.is_err());
    assert_eq!(arrow_err("x").head, "arrow record batch build failed: x");
}

fn image_table() -> PerImageTable {
    PerImageTable {
        image_id: vec![1, 2],
        n_gt: vec![3, 4],
        n_dt: vec![5, 6],
        tp_at_50: vec![1, 1],
        fp_at_50: vec![2, 2],
        fn_at_50: vec![0, 0],
        tp_at_75: vec![1, 0],
        fp_at_75: vec![0, 1],
        fn_at_75: vec![1, 1],
        tp_mean_iou: vec![9, 9],
    }
}

fn class_table() -> PerClassTable {
    PerClassTable {
        category_id: vec![7],
        category_name: vec!["cat".to_string()],
        ap: vec![Some(bits(0.5))],
        ap50: vec![None],
        ap75: vec![None],
        ap_s: vec![None],
        ap_m: vec![None],
        ap_l: vec![None],
        ar_max_1: vec![None],
        ar_max_10: vec![None],
        ar_max_100: vec![None],
        n_gt: vec![1],
        n_dt: vec![2],
    }
}

fn detection_table(boxes: bool) -> PerDetectionTable {
    PerDetectionTable {
        detection_id: vec![1],
        image_id: vec![2],
        category_id: vec![3],
        score: vec![bits(0.9)],
        area: vec![bits(4.0)],
        match_status_at_50: vec![1],
        status_labels: vec!["tp".to_string(), "fp".to_string()],
        matched_gt_id_at_50: vec![None],
        best_iou: vec![Some(bits(0.3))],
        bbox: if boxes {
            Some(vec![Bbox { x: bits(0.0), y: bits(1.0), w: bits(2.0), h: bits(3.0) }])
        } else {
            None
        },
    }
}

#[test]
fn result_tables_are_stamped() {
    let w = wrap_batch(per_image_record_batch(image_table()).ok().unwrap());
    assert_eq!(meta(&w, "vernier.table").as_deref(), Some("per_image"));
    assert_eq!(meta(&w, "vernier.schema_version").as_deref(), Some("1"));
    assert_eq!(w.data.len(), 2);
    let w = wrap_batch(per_class_record_batch(class_table()).ok().unwrap());
    assert_eq!(meta(&w, "vernier.table").as_deref(), Some("per_class"));
    assert_eq!(names(&w)[..2], ["category_id".to_string(), "category_name".to_string()]);
    let w = wrap_batch(per_detection_record_batch(detection_table(false)).ok().unwrap());
    assert_eq!(names(&w).len(), 8);
    let w = wrap_batch(per_detection_record_batch(detection_table(true)).ok().unwrap());
    assert_eq!(names(&w)[8], "bbox_xywh");
    assert_eq!(
        *w.schema.field(5).data_type(),
        DataType::Dictionary(Box::new(DataType::Int32), Box::new(DataType::Utf8))
    );
    let mut bad = detection_table(false);
    bad.match_status_at_50 = vec![2];
    assert!(per_detection_record_batch(bad).is_err());
    let pair = PerPairTable {
        detection_id: vec![1],
        ground_truth_id: vec![2],
        image_id: vec![3],
        category_id: vec![4],
        iou: vec![bits(0.5)],
    };
    let w = wrap_batch(per_pair_record_batch(pair).ok().unwrap());
    assert_eq!(names(&w), vec!["detection_id", "ground_truth_id", "image_id", "category_id", "iou"]);
    assert_eq!(
        table_metadata("x"),
        vec![
            ("vernier.schema_version".to_string(), "1".to_string()),
            ("vernier.table".to_string(), "x".to_string()),
        ]
    );
}

#[test]
fn streaming_tables_are_there_where_asked_for() {
    let out = streaming_tables_result(Tables {
        per_image: Some(image_table()),
        per_class: None,
        per_detection: Some(detection_table(true)),
        per_pair: None,
    })
    .ok()
    .unwrap();
    assert_eq!(out.per_image.unwrap().data.len(), 2);
    assert!(out.per_class.is_none());
    assert_eq!(out.per_detection.unwrap().data.len(), 1);
    assert!(out.per_pair.is_none());
    let mut bad = class_table();
    bad.n_dt = vec![];
    let e = streaming_tables_result(Tables {
        per_image: None,
        per_class: Some(bad),
        per_detection: None,
        per_pair: None,
    })
    .err()
    .unwrap();
    assert!(!e.head.starts_with("arrow record batch build failed"), "{}", e.head);
}

#[test]
fn slice_tables_are_told_apart() {
    let w = slices_batch_panoptic(vec![PanopticSliceRow {
        axis: "weather".to_string(),
        value: "rain".to_string(),
        n_images: 3,
        n_detections: 5,
        pq: bits(0.1),
        sq: bits(0.2),
        rq: bits(0.5),
    }])
    .ok()
    .unwrap();
    assert_eq!(meta(&w, "vernier.table").as_deref(), Some("slices"));
    assert_eq!(meta(&w, "vernier.paradigm").as_deref(), Some("panoptic"));
    assert_eq!(meta(&w, "vernier.metric").as_deref(), Some("pq"));
    assert_eq!(names(&w), vec!["axis", "value", "n_images", "n_detections", "pq", "sq", "rq"]);
    let w = slices_batch_semantic(vec![SemanticSliceRow {
        axis: "a".to_string(),
        value: "b".to_string(),
        n_images: 1,
        n_detections: 0,
        miou: bits(0.5),
        fwiou: bits(0.5),
        pixel_accuracy: bits(0.5),
        mean_accuracy: bits(0.5),
    }])
    .ok()
    .unwrap();
    assert_eq!(meta(&w, "vernier.paradigm").as_deref(), Some("semantic"));
    let w = slices_batch_instance_ap(vec![InstanceSliceRow {
        axis: "a".to_string(),
        value: "b".to_string(),
        n_images: 1,
        n_detections: 2,
        stats: vec![bits(0.25), bits(0.5)],
    }])
    .ok()
    .unwrap();
    let s = columns(&w);
    let ap50 = s.column(5).as_any().downcast_ref::<Float64Array>().unwrap();
    assert_eq!(ap50.value(0), 0.5);
    let ap75 = s.column(6).as_any().downcast_ref::<Float64Array>().unwrap();
    assert!(ap75.value(0).is_nan());
    assert_eq!(slices_metadata("semantic", "miou").len(), 4);
}

#[test]
fn class_tables_of_other_evaluations_carry_no_stamp() {
    let t = panoptic_tables::PerClassTable {
        category_id: vec![1],
        pq: vec![bits(0.5)],
        sq: vec![bits(0.5)],
        rq: vec![bits(0.5)],
        n_tp: vec![1],
        n_fp: vec![2],
        n_fn: vec![3],
        iou_sum: vec![bits(0.9)],
    };
    let w = wrap_batch(panoptic_tables::per_class_record_batch(t).ok().unwrap());
    assert!(w.schema.metadata().is_empty());
    assert_eq!(w.data.len(), 1);
    let t = semantic_tables::PerClassTable {
        category_id: vec![1],
        iou: vec![bits(0.5)],
        accuracy: vec![bits(0.5)],
        precision: vec![bits(0.5)],
        n_gt_pixels: vec![1],
        n_dt_pixels: vec![2],
        tp_pixels: vec![3],
        fp_pixels: vec![4],
        fn_pixels: vec![5],
    };
    let w = wrap_batch(semantic_tables::per_class_record_batch(t).ok().unwrap());
    assert_eq!(w.data.len(), 1);
}

// Manifests -----------------------------------------------------------------

fn read(a: ArrayRef) -> Vec<String> {
    column_cells(&a.to_data()).iter().map(|c| format!("{c:?}")).collect()
}

#[test]
fn cells_of_every_readable_type_are_read() {
    assert_eq!(read(Arc::new(Int32Array::from(vec![Some(-3), None]))), vec!["Int(-3)", "Null"]);
    assert_eq!(read(Arc::new(Int64Array::from(vec![i64::MIN]))), vec![format!("Int({})", i64::MIN)]);
    assert_eq!(read(Arc::new(UInt32Array::from(vec![7]))), vec!["Int(7)"]);
    assert_eq!(read(Arc::new(UInt64Array::from(vec![u64::MAX]))), vec![format!("UInt({})", u64::MAX)]);
    assert_eq!(read(Arc::new(StringArray::from(vec![Some("a"), None]))), vec!["Text(\"a\")", "Null"]);
    assert_eq!(read(Arc::new(LargeStringArray::from(vec!["b"]))), vec!["Text(\"b\")"]);
    assert_eq!(
        read(Arc::new(StringViewArray::from(vec!["a longer text than a view can hold inline"]))),
        vec!["Text(\"a longer text than a view can hold inline\")"]
    );
    assert_eq!(
        read(Arc::new(BooleanArray::from(vec![Some(true), None, Some(false)]))),
        vec!["Bool(true)", "Null", "Bool(false)"]
    );
    assert_eq!(read(Arc::new(Int8Array::from(vec![Some(-128), None]))), vec!["Int(-128)", "Null"]);
    assert_eq!(read(Arc::new(Int16Array::from(vec![-300]))), vec!["Int(-300)"]);
    assert_eq!(read(Arc::new(UInt8Array::from(vec![255]))), vec!["Int(255)"]);
    assert_eq!(read(Arc::new(UInt16Array::from(vec![65535]))), vec!["Int(65535)"]);
    assert_eq!(read(Arc::new(UInt32Array::from(vec![u32::MAX]))), vec!["Int(4294967295)"]);
    let reals = Float64Array::from(vec![None, Some(0.5), None]);
    assert_eq!(read(Arc::new(reals.slice(1, 2))), vec!["Opaque", "Null"]);
    let whole = Int64Array::from(vec![1, 2, 3, 4]);
    assert_eq!(read(Arc::new(whole.slice(1, 2))), vec!["Int(2)", "Int(3)"]);
}

#[test]
fn cells_of_a_type_without_an_array_are_read_too() {
    let odd = ArrayData::new_null(&DataType::Time32(TimeUnit::Microsecond), 2);
    let cells: Vec<String> = column_cells(&odd).iter().map(|c| format!("{c:?}")).collect();
    assert_eq!(cells, vec!["Null", "Null"]);
    let b = ArrowBatch::new(2, vec!["key".to_string()], vec![odd]).unwrap();
    let bytes = record_batches_to_json_bytes(&vec![b], "image_id").unwrap();
    assert!(String::from_utf8(bytes).unwrap().ends_with("[{\"key\":null},{\"key\":null}]}"));
}

fn arrow_batch(keys: Vec<i64>, axis: Vec<Option<&str>>) -> ArrowBatch {
    let n = keys.len();
    ArrowBatch::new(
        n,
        vec!["key".to_string(), "weather".to_string()],
        vec![Int64Array::from(keys).to_data(), StringArray::from(axis).to_data()],
    )
    .unwrap()
}

#[test]
fn tables_become_json_rows() {
    let bytes = record_batches_to_json_bytes(
        &vec![
            arrow_batch(vec![1], vec![Some("rain")]),
            arrow_batch(vec![2], vec![None]),
        ],
        "image_id",
    )
    .unwrap();
    assert_eq!(
        String::from_utf8(bytes).unwrap(),
        "{\"key_kind\":\"image_id\",\"manifest_version\":\"1\",\"rows\":[\
         {\"key\":1,\"weather\":\"rain\"},{\"key\":2,\"weather\":null}]}"
    );
    let odd = ArrowBatch::new(
        1,
        vec!["key".to_string(), "weather".to_string()],
        vec![
            StringArray::from(vec!["x"]).to_data(),
            StringArray::from(vec!["rain"]).to_data(),
        ],
    )
    .unwrap();
    let e = record_batches_to_json_bytes(&vec![arrow_batch(vec![1], vec![None]), odd], "image_id")
        .unwrap_err();
    assert!(e.head.contains("differing schemas"), "{}", e.head);
    assert!(ArrowBatch::new(2, vec!["key".to_string()], vec![Int64Array::from(vec![1]).to_data()]).is_none());
}

#[test]
fn truth_values_and_small_numbers_become_json() {
    let b = ArrowBatch::new(
        2,
        vec!["key".to_string(), "night".to_string()],
        vec![
            UInt8Array::from(vec![1, 2]).to_data(),
            BooleanArray::from(vec![Some(false), None]).to_data(),
        ],
    )
    .unwrap();
    let bytes = record_batches_to_json_bytes(&vec![b], "image_id").unwrap();
    assert_eq!(
        String::from_utf8(bytes).unwrap(),
        "{\"key_kind\":\"image_id\",\"manifest_version\":\"1\",\"rows\":[\
         {\"key\":1,\"night\":false},{\"key\":2,\"night\":null}]}"
    );
}

#[test]
fn columns_that_cannot_be_read_are_named_with_their_type() {
    let b = ArrowBatch::new(
        1,
        vec!["key".to_string()],
        vec![Float64Array::from(vec![0.5]).to_data()],
    )
    .unwrap();
    let e = record_batches_to_json_bytes(&vec![b], "image_id").unwrap_err();
    assert_eq!(
        e.head,
        "Arrow manifest column \"key\" has unsupported type Float64; \
         use Utf8 for axis values and Int64/Utf8 for the `key` column"
    );
    assert!(column_value(&Cell::Opaque, "a\"b", "Float64").unwrap_err().head.contains("\"a\\\"b\""));
}

#[test]
fn a_manifest_needs_a_key() {
    let plain = |name: &str| ManifestBatch {
        rows: 1,
        columns: vec![ManifestColumn {
            name: name.to_string(),
            like_first: true,
            type_text: "Int64".to_string(),
            cells: vec![Cell::Int(1)],
        }],
    };
    assert!(manifest_rows(&vec![plain("image")]).unwrap_err().head.contains("a column named `key`"));
    assert_eq!(manifest_rows(&vec![plain("key"), plain("key")]).unwrap().len(), 2);
    assert!(manifest_rows(&vec![]).unwrap().is_empty());
    assert!(!batches_share_schema(&plain("key"), &plain("image")));
}

#[test]
fn manifests_are_written_out() {
    let bytes = manifest_document(
        "file\"name",
        vec![vec![
            ("key".to_string(), Scalar::Text("a/b".to_string())),
            ("n".to_string(), Scalar::UInt(u64::MAX)),
            ("m".to_string(), Scalar::Int(-1)),
            ("b".to_string(), Scalar::Bool(true)),
            ("x".to_string(), Scalar::Null),
        ]],
    )
    .unwrap();
    assert_eq!(
        String::from_utf8(bytes).unwrap(),
        "{\"key_kind\":\"file\\\"name\",\"manifest_version\":\"1\",\"rows\":[\
         {\"b\":true,\"key\":\"a/b\",\"m\":-1,\"n\":18446744073709551615,\"x\":null}]}"
    );
}

#[test]
fn manifests_come_by_four_routes() {
    let m = |is_dict, is_path, has_stream, has_array| {
        manifest_route(ManifestObject { is_dict, is_path, has_stream, has_array })
    };
    assert_eq!(m(true, true, true, true).unwrap(), ManifestRoute::Dict);
    assert_eq!(m(false, true, false, true).unwrap(), ManifestRoute::Path);
    assert_eq!(m(false, false, true, true).unwrap(), ManifestRoute::Stream);
    assert_eq!(m(false, false, false, true).unwrap(), ManifestRoute::Array);
    assert!(m(false, false, false, false).is_err());
}

#[test]
fn only_json_files_are_read() {
    assert!(check_extension(Some("json")).is_ok());
    assert!(check_extension(Some("JSON")).is_ok());
    assert!(check_extension(Some("CSV")).unwrap_err().head.starts_with("manifest CSV ingest"));
    assert_eq!(
        check_extension(Some("Parquet")).unwrap_err().head,
        "unknown manifest file extension .parquet; expected .json"
    );
    assert_eq!(
        check_extension(Some("AMZ[@`{az\u{c4}\u{130}9")).unwrap_err().head,
        "unknown manifest file extension .amz[@`{az\u{c4}\u{130}9; expected .json"
    );
    for c in 'A'..='Z' {
        let e = check_extension(Some(&c.to_string())).unwrap_err();
        assert!(e.head.contains(&format!(" .{};", c.to_ascii_lowercase())), "{}", e.head);
    }
    assert!(check_extension(None).unwrap_err().head.contains("missing an extension"));
}

#[test]
fn manifests_are_spoken_of() {
    assert_eq!(
        unknown_key_warning("im\t1"),
        "manifest key \"im\\t1\" is not present in the dataset; skipping"
    );
    assert_eq!(manifest_refusal("no rows").head, "manifest resolution failed: no rows");
    assert_eq!(
        PartitionedReport::Summary.repr(1, 2, 3),
        "PartitionedSummary(overall_n_images=1, overall_n_detections=2, n_slices=3)"
    );
    assert_eq!(
        PartitionedReport::Lrp.repr(1, 2, 3),
        "PartitionedLrpReport(overall_n_images=1, overall_n_detections=2, n_slices=3)"
    );
}
