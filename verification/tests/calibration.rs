use vernier_ffi::batch::wrap_batch;
use vernier_ffi::calibration::{
    calibrate_output, calibration_params, decode_cells_dict, decode_one_cell, get_required,
    per_class_calibration_to_arrow, reliability_to_arrow, Aggregation, Binning,
    CalibrationSummary, CellDict, CellObject, CellsDict, CellsList, ConfidenceKind, EvalCells,
    PerClassTable, PerImageEval, ReliabilityTable,
};
use vernier_ffi::config::ParityMode;
use vernier_ffi::failure::Failure;

fn all_bits(v: &[f64]) -> Vec<u64> {
    v.iter().map(|x| x.to_bits()).collect()
}

/// Three bins, as three scores with the upper two matched give them.
fn three_bins() -> ReliabilityTable {
    ReliabilityTable {
        bin_id: vec![0, 1, 2],
        score_lo: all_bits(&[0.1, 0.5, 0.9]),
        score_hi: all_bits(&[0.1, 0.5, 0.9]),
        mean_score: all_bits(&[0.1, 0.5, 0.9]),
        accuracy: all_bits(&[0.0, 1.0, 1.0]),
        count: vec![1, 1, 1],
        gap: all_bits(&[0.1, 0.5, 0.1]),
        ci_lo: all_bits(&[0.0, 0.2, 0.2]),
        ci_hi: all_bits(&[0.8, 1.0, 1.0]),
    }
}

fn summary(reliability: ReliabilityTable, bins: usize) -> CalibrationSummary {
    CalibrationSummary {
        ece: f64::NAN.to_bits(),
        mce: f64::NAN.to_bits(),
        n_detections: 0,
        effective_n_bins: bins,
        reliability,
        per_class: None,
    }
}

#[test]
fn reliability_record_batch_columns_and_metadata() {
    let summary = summary(three_bins(), 3);
    let batch = wrap_batch(reliability_to_arrow(&summary).ok().unwrap());
    let names: Vec<&str> = batch.schema.fields().iter().map(|f| f.name().as_str()).collect();
    assert_eq!(
        names,
        vec![
            "bin_id",
            "score_lo",
            "score_hi",
            "mean_score",
            "accuracy",
            "count",
            "gap",
            "ci_lo",
            "ci_hi",
        ]
    );
    assert_eq!(
        batch.schema.metadata().get("vernier.schema_version").map(String::as_str),
        Some("1")
    );
    assert_eq!(
        batch.schema.metadata().get("vernier.table").map(String::as_str),
        Some("calibration_reliability")
    );
    assert_eq!(batch.data.len(), summary.effective_n_bins);
}

#[test]
fn per_class_calibration_record_batch_columns_and_metadata() {
    let table = PerClassTable {
        class_id: vec![0, 3, 7],
        ece: all_bits(&[0.1, 0.2, 0.05]),
        mce: all_bits(&[0.3, 0.4, 0.07]),
        n: vec![10, 20, 5],
    };
    let batch = wrap_batch(per_class_calibration_to_arrow(&table).ok().unwrap());
    let names: Vec<&str> = batch.schema.fields().iter().map(|f| f.name().as_str()).collect();
    assert_eq!(names, vec!["class_id", "ece", "mce", "n"]);
    assert_eq!(
        batch.schema.metadata().get("vernier.table").map(String::as_str),
        Some("calibration_per_class")
    );
    assert_eq!(batch.data.len(), 3);
}

#[test]
fn reliability_empty_summary_yields_empty_batch() {
    let empty = ReliabilityTable {
        bin_id: vec![],
        score_lo: vec![],
        score_hi: vec![],
        mean_score: vec![],
        accuracy: vec![],
        count: vec![],
        gap: vec![],
        ci_lo: vec![],
        ci_hi: vec![],
    };
    let batch = wrap_batch(reliability_to_arrow(&summary(empty, 0)).ok().unwrap());
    assert_eq!(batch.data.len(), 0);
    assert_eq!(batch.schema.fields().len(), 9);
}

#[test]
fn reliability_columns_handle_nan_count_zero() {
    let table = ReliabilityTable {
        bin_id: vec![0, 1],
        score_lo: all_bits(&[0.0, 0.5]),
        score_hi: all_bits(&[0.5, 1.0]),
        mean_score: all_bits(&[f64::NAN, 0.75]),
        accuracy: all_bits(&[f64::NAN, 1.0]),
        count: vec![0, 2],
        gap: all_bits(&[f64::NAN, 0.25]),
        ci_lo: all_bits(&[f64::NAN, 0.5]),
        ci_hi: all_bits(&[f64::NAN, 0.95]),
    };
    let batch = wrap_batch(reliability_to_arrow(&summary(table, 2)).ok().unwrap());
    assert_eq!(batch.data.len(), 2);
}

#[test]
fn columns_of_two_lengths_are_refused() {
    let mut table = three_bins();
    table.count.pop();
    assert!(reliability_to_arrow(&summary(table, 3)).is_err());
}

#[test]
fn a_summary_goes_out_with_its_tables() {
    let mut s = summary(three_bins(), 3);
    s.n_detections = 3;
    s.per_class = Some(PerClassTable {
        class_id: vec![4],
        ece: all_bits(&[0.5]),
        mce: all_bits(&[0.5]),
        n: vec![3],
    });
    let out = calibrate_output(&s).ok().unwrap();
    assert_eq!(out.n_detections, 3);
    assert_eq!(out.effective_n_bins, 3);
    assert_eq!(out.reliability.data.len(), 3);
    assert_eq!(out.per_class.unwrap().data.len(), 1);
}

#[test]
fn parameters_are_read_from_words() {
    let p = calibration_params(2, 15, "quantile", 0, "wilson", true, "macro").unwrap();
    assert_eq!(p.binning, Binning::Quantile);
    assert_eq!(p.confidence, ConfidenceKind::Wilson);
    assert_eq!(p.per_class_aggregation, Aggregation::Macro);
    assert!(calibration_params(2, 15, "sideways", 0, "wilson", true, "macro").is_err());
    assert!(calibration_params(2, 15, "quantile", 0, "guess", true, "macro").is_err());
    assert!(calibration_params(2, 15, "quantile", 0, "wilson", true, "mean").is_err());
}

fn cell_dict(rows: usize, width: usize) -> CellDict {
    CellDict {
        dt_scores: Some(Ok(all_bits(&vec![0.5; width]))),
        dt_matched: Some(Ok(vec![vec![true; width]; rows])),
        dt_ignore: Some(Ok(vec![vec![false; width]; rows])),
    }
}

#[test]
fn cells_are_rectangular() {
    let cell = decode_one_cell(cell_dict(2, 3), 2, 0).unwrap();
    assert_eq!(cell.dt_matched, vec![vec![true; 3]; 2]);
    assert_eq!(
        decode_one_cell(cell_dict(1, 3), 2, 4).unwrap_err().head,
        "from_python_cells: cells[4].dt_matched outer len 1 != n_iou_thresholds 2"
    );
    let mut ragged = cell_dict(2, 3);
    ragged.dt_ignore = Some(Ok(vec![vec![false; 3], vec![false; 2]]));
    assert!(decode_one_cell(ragged, 2, 0).is_err());
}

fn cells_dict(cells: Vec<CellObject>) -> CellsDict {
    CellsDict {
        n_categories: Some(Ok(1)),
        n_area_ranges: Some(Ok(2)),
        n_images: Some(Ok(1)),
        iou_thresholds: Some(Ok(all_bits(&[0.5, 0.75]))),
        parity_mode: Some(Ok("strict".to_string())),
        cells: Some(Ok(CellsList::List(cells))),
    }
}

#[test]
fn dicts_of_cells_are_decoded() {
    let cells = decode_cells_dict(Some(cells_dict(vec![
        CellObject::Nothing,
        CellObject::Dict(cell_dict(2, 1)),
    ])))
    .unwrap();
    assert_eq!(cells.parity_mode, ParityMode::Strict);
    assert_eq!(
        cells.repr(),
        "EvalCells(n_categories=1, n_area_ranges=2, n_cells=2, populated=1)"
    );
    let e = decode_cells_dict(Some(cells_dict(vec![CellObject::Nothing]))).unwrap_err();
    assert_eq!(
        e.head,
        "from_python_cells: cells len 1 != n_categories(1) * n_area_ranges(2) * n_images(1) = 2"
    );
    assert!(decode_cells_dict(None).is_err());
    let missing: Option<Result<u8, Failure>> = None;
    assert_eq!(
        get_required(missing, "n_images").unwrap_err().head,
        "from_python_cells: missing key \"n_images\""
    );
}

#[test]
fn an_overlap_is_looked_up_among_the_thresholds() {
    let none: Vec<Option<PerImageEval>> = vec![];
    let cells = EvalCells::new(none, 0, 0, all_bits(&[0.5, 0.75]), ParityMode::Corrected);
    assert_eq!(cells.iou_to_index(0.75f64.to_bits(), &vec![false, true]).unwrap(), 1);
    let e = cells.iou_to_index(0.6f64.to_bits(), &vec![false, false]).unwrap_err();
    assert_eq!(e.listed, Some(all_bits(&[0.5, 0.75])));
    let e = cells.iou_to_index(f64::NAN.to_bits(), &vec![true, true]).unwrap_err();
    assert_eq!(e.head, "iou must be finite, got ");
}
