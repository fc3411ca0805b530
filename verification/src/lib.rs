//! Decision logic behind the vernier Python extension.

pub mod array_ingest;
pub mod background;
pub mod batch;
pub mod breakdown;
pub mod calibration;
pub mod collect;
pub mod config;
pub mod confusion;
pub mod dataset;
pub mod dlpack;
pub mod errors;
pub mod failure;
pub mod field_path;
pub mod float_bits;
pub mod gt_ingest;
pub mod ids;
pub mod label_maps;
pub mod manifest;
pub mod model;
pub mod obb;
pub mod panoptic;
pub mod panoptic_tables;
pub mod partition;
pub mod pipeline;
pub mod result_ingest;
pub mod semantic;
pub mod semantic_tables;
pub mod streaming;
pub mod tables;
pub mod text;
pub mod thread_sched;
pub mod threads;
