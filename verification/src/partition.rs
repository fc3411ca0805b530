//! Evaluations by slices of the images: what is said of manifests, and the
//! tables of slices.

use crate::batch::{batch_columns, batch_metadata, exports, text_bytes, wrap_batch, ArrowRecordBatch,
    Batch};
use crate::failure::{value_error, Failure};
use crate::tables::{law_slice_tables_can_be_built, slices_instance_ap_columns, slices_panoptic_columns,
    slices_record_batch_instance_ap, slices_record_batch_panoptic, slices_record_batch_semantic,
    slices_semantic_columns, slices_stamp, InstanceSliceRow, PanopticSliceRow, SemanticSliceRow};
use crate::text::{debug_text, nat_text, quoted, u64_text, usize_text};
use vstd::prelude::*;

verus! {

/// The warning for a key of a manifest that no image has.
pub fn unknown_key_warning(key: &str) -> (w: String)
    ensures
        w@ == "manifest key "@ + debug_text(key@) + " is not present in the dataset; skipping"@,
{
    let mut w = String::from_str("manifest key ");
    w.append(quoted(key).as_str());
    w.append(" is not present in the dataset; skipping");
    w
}

/// The refusal of a manifest that cannot be resolved.
pub fn manifest_refusal(reason: &str) -> (e: Failure)
    ensures
        e@ == value_error("manifest resolution failed: "@ + reason@),
{
    let mut m = String::from_str("manifest resolution failed: ");
    m.append(reason);
    Failure::value_error(m)
}

/// A table of slices in the form in which it is exported, or why there is
/// none.
fn export_slices(built: Result<Batch, String>) -> (r: Result<ArrowRecordBatch, Failure>)
    ensures
        match (built, r) {
            (Ok(b), Ok(w)) => exports(w, batch_columns(b), batch_metadata(b)),
            (Err(reason), Err(e)) => e@ == value_error("arrow build failed: "@ + reason@),
            _ => false,
        },
{
    match built {
        Ok(b) => Ok(wrap_batch(b)),
        Err(reason) => {
            let mut m = String::from_str("arrow build failed: ");
            m.append(reason.as_str());
            Err(Failure::value_error(m))
        },
    }
}

/// Names of slices that fit into a column.
pub open spec fn names_fit(axes: Seq<String>, values: Seq<String>) -> bool {
    text_bytes(axes) <= i32::MAX && text_bytes(values) <= i32::MAX
}

/// The table of the slices of an instance evaluation.
pub fn slices_batch_instance_ap(rows: Vec<InstanceSliceRow>) -> (r: Result<
    ArrowRecordBatch,
    Failure,
>)
    requires
        names_fit(
            rows@.map_values(|row: InstanceSliceRow| row.axis),
            rows@.map_values(|row: InstanceSliceRow| row.value),
        ),
    ensures
        r matches Ok(w) && exports(w, slices_instance_ap_columns(rows@), slices_stamp("instance"@, "ap"@)),
{
    proof {
        law_slice_tables_can_be_built(rows@, Seq::empty(), Seq::empty());
    }
    export_slices(slices_record_batch_instance_ap(rows))
}

/// The table of the slices of a panoptic evaluation.
pub fn slices_batch_panoptic(rows: Vec<PanopticSliceRow>) -> (r: Result<ArrowRecordBatch, Failure>)
    requires
        names_fit(
            rows@.map_values(|row: PanopticSliceRow| row.axis),
            rows@.map_values(|row: PanopticSliceRow| row.value),
        ),
    ensures
        r matches Ok(w) && exports(w, slices_panoptic_columns(rows@), slices_stamp("panoptic"@, "pq"@)),
{
    proof {
        law_slice_tables_can_be_built(Seq::empty(), rows@, Seq::empty());
    }
    export_slices(slices_record_batch_panoptic(rows))
}

/// The table of the slices of a semantic evaluation.
pub fn slices_batch_semantic(rows: Vec<SemanticSliceRow>) -> (r: Result<ArrowRecordBatch, Failure>)
    requires
        names_fit(
            rows@.map_values(|row: SemanticSliceRow| row.axis),
            rows@.map_values(|row: SemanticSliceRow| row.value),
        ),
    ensures
        r matches Ok(w) && exports(w, slices_semantic_columns(rows@), slices_stamp("semantic"@, "miou"@)),
{
    proof {
        law_slice_tables_can_be_built(Seq::empty(), Seq::empty(), rows@);
    }
    export_slices(slices_record_batch_semantic(rows))
}

/// Which evaluation was partitioned.
#[derive(Clone, Copy, Debug, PartialEq, Eq, Structural)]
pub enum PartitionedReport {
    Summary,
    Lrp,
}

impl PartitionedReport {
    /// Its name.
    pub open spec fn name(self) -> Seq<char> {
        match self {
            PartitionedReport::Summary => "PartitionedSummary"@,
            PartitionedReport::Lrp => "PartitionedLrpReport"@,
        }
    }

    /// A short description of a partitioned evaluation.
    pub fn repr(self, overall_n_images: u64, overall_n_detections: u64, n_slices: usize) -> (s:
        String)
        ensures
            s@ == self.name() + "(overall_n_images="@ + nat_text(overall_n_images as nat)
                + ", overall_n_detections="@ + nat_text(overall_n_detections as nat)
                + ", n_slices="@ + nat_text(n_slices as nat) + ")"@,
    {
        let mut s = String::from_str(
            match self {
                PartitionedReport::Summary => "PartitionedSummary",
                PartitionedReport::Lrp => "PartitionedLrpReport",
            },
        );
        s.append("(overall_n_images=");
        s.append(u64_text(overall_n_images).as_str());
        s.append(", overall_n_detections=");
        s.append(u64_text(overall_n_detections).as_str());
        s.append(", n_slices=");
        s.append(usize_text(n_slices).as_str());
        s.append(")");
        s
    }
}

} // verus!
