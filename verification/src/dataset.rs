//! Datasets as they are described, and what is said of those that cannot be
//! loaded.

use crate::failure::{value_error, Failure, FailureView};
use crate::text::{i64_list_text, i64_text, int_text, list_text, nat_text, usize_text};
use vstd::prelude::*;

verus! {

/// What is wrong with a federated dataset.
#[derive(Debug)]
pub enum LvisFault {
    /// A category of an image is said to be two things at once.
    FederatedConflict { image_id: i64, category_id: i64, detail: String },
    /// Categories without a frequency.
    MissingFrequency { category_ids: Vec<i64> },
    /// Something else.
    Other { text: String },
}

/// The refusal of a federated dataset.
pub open spec fn lvis_refusal(f: LvisFault) -> FailureView {
    match f {
        LvisFault::FederatedConflict { image_id, category_id, detail } => value_error(
            "lvis federated conflict on image_id="@ + int_text(image_id as int)
                + ", category_id="@ + int_text(category_id as int) + ": "@ + detail@,
        ),
        LvisFault::MissingFrequency { category_ids } => value_error(
            "lvis dataset is missing `frequency` on "@ + nat_text(category_ids@.len())
                + " categories: "@ + list_text(category_ids@.map_values(|n: i64| n as int)),
        ),
        LvisFault::Other { text } => value_error(text@),
    }
}

/// The refusal of a federated dataset.
pub fn lvis_error_to_pyerr(f: LvisFault) -> (e: Failure)
    ensures
        e@ == lvis_refusal(f),
{
    match f {
        LvisFault::FederatedConflict { image_id, category_id, detail } => {
            let mut m = String::from_str("lvis federated conflict on image_id=");
            m.append(i64_text(image_id).as_str());
            m.append(", category_id=");
            m.append(i64_text(category_id).as_str());
            m.append(": ");
            m.append(detail.as_str());
            Failure::value_error(m)
        },
        LvisFault::MissingFrequency { category_ids } => {
            let mut m = String::from_str("lvis dataset is missing `frequency` on ");
            m.append(usize_text(category_ids.len()).as_str());
            m.append(" categories: ");
            m.append(i64_list_text(&category_ids).as_str());
            Failure::value_error(m)
        },
        LvisFault::Other { text } => Failure::value_error(text),
    }
}

/// A short description of a dataset.
pub fn dataset_repr(images: usize, annotations: usize, categories: usize, federated: bool) -> (s:
    String)
    ensures
        s@ == "CocoDataset(images="@ + nat_text(images as nat) + ", annotations="@ + nat_text(
            annotations as nat,
        ) + ", categories="@ + nat_text(categories as nat) + (if federated {
            ", federated=True"@
        } else {
            ""@
        }) + ")"@,
{
    let mut s = String::from_str("CocoDataset(images=");
    s.append(usize_text(images).as_str());
    s.append(", annotations=");
    s.append(usize_text(annotations).as_str());
    s.append(", categories=");
    s.append(usize_text(categories).as_str());
    proof {
        reveal_strlit("");
        assert(s@ + ""@ =~= s@);
    }
    if federated {
        s.append(", federated=True");
    }
    s.append(")");
    s
}

/// A federated dataset is refused as a wrong value, and a fault without a form
/// of its own is told in its own words.
pub proof fn law_federated_faults_are_wrong_values(f: LvisFault)
    ensures
        lvis_refusal(f).kind is ValueError,
        lvis_refusal(f).reals.len() == 0,
        f matches LvisFault::Other { text } ==> lvis_refusal(f).head == text@,
        f matches LvisFault::FederatedConflict { image_id, category_id, detail } ==> lvis_refusal(
            f,
        ).head == "lvis federated conflict on image_id="@ + int_text(image_id as int)
            + ", category_id="@ + int_text(category_id as int) + ": "@ + detail@,
{
}

} // verus!
