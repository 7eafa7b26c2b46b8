//! Per-item validation of a submitted batch.

use crate::entities::drops::{quantity_in_range, row_views, NewDrop, NewDropView, QUANTITY_CEILING};
use crate::models::{submission_views, DropSubmission, DropSubmissionView};
use crate::sanitize::{strip, Sanitizer};
use vstd::prelude::*;

verus! {

/// The cleaned form of an optional text field.
pub open spec fn strip_optional(field: Option<Seq<char>>) -> Option<Seq<char>> {
    match field {
        Some(text) => Some(strip(text)),
        None => None,
    }
}

/// The row that a submission becomes: names cleaned, everything else as
/// submitted.
pub open spec fn cleaned(s: DropSubmissionView) -> NewDropView {
    NewDropView {
        zone_id: s.zone_id,
        item_name: strip(s.item_name),
        quantity: s.quantity,
        is_hq: s.is_hq,
        reporter_hash: s.user_hash,
        source_mob: strip_optional(s.source_mob),
        item_id: s.item_id,
        source_mob_id: s.source_mob_id,
    }
}

/// Whether a submission survives validation.
pub open spec fn is_valid(s: DropSubmissionView) -> bool {
    quantity_in_range(s.quantity)
}

/// The rows that a batch yields: the submissions with a quantity in range,
/// in the order of the batch, each cleaned.
pub open spec fn accepted(batch: Seq<DropSubmissionView>) -> Seq<NewDropView> {
    batch.filter(|s: DropSubmissionView| is_valid(s)).map_values(|s: DropSubmissionView| cleaned(s))
}

/// Whether a quantity is positive and below the ceiling.
pub fn quantity_ok(quantity: i32) -> (ok: bool)
    ensures
        ok == quantity_in_range(quantity),
{
    quantity > 0 && quantity < QUANTITY_CEILING
}

/// Cleans one submission into a row.
pub fn clean(submission: &DropSubmission, sanitizer: &Sanitizer) -> (row: NewDrop)
    ensures
        row@ == cleaned(submission@),
{
    let item_name = sanitizer.sanitize(submission.item_name.as_str());
    let source_mob = match &submission.source_mob {
        Some(mob) => Some(sanitizer.sanitize(mob.as_str())),
        None => None,
    };
    NewDrop {
        zone_id: submission.zone_id,
        item_name,
        quantity: submission.quantity,
        is_hq: submission.is_hq,
        reporter_hash: submission.user_hash.clone(),
        source_mob,
        item_id: submission.item_id,
        source_mob_id: submission.source_mob_id,
    }
}

/// Drops the submissions whose quantity is out of range and cleans the
/// rest. Nothing is reported about the dropped ones.
pub fn validate(batch: &Vec<DropSubmission>, sanitizer: &Sanitizer) -> (rows: Vec<NewDrop>)
    ensures
        row_views(rows@) == accepted(submission_views(batch@)),
{
    let mut rows: Vec<NewDrop> = Vec::new();
    let mut i: usize = 0;
    proof {
        reveal(Seq::filter);
        assert(submission_views(batch@.take(0)) =~= Seq::empty());
        assert(row_views(rows@) =~= accepted(submission_views(batch@.take(0))));
    }
    while i < batch.len()
        invariant
            i <= batch.len(),
            row_views(rows@) == accepted(submission_views(batch@.take(i as int))),
        decreases batch.len() - i,
    {
        let submission = &batch[i];
        let ghost keep = |s: DropSubmissionView| is_valid(s);
        let ghost to_row = |s: DropSubmissionView| cleaned(s);
        let ghost seen = submission_views(batch@.take(i as int));
        proof {
            assert(batch@.take(i + 1) =~= batch@.take(i as int).push(batch@[i as int]));
            assert(submission_views(batch@.take(i + 1)) =~= seen.push(submission@));
            seen.lemma_filter_push(submission@, keep);
            seen.filter(keep).lemma_push_map_commute(to_row, submission@);
        }
        if quantity_ok(submission.quantity) {
            let row = clean(submission, sanitizer);
            let ghost before = rows@;
            rows.push(row);
            proof {
                assert(row_views(rows@) =~= row_views(before).push(row@));
            }
        }
        i += 1;
    }
    proof {
        assert(batch@.take(batch.len() as int) =~= batch@);
    }
    rows
}

/// Validation keeps at most as many rows as were submitted, and every row
/// it keeps has a quantity in range.
pub proof fn lemma_accepted_in_range(batch: Seq<DropSubmissionView>)
    ensures
        accepted(batch).len() <= batch.len(),
        forall|i: int|
            0 <= i < accepted(batch).len() ==> quantity_in_range(
                (#[trigger] accepted(batch)[i]).quantity,
            ),
{
    let keep = |s: DropSubmissionView| is_valid(s);
    batch.lemma_filter_len(keep);
    assert forall|i: int| 0 <= i < accepted(batch).len() implies quantity_in_range(
        (#[trigger] accepted(batch)[i]).quantity,
    ) by {
        batch.lemma_filter_pred(keep, i);
    }
}

} // verus!
