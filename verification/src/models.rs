//! Request and report records exchanged with clients.

use vstd::prelude::*;

verus! {

/// The view of an optional text field.
pub open spec fn text_of(field: Option<String>) -> Option<Seq<char>> {
    match field {
        Some(text) => Some(text@),
        None => None,
    }
}

/// One observed drop as a client reports it.
#[derive(Debug, Clone, PartialEq, Eq)]
pub struct DropSubmission {
    pub zone_id: i32,
    pub item_name: String,
    pub quantity: i32,
    pub is_hq: bool,
    pub user_hash: String,
    pub source_mob: Option<String>,
    pub item_id: i32,
    pub source_mob_id: Option<i32>,
}

/// What a [`DropSubmission`] holds, as mathematical values.
pub struct DropSubmissionView {
    pub zone_id: i32,
    pub item_name: Seq<char>,
    pub quantity: i32,
    pub is_hq: bool,
    pub user_hash: Seq<char>,
    pub source_mob: Option<Seq<char>>,
    pub item_id: i32,
    pub source_mob_id: Option<i32>,
}

impl View for DropSubmission {
    type V = DropSubmissionView;

    open spec fn view(&self) -> DropSubmissionView {
        DropSubmissionView {
            zone_id: self.zone_id,
            item_name: self.item_name@,
            quantity: self.quantity,
            is_hq: self.is_hq,
            user_hash: self.user_hash@,
            source_mob: text_of(self.source_mob),
            item_id: self.item_id,
            source_mob_id: self.source_mob_id,
        }
    }
}

/// The views of a batch of submissions, in order.
pub open spec fn submission_views(batch: Seq<DropSubmission>) -> Seq<DropSubmissionView> {
    batch.map_values(|s: DropSubmission| s@)
}

/// One line of the drop-rate report: how often a mob dropped an item,
/// against how often the mob was killed.
#[derive(Debug, Clone, PartialEq, Eq)]
pub struct DropRateDisplay {
    pub mob_name: String,
    pub item_name: String,
    pub total_drops: i64,
    pub total_kills: i64,
    /// The drop rate as a percentage in hundredths: `6000` is 60.00 %.
    pub drop_rate_hundredths: i128,
}

/// What a [`DropRateDisplay`] holds, as mathematical values.
pub struct DropRateDisplayView {
    pub mob_name: Seq<char>,
    pub item_name: Seq<char>,
    pub total_drops: int,
    pub total_kills: int,
    pub drop_rate_hundredths: int,
}

impl View for DropRateDisplay {
    type V = DropRateDisplayView;

    open spec fn view(&self) -> DropRateDisplayView {
        DropRateDisplayView {
            mob_name: self.mob_name@,
            item_name: self.item_name@,
            total_drops: self.total_drops as int,
            total_kills: self.total_kills as int,
            drop_rate_hundredths: self.drop_rate_hundredths as int,
        }
    }
}

} // verus!
