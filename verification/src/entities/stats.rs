//! Derived statistics: a cache recomputed from the raw events.

use crate::models::text_of;
use vstd::prelude::*;

verus! {

/// The aggregate for one zone and item name.
#[derive(Debug, Clone, PartialEq, Eq)]
pub struct Model {
    pub zone_id: i32,
    pub item_name: String,
    pub source_mob: Option<String>,
    /// How many events contributed.
    pub drop_count: i64,
    /// The sum of their quantities.
    pub total_quantity: i64,
}

/// What an aggregate holds, as mathematical values.
pub struct ModelView {
    pub zone_id: i32,
    pub item_name: Seq<char>,
    pub source_mob: Option<Seq<char>>,
    pub drop_count: int,
    pub total_quantity: int,
}

impl View for Model {
    type V = ModelView;

    open spec fn view(&self) -> ModelView {
        ModelView {
            zone_id: self.zone_id,
            item_name: self.item_name@,
            source_mob: text_of(self.source_mob),
            drop_count: self.drop_count as int,
            total_quantity: self.total_quantity as int,
        }
    }
}

} // verus!
