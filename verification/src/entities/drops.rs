//! Raw drop events: append-only, one per accepted submission.

use crate::models::text_of;
use vstd::prelude::*;

verus! {

/// Every stored quantity is positive and below this ceiling.
pub const QUANTITY_CEILING: i32 = 100;

/// Whether a quantity may be stored.
pub open spec fn quantity_in_range(quantity: i32) -> bool {
    0 < quantity < QUANTITY_CEILING
}

/// A drop event as stored.
#[derive(Debug, Clone, PartialEq, Eq)]
pub struct Model {
    /// Assigned by the store, increasing.
    pub id: i64,
    pub zone_id: i32,
    pub item_name: String,
    pub quantity: i32,
    pub is_hq: bool,
    pub reporter_hash: String,
    /// Assigned by the server: seconds since the Unix epoch, UTC.
    pub created_at: i64,
    pub source_mob: Option<String>,
    pub item_id: i32,
    pub source_mob_id: Option<i32>,
}

/// What a stored event holds, as mathematical values.
pub struct ModelView {
    pub id: i64,
    pub zone_id: i32,
    pub item_name: Seq<char>,
    pub quantity: i32,
    pub is_hq: bool,
    pub reporter_hash: Seq<char>,
    pub created_at: i64,
    pub source_mob: Option<Seq<char>>,
    pub item_id: i32,
    pub source_mob_id: Option<i32>,
}

impl View for Model {
    type V = ModelView;

    open spec fn view(&self) -> ModelView {
        ModelView {
            id: self.id,
            zone_id: self.zone_id,
            item_name: self.item_name@,
            quantity: self.quantity,
            is_hq: self.is_hq,
            reporter_hash: self.reporter_hash@,
            created_at: self.created_at,
            source_mob: text_of(self.source_mob),
            item_id: self.item_id,
            source_mob_id: self.source_mob_id,
        }
    }
}

/// The views of a list of stored events, in order.
pub open spec fn event_views(events: Seq<Model>) -> Seq<ModelView> {
    events.map_values(|e: Model| e@)
}

/// An accepted drop that is ready to be stored. The store assigns the
/// identifier and the server the creation time; neither is taken from the
/// client.
#[derive(Debug, Clone, PartialEq, Eq)]
pub struct NewDrop {
    pub zone_id: i32,
    pub item_name: String,
    pub quantity: i32,
    pub is_hq: bool,
    pub reporter_hash: String,
    pub source_mob: Option<String>,
    pub item_id: i32,
    pub source_mob_id: Option<i32>,
}

/// What a [`NewDrop`] holds, as mathematical values.
pub struct NewDropView {
    pub zone_id: i32,
    pub item_name: Seq<char>,
    pub quantity: i32,
    pub is_hq: bool,
    pub reporter_hash: Seq<char>,
    pub source_mob: Option<Seq<char>>,
    pub item_id: i32,
    pub source_mob_id: Option<i32>,
}

impl View for NewDrop {
    type V = NewDropView;

    open spec fn view(&self) -> NewDropView {
        NewDropView {
            zone_id: self.zone_id,
            item_name: self.item_name@,
            quantity: self.quantity,
            is_hq: self.is_hq,
            reporter_hash: self.reporter_hash@,
            source_mob: text_of(self.source_mob),
            item_id: self.item_id,
            source_mob_id: self.source_mob_id,
        }
    }
}

/// The views of a list of rows, in order.
pub open spec fn row_views(rows: Seq<NewDrop>) -> Seq<NewDropView> {
    rows.map_values(|r: NewDrop| r@)
}

} // verus!
