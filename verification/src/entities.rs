//! The stored records: raw drop events and the statistics derived from them.

pub mod drops;
pub mod stats;
