//! Verified core of a crowd-sourced item-drop tracker: input cleaning,
//! per-reporter rate limiting, batch validation, the submission protocol and
//! the derived drop statistics.

pub mod aggregate;
pub mod entities;
pub mod models;
pub mod rate_limit;
pub mod sanitize;
pub mod startup;
pub mod submit;
pub mod text;
pub mod validate;
