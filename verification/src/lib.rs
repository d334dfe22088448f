//! A verified engine for a sortable, filterable, paginated data table.
//!
//! The crate models the state behind an administration screen's record
//! tables: which column the rows are ordered by, which rows are selected
//! for a bulk action, which columns are visible, and which page of a
//! larger collection is shown. Every state transition is specified and
//! proved; rendering and the HTTP backend live outside the crate and talk
//! to it through plain values.

pub mod categories;
pub mod columns;
pub mod engine;
pub mod ids;
pub mod numbers;
pub mod pagination;
pub mod post_sort;
pub mod posts;
pub mod selection;
pub mod sort;
pub mod tags;
pub mod text;
