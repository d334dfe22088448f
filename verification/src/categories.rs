//! The category records of the administration screens.
//!
//! As with posts, the creation date travels as a Unix timestamp in
//! seconds; the table only compares and displays it.

use vstd::prelude::*;

verus! {

/// A category as the backend delivers it.
#[derive(Clone, Debug)]
pub struct CategoryStruct {
    pub id: u32,
    pub parent_id: Option<u32>,
    pub name: String,
    pub slug: String,
    pub description: Option<String>,
    pub date_created: i64,
}

/// A category as it is sent to the backend for creation.
#[derive(Clone, Debug)]
pub struct CategoryNewStruct {
    pub parent_id: Option<u32>,
    pub name: String,
    pub slug: String,
    pub description: String,
}

} // verus!
