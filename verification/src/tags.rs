//! The tag records of the administration screens.

use vstd::prelude::*;

verus! {

/// A tag as the backend delivers it.
#[derive(Clone, Debug)]
pub struct TagStruct {
    pub id: u32,
    pub name: String,
    pub slug: String,
    pub description: String,
}

/// A tag as it is sent to the backend for creation.
#[derive(Clone, Debug)]
pub struct TagNewStruct {
    pub name: String,
    pub slug: String,
    pub description: String,
}

} // verus!
