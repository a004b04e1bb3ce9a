//! The category record, as the resource layer stores and serves it.

use vstd::prelude::*;

verus! {

/// One challenge category.
#[derive(Debug, Clone)]
pub struct Model {
    pub id: i64,
    pub name: String,
    pub icon: String,
    pub description: Option<String>,
    pub color: String,
    pub created_at: i64,
    pub updated_at: i64,
}

} // verus!
