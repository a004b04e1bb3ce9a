//! The request and response shapes of the category endpoints, and the
//! attachment metadata record. The web layer owns their wire encoding;
//! here they are plain values.

use vstd::prelude::*;

use crate::categories::Model;

verus! {

/// Query for one category or for all of them.
#[derive(Debug, Clone)]
pub struct GetRequest {
    pub id: Option<i64>,
}

/// The categories found, with the total row count.
#[derive(Debug, Clone)]
pub struct GetResponse {
    pub code: u16,
    pub data: Vec<Model>,
    pub total: u64,
}

/// Fields of a category to create.
#[derive(Debug)]
pub struct CreateRequest {
    pub name: String,
    pub color: String,
    pub description: Option<String>,
    pub icon: String,
}

/// Fields of a category to change; absent fields stay as they are.
#[derive(Debug)]
pub struct UpdateRequest {
    pub id: Option<i64>,
    pub name: Option<String>,
    pub description: Option<String>,
    pub icon: Option<String>,
    pub color: Option<String>,
}

/// The category as created.
#[derive(Debug, Clone)]
pub struct CreateResponse {
    pub code: u16,
    pub data: Model,
}

/// The category as updated.
#[derive(Debug, Clone)]
pub struct UpdateResponse {
    pub code: u16,
    pub data: Model,
}

/// Outcome of a deletion.
#[derive(Debug, Clone)]
pub struct DeleteResponse {
    pub code: u16,
}

/// Name and size of one stored attachment.
#[derive(Debug, Clone)]
pub struct Metadata {
    pub filename: String,
    pub size: u64,
}

} // verus!
