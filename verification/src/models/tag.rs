use vstd::prelude::*;

verus! {

/// A tag record from the `tags` table.
#[derive(Debug, Clone)]
pub struct Tag {
    pub id: String,
    pub name: String,
    pub color: Option<String>,
    pub created_at: Option<String>,
}

/// Request body for creating a tag.
#[derive(Debug, Clone)]
pub struct CreateTagRequest {
    pub name: String,
    pub color: Option<String>,
}

}
