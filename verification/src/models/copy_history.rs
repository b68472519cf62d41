use vstd::prelude::*;

verus! {

/// A copy-history record from the `copy_history` table.
#[derive(Debug, Clone)]
pub struct CopyHistory {
    pub id: String,
    pub prompt_id: String,
    pub variant_id: Option<String>,
    pub copied_at: Option<String>,
    pub metadata: Option<String>,
}

}
