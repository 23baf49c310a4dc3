use vstd::prelude::*;

verus! {

/// A data scope as the API lists it.
#[derive(Debug)]
pub struct DataScopeRecord {
    pub id: i32,
    pub name: String,
    pub code: String,
    pub rule: Option<String>,
    pub description: Option<String>,
    pub created_at: String,
    pub updated_at: String,
}

} // verus!
