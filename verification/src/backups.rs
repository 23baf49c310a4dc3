use vstd::prelude::*;

use crate::pagination::{page, page_number, page_size, page_size_number};
use crate::text::{non_empty, non_empty_spec, opt_view};

verus! {

/// The query of the backup list.
#[derive(Debug)]
pub struct BackupQueryParams {
    pub page: Option<u64>,
    pub page_size: Option<u64>,
    pub status: Option<String>,
    pub trigger_type: Option<String>,
}

impl BackupQueryParams {
    pub fn page(&self) -> (p: u64)
        ensures
            p == page_number(self.page),
    {
        page(self.page)
    }

    pub fn page_size(&self) -> (s: u64)
        ensures
            s == page_size_number(self.page_size),
    {
        page_size(self.page_size)
    }

    /// The status and trigger filters of this query, each left out when it
    /// is absent or empty.
    pub fn filters(&self) -> (f: (Option<String>, Option<String>))
        ensures
            opt_view(f.0) == non_empty_spec(opt_view(self.status)),
            opt_view(f.1) == non_empty_spec(opt_view(self.trigger_type)),
    {
        (non_empty(&self.status), non_empty(&self.trigger_type))
    }
}

/// A database backup as the API shows it.
#[derive(Debug)]
pub struct BackupRecord {
    pub id: i32,
    pub filename: String,
    pub storage_path: String,
    pub size_bytes: i64,
    pub sha256: Option<String>,
    pub status: String,
    pub trigger_type: String,
    pub started_at: String,
    pub finished_at: Option<String>,
    pub duration_ms: Option<i32>,
    pub delivery_targets: Option<String>,
    pub delivery_status: Option<String>,
    pub error_message: Option<String>,
    pub created_by: Option<i32>,
    pub created_at: String,
    pub updated_at: String,
}

/// The phrase that confirms a restore.
#[derive(Debug)]
pub struct RestoreBackupParams {
    pub confirm_phrase: String,
}

/// A restore of a backup as the API shows it.
#[derive(Debug)]
pub struct RestoreRecord {
    pub id: i32,
    pub backup_id: i32,
    pub status: String,
    pub confirm_phrase: String,
    pub pre_restore_backup_id: Option<i32>,
    pub started_at: String,
    pub finished_at: Option<String>,
    pub duration_ms: Option<i32>,
    pub output: Option<String>,
    pub error_message: Option<String>,
    pub restored_by: Option<i32>,
    pub created_at: String,
    pub updated_at: String,
}

} // verus!
