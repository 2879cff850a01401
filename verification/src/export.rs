//! The shapes of export jobs: what format, where to, which metrics.
//! The writers that perform the file I/O live outside the library.
use vstd::prelude::*;

verus! {

/// The on-disk text format of an export.
pub enum ExportFormat {
    CSV,
    JSON,
    JSONL,
}

impl Clone for ExportFormat {
    fn clone(&self) -> (res: Self)
        ensures
            res == *self,
    {
        match self {
            ExportFormat::CSV => ExportFormat::CSV,
            ExportFormat::JSON => ExportFormat::JSON,
            ExportFormat::JSONL => ExportFormat::JSONL,
        }
    }
}

/// One export job's settings.
pub struct ExportConfig {
    pub format: ExportFormat,
    pub file_path: String,
    pub metrics: Vec<String>,
}

/// One export request as the query API receives it.
pub struct ExportRequest {
    pub format: String,
    pub metrics: Vec<String>,
    pub start_time: Option<i64>,
    pub end_time: Option<i64>,
}

} // verus!
