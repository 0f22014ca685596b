//! Settings of the embedded time-series store.
use vstd::prelude::*;

verus! {

/// Settings of the embedded time-series store (the data directory is a path
/// text).
#[derive(Debug, Clone)]
pub struct TsinkConfig {
    pub data_path: String,
    pub retention_days: u32,
    pub memory_limit_mb: usize,
    pub worker_threads: usize,
    pub batch_size: usize,
    pub flush_interval_secs: u64,
    pub compaction_interval_secs: u64,
}

impl Default for TsinkConfig {
    /// `./tsink_data`, 30 days kept, 512 MB, 2 workers, batches of 500,
    /// flushed every 10 s, compacted every 5 min.
    fn default() -> (c: Self)
        ensures
            c.data_path@ == "./tsink_data"@,
            c.retention_days == 30,
            c.memory_limit_mb == 512,
            c.worker_threads == 2,
            c.batch_size == 500,
            c.flush_interval_secs == 10,
            c.compaction_interval_secs == 300,
    {
        TsinkConfig {
            data_path: String::from_str("./tsink_data"),
            retention_days: 30,
            memory_limit_mb: 512,
            worker_threads: 2,
            batch_size: 500,
            flush_interval_secs: 10,
            compaction_interval_secs: 300,
        }
    }
}

} // verus!
