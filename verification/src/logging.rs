//! Where the launcher's log goes: `<log_dir>/app` (the appender adds a date
//! suffix per day), kept for seven days.
use vstd::prelude::*;

use crate::text::{join_path, join_path_exec};

verus! {

broadcast use vstd::string::group_string_axioms;

/// The log file's prefix.
pub const LOG_FILE_PREFIX: &'static str = "app";

/// How many days of logs are kept.
pub const LOG_RETENTION_DAYS: usize = 7;

/// How many days of logs are kept.
pub fn stale_log_threshold_days() -> (r: usize)
    ensures
        r == LOG_RETENTION_DAYS,
{
    LOG_RETENTION_DAYS
}

/// The current log file's path (without the date suffix) under `log_dir`.
pub fn current_log_file_path(log_dir: &str) -> (r: String)
    ensures
        r@ == join_path(log_dir@, "app"@),
{
    join_path_exec(log_dir, LOG_FILE_PREFIX)
}

} // verus!
