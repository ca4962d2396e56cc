//! The configuration shared, read-only, by every task.
use vstd::prelude::*;
use crate::fetch::{start_spec, FetchAction, FetchMachine};
use crate::target::DownloadTarget;

verus! {

#[derive(Clone, Debug)]
pub struct Config {
    /// Root under which targets are materialized and scanned for orphans.
    pub download_directory: String,
    /// Number of workers in the pool.
    pub download_workers: usize,
    /// Attempts allowed for one fetch.
    pub max_download_retries: u32,
    /// Backoff after the first failed attempt, doubled after each further one.
    pub retry_backoff_ms: u64,
    /// Time allowed for streaming one attempt's body.
    pub download_timeout_secs: u64,
    /// Period of the recurring orphan scan.
    pub stuck_recovery_interval_secs: u64,
    /// Owner id given to created artifacts under elevated privileges.
    pub uid: u32,
    /// Whether the process runs with elevated privileges.
    pub privileged: bool,
}

impl Config {
    /// Begins the fetch of a file target under this configuration.
    pub fn start_fetch(&self, target: &DownloadTarget) -> (r: (FetchMachine, FetchAction))
        ensures
            r == start_spec(
                self.max_download_retries,
                self.retry_backoff_ms,
                self.privileged,
                self.uid,
                target.from is Some,
            ),
            r.0.wf(),
    {
        FetchMachine::start(
            self.max_download_retries,
            self.retry_backoff_ms,
            self.privileged,
            self.uid,
            target.from.is_some(),
        )
    }
}

} // verus!
