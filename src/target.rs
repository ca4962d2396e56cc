//! Targets to materialize and the status reported for each.
use vstd::prelude::*;

verus! {

/// What a target materializes into.
#[derive(Clone, Copy, Debug, PartialEq, Eq, Structural)]
pub enum TargetType {
    File,
    Directory,
}

/// A filesystem artifact requested by a producer.
///
/// A file target that is live needs a source locator; without one its fetch
/// fails at once.
#[derive(Clone, Debug)]
pub struct DownloadTarget {
    /// Source locator of a file's content.
    pub from: Option<String>,
    /// Destination path.
    pub to: String,
    pub target_type: TargetType,
    pub top_level: bool,
    /// Identifier of the transfer this target belongs to.
    pub transfer_hash: String,
}

/// Outcome reported on a request's response sink: no detail is kept.
#[derive(Clone, Copy, Debug, PartialEq, Eq, Structural)]
pub enum DownloadDoneStatus {
    Success,
    Failed,
}

} // verus!
