//! Deciding how a target is resolved, and the status it ends with.
use vstd::prelude::*;
use crate::fetch::{FetchAction, FetchError};
use crate::target::{DownloadDoneStatus, DownloadTarget, TargetType};

verus! {

/// The first decision on a target.
#[derive(Clone, Copy, Debug, PartialEq, Eq, Structural)]
pub enum TargetPlan {
    /// The destination exists: report success, touch nothing.
    AlreadyPresent,
    /// Create the directory, non-recursively.
    CreateDirectory,
    /// Run a fetch.
    Fetch,
}

pub open spec fn plan_spec(kind: TargetType, destination_exists: bool) -> TargetPlan {
    if destination_exists {
        TargetPlan::AlreadyPresent
    } else {
        match kind {
            TargetType::Directory => TargetPlan::CreateDirectory,
            TargetType::File => TargetPlan::Fetch,
        }
    }
}

/// Decides how to resolve a target, given whether its destination exists.
pub fn plan_target(target: &DownloadTarget, destination_exists: bool) -> (r: TargetPlan)
    ensures
        r == plan_spec(target.target_type, destination_exists),
{
    if destination_exists {
        TargetPlan::AlreadyPresent
    } else {
        match target.target_type {
            TargetType::Directory => TargetPlan::CreateDirectory,
            TargetType::File => TargetPlan::Fetch,
        }
    }
}

/// The status a plan reports by itself, before any work: `Some` only for a
/// destination that is already there.
pub fn plan_status(plan: TargetPlan) -> (r: Option<DownloadDoneStatus>)
    ensures
        r == (if plan == TargetPlan::AlreadyPresent {
            Some(DownloadDoneStatus::Success)
        } else {
            None::<DownloadDoneStatus>
        }),
{
    match plan {
        TargetPlan::AlreadyPresent => Some(DownloadDoneStatus::Success),
        _ => None,
    }
}

/// A target whose destination already exists, file or directory, is
/// reported a success with no work planned.
pub proof fn lemma_existing_destination_untouched(kind: TargetType)
    ensures
        plan_spec(kind, true) == TargetPlan::AlreadyPresent,
        plan_spec(kind, false) != TargetPlan::AlreadyPresent,
{
}

/// What follows a directory's creation.
#[derive(Clone, Copy, Debug, PartialEq, Eq, Structural)]
pub struct DirectoryOutcome {
    /// Give the new directory to this owner id first.
    pub set_owner: Option<u32>,
    /// The status to report.
    pub status: DownloadDoneStatus,
}

pub open spec fn after_create_spec(created: bool, privileged: bool, owner_uid: u32) -> DirectoryOutcome {
    DirectoryOutcome {
        set_owner: if created && privileged {
            Some(owner_uid)
        } else {
            None
        },
        status: if created {
            DownloadDoneStatus::Success
        } else {
            DownloadDoneStatus::Failed
        },
    }
}

/// After a directory was created, or failed to be: only a failed create is
/// a failure; under elevated privileges a new directory is given to the
/// configured owner, otherwise ownership is left alone.
pub fn after_create_dir(created: bool, privileged: bool, owner_uid: u32) -> (r: DirectoryOutcome)
    ensures
        r == after_create_spec(created, privileged, owner_uid),
{
    DirectoryOutcome {
        set_owner: if created && privileged {
            Some(owner_uid)
        } else {
            None
        },
        status: if created {
            DownloadDoneStatus::Success
        } else {
            DownloadDoneStatus::Failed
        },
    }
}

/// Under elevated privileges every created directory is given to the
/// configured owner; without them, or when nothing was created, its owner is
/// never set.
pub proof fn lemma_directory_ownership(created: bool, privileged: bool, owner_uid: u32)
    ensures
        created && privileged ==> after_create_spec(created, privileged, owner_uid).set_owner
            == Some(owner_uid),
        !(created && privileged) ==> after_create_spec(created, privileged, owner_uid).set_owner
            is None,
{
}

/// Collapses a fetch's result into the status sent back.
pub fn status_of(result: Result<(), FetchError>) -> (r: DownloadDoneStatus)
    ensures
        r == (if result is Ok {
            DownloadDoneStatus::Success
        } else {
            DownloadDoneStatus::Failed
        }),
{
    match result {
        Ok(_) => DownloadDoneStatus::Success,
        Err(_) => DownloadDoneStatus::Failed,
    }
}

/// The result a final fetch action reports, `None` for an action that does
/// not end the fetch.
pub fn fetch_result(action: FetchAction) -> (r: Option<Result<(), FetchError>>)
    ensures
        r == (match action {
            FetchAction::Succeed => Some(Ok(())),
            FetchAction::Fail(e) => Some(Err(e)),
            FetchAction::Abandon(e) => Some(Err(e)),
            _ => None::<Result<(), FetchError>>,
        }),
{
    match action {
        FetchAction::Succeed => Some(Ok(())),
        FetchAction::Fail(e) => Some(Err(e)),
        FetchAction::Abandon(e) => Some(Err(e)),
        _ => None,
    }
}

} // verus!
