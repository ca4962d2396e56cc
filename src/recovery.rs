//! Detecting staging artifacts left behind by an interrupted run.
use vstd::prelude::*;
use vstd::string::StringExecFns;
use crate::paths::{final_path_of, has_staging_suffix, strip_staging};
use crate::target::{DownloadTarget, TargetType};

verus! {

/// One path found under the download root, with whether a file exists at
/// the final path it names (meaningful only for a staging artifact).
#[derive(Clone, Debug)]
pub struct ScanEntry {
    pub path: String,
    pub final_exists: bool,
}

/// The transfer identifier given to recovered targets.
pub open spec fn recovery_id() -> Seq<char> {
    seq!['r', 'e', 'c', 'o', 'v', 'e', 'r', 'y']
}

/// An entry is an orphan: a staging artifact with no final file.
pub open spec fn is_orphan(path: Seq<char>, final_exists: bool) -> bool {
    has_staging_suffix(path) && !final_exists
}

/// `t` is the request synthesized for an orphan whose final path is
/// `final_path`: a non-top-level file target with no source.
pub open spec fn is_recovery_target(t: DownloadTarget, final_path: Seq<char>) -> bool {
    &&& t.from is None
    &&& t.to@ == final_path
    &&& t.target_type == TargetType::File
    &&& !t.top_level
    &&& t.transfer_hash@ == recovery_id()
}

/// The final paths of the orphans among `entries`, in order.
pub open spec fn orphan_finals(entries: Seq<ScanEntry>) -> Seq<Seq<char>>
    decreases entries.len(),
{
    if entries.len() == 0 {
        Seq::empty()
    } else {
        let e = entries.last();
        let rest = orphan_finals(entries.drop_last());
        if is_orphan(e.path@, e.final_exists) {
            rest.push(strip_staging(e.path@))
        } else {
            rest
        }
    }
}

/// The request to synthesize for one path, `None` unless it is an orphan.
pub fn recovery_target(path: &str, final_exists: bool) -> (r: Option<DownloadTarget>)
    ensures
        r is Some <==> is_orphan(path@, final_exists),
        r matches Some(t) ==> is_recovery_target(t, strip_staging(path@)),
{
    if final_exists {
        return None;
    }
    match final_path_of(path) {
        None => None,
        Some(to) => {
            proof {
                reveal_strlit("recovery");
            }
            let id = String::from_str("recovery");
            assert(id@ =~= recovery_id());
            Some(DownloadTarget {
                from: None,
                to,
                target_type: TargetType::File,
                top_level: false,
                transfer_hash: id,
            })
        },
    }
}

/// Synthesizes one recovery request for each orphaned staging artifact among
/// `entries`, in order, and none for any other entry.
pub fn recover_stuck_downloads(entries: &Vec<ScanEntry>) -> (r: Vec<DownloadTarget>)
    ensures
        r@.len() == orphan_finals(entries@).len(),
        forall|i: int| 0 <= i < r@.len() ==> is_recovery_target(#[trigger] r@[i], orphan_finals(entries@)[i]),
{
    let mut r: Vec<DownloadTarget> = Vec::new();
    let mut i: usize = 0;
    while i < entries.len()
        invariant
            i <= entries@.len(),
            r@.len() == orphan_finals(entries@.subrange(0, i as int)).len(),
            forall|k: int| 0 <= k < r@.len() ==> is_recovery_target(#[trigger] r@[k], orphan_finals(entries@.subrange(0, i as int))[k]),
        decreases entries@.len() - i,
    {
        let ghost before = entries@.subrange(0, i as int);
        assert(entries@.subrange(0, i + 1).drop_last() =~= before);
        let entry = &entries[i];
        match recovery_target(entry.path.as_str(), entry.final_exists) {
            Some(t) => r.push(t),
            None => {},
        }
        i = i + 1;
    }
    assert(entries@.subrange(0, i as int) =~= entries@);
    r
}

/// An orphaned staging artifact yields exactly one recovery request, for its
/// final path; any other entry yields none.
pub proof fn lemma_one_request_per_orphan(entries: Seq<ScanEntry>, e: ScanEntry)
    ensures
        is_orphan(e.path@, e.final_exists) ==> orphan_finals(entries.push(e)) == orphan_finals(
            entries,
        ).push(strip_staging(e.path@)),
        !is_orphan(e.path@, e.final_exists) ==> orphan_finals(entries.push(e)) == orphan_finals(
            entries,
        ),
{
    assert(entries.push(e).drop_last() =~= entries);
}

} // verus!
