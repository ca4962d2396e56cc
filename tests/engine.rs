use download_system::fetch::{
    backoff_ms, transfer_verdict, FetchAction, FetchError, FetchEvent, FetchMachine, FetchPhase,
    TransferOutcome,
};
use download_system::config::Config;
use download_system::paths::{final_path_of, staging_path};
use download_system::recovery::{recover_stuck_downloads, recovery_target, ScanEntry};
use download_system::resolve::{
    after_create_dir, fetch_result, plan_status, plan_target, status_of,
    TargetPlan,
};
use download_system::target::{DownloadDoneStatus, DownloadTarget, TargetType};
use download_system::worker::{Worker, WorkerAction, WorkerEvent, WorkerPhase};

fn file_target(to: &str, from: Option<&str>) -> DownloadTarget {
    DownloadTarget {
        from: from.map(|s| s.to_string()),
        to: to.to_string(),
        target_type: TargetType::File,
        top_level: true,
        transfer_hash: "abc".to_string(),
    }
}

fn config(max: u32, base: u64, privileged: bool) -> Config {
    Config {
        download_directory: "/data".to_string(),
        download_workers: 4,
        max_download_retries: max,
        retry_backoff_ms: base,
        download_timeout_secs: 30,
        stuck_recovery_interval_secs: 60,
        uid: 1000,
        privileged,
    }
}

/// Drives a fetch whose every attempt ends with `outcome`; returns the
/// attempts made, the total sleep and the final action.
fn run_repeating(m: &mut FetchMachine, first: FetchAction, outcome: TransferOutcome) -> (u32, u64, FetchAction) {
    let mut action = first;
    let mut attempts = 0u32;
    let mut slept = 0u64;
    loop {
        action = match action {
            FetchAction::CreateStaging => m.step(FetchEvent::StagingCreated),
            FetchAction::Transfer => {
                attempts += 1;
                m.step(FetchEvent::Transferred(outcome))
            }
            FetchAction::Sleep(ms) => {
                slept += ms;
                m.step(FetchEvent::BackoffElapsed)
            }
            FetchAction::SetOwner(_) => m.step(FetchEvent::OwnerSet),
            FetchAction::Commit => m.step(FetchEvent::Renamed),
            done => return (attempts, slept, done),
        };
    }
}

#[test]
fn existing_destination_is_left_alone() {
    let f = file_target("/data/a", Some("http://h/a"));
    let mut d = file_target("/data/dir", None);
    d.target_type = TargetType::Directory;
    assert_eq!(plan_target(&f, true), TargetPlan::AlreadyPresent);
    assert_eq!(plan_target(&d, true), TargetPlan::AlreadyPresent);
    assert_eq!(plan_status(TargetPlan::AlreadyPresent), Some(DownloadDoneStatus::Success));
    assert_eq!(plan_target(&f, false), TargetPlan::Fetch);
    assert_eq!(plan_target(&d, false), TargetPlan::CreateDirectory);
    assert_eq!(plan_status(TargetPlan::Fetch), None);
}

#[test]
fn persistent_failure_makes_three_attempts_and_sleeps_300_ms() {
    let (mut m, a) = config(3, 100, false).start_fetch(&file_target("/data/a", Some("http://h/a")));
    let (attempts, slept, last) = run_repeating(&mut m, a, TransferOutcome::ConnectFailed);
    assert_eq!(attempts, 3);
    assert_eq!(slept, 300);
    assert_eq!(last, FetchAction::Abandon(FetchError::Connect));
    assert_eq!(m.phase, FetchPhase::Finished);
    assert_eq!(fetch_result(last), Some(Err(FetchError::Connect)));
}

#[test]
fn short_body_is_a_failed_attempt() {
    let outcome = TransferOutcome::Completed { declared: Some(500), received: 480 };
    assert_eq!(
        transfer_verdict(outcome),
        Err(FetchError::SizeMismatch { expected: 500, received: 480 })
    );
    let (mut m, a) = config(2, 10, false).start_fetch(&file_target("/data/a", Some("http://h/a")));
    assert_eq!(a, FetchAction::CreateStaging);
    assert_eq!(m.step(FetchEvent::StagingCreated), FetchAction::Transfer);
    assert_eq!(m.step(FetchEvent::Transferred(outcome)), FetchAction::Sleep(10));
}

#[test]
fn verdicts_of_each_outcome() {
    assert_eq!(transfer_verdict(TransferOutcome::ConnectFailed), Err(FetchError::Connect));
    assert_eq!(transfer_verdict(TransferOutcome::StreamFailed), Err(FetchError::Stream));
    assert_eq!(transfer_verdict(TransferOutcome::TimedOut), Err(FetchError::TimedOut));
    assert_eq!(
        transfer_verdict(TransferOutcome::Completed { declared: Some(500), received: 500 }),
        Ok(())
    );
    assert_eq!(
        transfer_verdict(TransferOutcome::Completed { declared: None, received: 7 }),
        Ok(())
    );
}

#[test]
fn successful_fetch_commits_then_succeeds() {
    let (mut m, a) = config(3, 100, false).start_fetch(&file_target("/data/a", Some("http://h/a")));
    assert_eq!(a, FetchAction::CreateStaging);
    assert_eq!(m.step(FetchEvent::StagingCreated), FetchAction::Transfer);
    let done = TransferOutcome::Completed { declared: Some(5), received: 5 };
    assert_eq!(m.step(FetchEvent::Transferred(done)), FetchAction::Commit);
    assert_eq!(m.step(FetchEvent::Renamed), FetchAction::Succeed);
    assert_eq!(fetch_result(FetchAction::Succeed), Some(Ok(())));
    assert_eq!(status_of(Ok(())), DownloadDoneStatus::Success);
}

#[test]
fn retry_then_success_after_one_backoff() {
    let (mut m, a) = config(3, 100, false).start_fetch(&file_target("/data/a", Some("http://h/a")));
    assert_eq!(a, FetchAction::CreateStaging);
    m.step(FetchEvent::StagingCreated);
    assert_eq!(m.step(FetchEvent::Transferred(TransferOutcome::TimedOut)), FetchAction::Sleep(100));
    assert_eq!(m.last_error, Some(FetchError::TimedOut));
    assert_eq!(m.step(FetchEvent::BackoffElapsed), FetchAction::CreateStaging);
    assert_eq!(m.attempt, 2);
    m.step(FetchEvent::StagingCreated);
    let done = TransferOutcome::Completed { declared: None, received: 9 };
    assert_eq!(m.step(FetchEvent::Transferred(done)), FetchAction::Commit);
}

#[test]
fn missing_source_fails_without_any_attempt() {
    let (m, a) = config(3, 100, true).start_fetch(&file_target("/data/a", None));
    assert_eq!(a, FetchAction::Fail(FetchError::MissingSource));
    assert_eq!(m.phase, FetchPhase::Finished);
    assert_eq!(status_of(Err(FetchError::MissingSource)), DownloadDoneStatus::Failed);
}

#[test]
fn zero_retries_gives_up_at_once() {
    let (_, a) = config(0, 100, false).start_fetch(&file_target("/data/a", Some("http://h/a")));
    assert_eq!(a, FetchAction::Abandon(FetchError::Unknown));
}

#[test]
fn local_failures_are_not_retried() {
    let c = config(5, 100, true);
    let t = file_target("/data/a", Some("http://h/a"));
    let (mut m, _) = c.start_fetch(&t);
    assert_eq!(m.step(FetchEvent::StagingFailed), FetchAction::Abandon(FetchError::StagingCreate));

    let (mut m, _) = c.start_fetch(&t);
    m.step(FetchEvent::StagingCreated);
    let done = TransferOutcome::Completed { declared: None, received: 1 };
    assert_eq!(m.step(FetchEvent::Transferred(done)), FetchAction::SetOwner(1000));
    assert_eq!(m.step(FetchEvent::OwnerFailed), FetchAction::Fail(FetchError::SetOwner));

    let (mut m, _) = c.start_fetch(&t);
    m.step(FetchEvent::StagingCreated);
    m.step(FetchEvent::Transferred(done));
    assert_eq!(m.step(FetchEvent::OwnerSet), FetchAction::Commit);
    assert_eq!(m.step(FetchEvent::RenameFailed), FetchAction::Abandon(FetchError::Rename));
}

#[test]
fn stream_failure_on_last_attempt_abandons() {
    let (mut m, _) = config(1, 100, false).start_fetch(&file_target("/data/a", Some("http://h/a")));
    m.step(FetchEvent::StagingCreated);
    assert!(m.awaits(FetchEvent::Transferred(TransferOutcome::StreamFailed)));
    assert!(!m.awaits(FetchEvent::Renamed));
    assert_eq!(
        m.step(FetchEvent::Transferred(TransferOutcome::StreamFailed)),
        FetchAction::Abandon(FetchError::Stream)
    );
    assert!(!m.awaits(FetchEvent::BackoffElapsed));
}

#[test]
fn backoff_doubles_and_saturates() {
    assert_eq!(backoff_ms(100, 1), 100);
    assert_eq!(backoff_ms(100, 2), 200);
    assert_eq!(backoff_ms(100, 4), 800);
    assert_eq!(backoff_ms(0, 40), 0);
    assert_eq!(backoff_ms(1, 64), 1u64 << 63);
    assert_eq!(backoff_ms(1, 65), u64::MAX);
    assert_eq!(backoff_ms(u64::MAX, 2), u64::MAX);
}

#[test]
fn ownership_follows_privilege() {
    let t = file_target("/data/a", Some("http://h/a"));
    let done = TransferOutcome::Completed { declared: Some(3), received: 3 };
    let (mut m, _) = config(3, 100, true).start_fetch(&t);
    m.step(FetchEvent::StagingCreated);
    assert_eq!(m.step(FetchEvent::Transferred(done)), FetchAction::SetOwner(1000));
    let (mut m, _) = config(3, 100, false).start_fetch(&t);
    m.step(FetchEvent::StagingCreated);
    assert_eq!(m.step(FetchEvent::Transferred(done)), FetchAction::Commit);

    let made = after_create_dir(true, true, 1000);
    assert_eq!(made.set_owner, Some(1000));
    assert_eq!(made.status, DownloadDoneStatus::Success);
    let made = after_create_dir(true, false, 1000);
    assert_eq!(made.set_owner, None);
    assert_eq!(made.status, DownloadDoneStatus::Success);
    let failed = after_create_dir(false, true, 1000);
    assert_eq!(failed.set_owner, None);
    assert_eq!(failed.status, DownloadDoneStatus::Failed);
}

#[test]
fn staging_path_appends_suffix() {
    assert_eq!(staging_path("/data/a.bin"), "/data/a.bin.downloading");
    assert_eq!(staging_path(""), ".downloading");
}

#[test]
fn final_path_strips_one_suffix() {
    assert_eq!(final_path_of("/data/a.bin.downloading"), Some("/data/a.bin".to_string()));
    assert_eq!(
        final_path_of("/data/a.downloading.downloading"),
        Some("/data/a.downloading".to_string())
    );
    assert_eq!(final_path_of("/data/é.downloading"), Some("/data/é".to_string()));
    assert_eq!(final_path_of(".downloading"), Some("".to_string()));
    assert_eq!(final_path_of("/data/a.bin"), None);
    assert_eq!(final_path_of("downloading"), None);
    assert_eq!(final_path_of(""), None);
}

#[test]
fn orphan_yields_one_request() {
    let t = recovery_target("/data/a.downloading", false).unwrap();
    assert_eq!(t.to, "/data/a");
    assert_eq!(t.from, None);
    assert_eq!(t.target_type, TargetType::File);
    assert!(!t.top_level);
    assert_eq!(t.transfer_hash, "recovery");
    assert!(recovery_target("/data/a.downloading", true).is_none());
    assert!(recovery_target("/data/a", false).is_none());
}

#[test]
fn scan_recovers_only_orphans() {
    let entries = vec![
        ScanEntry { path: "/data/a.downloading".to_string(), final_exists: false },
        ScanEntry { path: "/data/b.downloading".to_string(), final_exists: true },
        ScanEntry { path: "/data/c".to_string(), final_exists: false },
        ScanEntry { path: "/data/d.downloading".to_string(), final_exists: false },
    ];
    let r = recover_stuck_downloads(&entries);
    assert_eq!(r.len(), 2);
    assert_eq!(r[0].to, "/data/a");
    assert_eq!(r[1].to, "/data/d");
    assert!(recover_stuck_downloads(&Vec::new()).is_empty());
    let nested = vec![ScanEntry {
        path: "/d/x.downloading.downloading".to_string(),
        final_exists: false,
    }];
    let r2 = recover_stuck_downloads(&nested);
    assert_eq!(r2.len(), 1);
    assert_eq!(r2[0].to, "/d/x.downloading");
    // a recovered target fails at once: it has no source
    let (_, a) = config(3, 100, false).start_fetch(&r[0]);
    assert_eq!(a, FetchAction::Fail(FetchError::MissingSource));
}

#[test]
fn worker_replies_once_per_request() {
    let (mut w, a) = Worker::start(7);
    assert_eq!(w.id, 7);
    assert_eq!(a, WorkerAction::Receive);
    for status in [DownloadDoneStatus::Success, DownloadDoneStatus::Failed] {
        assert_eq!(w.step(WorkerEvent::Received), WorkerAction::Resolve);
        assert_eq!(w.step(WorkerEvent::Resolved(status)), WorkerAction::Reply(status));
        assert!(!w.awaits(WorkerEvent::Received));
        assert_eq!(w.step(WorkerEvent::Replied), WorkerAction::Receive);
    }
    assert_eq!(w.step(WorkerEvent::QueueClosed), WorkerAction::Stop);
    assert_eq!(w.phase, WorkerPhase::Stopped);
    assert!(!w.awaits(WorkerEvent::Received));
}

#[test]
fn worker_stops_when_sink_is_gone() {
    let (mut w, _) = Worker::start(0);
    w.step(WorkerEvent::Received);
    w.step(WorkerEvent::Resolved(DownloadDoneStatus::Success));
    assert_eq!(w.step(WorkerEvent::SinkClosed), WorkerAction::Stop);
    assert_eq!(w.phase, WorkerPhase::Stopped);
}
