//! The fetch/retry engine as a state machine.
//!
//! The runtime performs each [`FetchAction`] and reports its result as a
//! [`FetchEvent`]; the machine decides what comes next. Local failures
//! (creating the staging artifact, setting its owner, renaming it) end the
//! fetch at once; remote failures (connect, stream, timeout, size mismatch)
//! are retried after an exponential backoff until the retry limit is spent.
use vstd::prelude::*;

verus! {

/// Why a fetch failed.
#[derive(Clone, Copy, Debug, PartialEq, Eq, Structural)]
pub enum FetchError {
    /// The target has no source locator.
    MissingSource,
    /// The staging artifact could not be created.
    StagingCreate,
    /// The request could not be sent or connected.
    Connect,
    /// Reading the body or writing it to the staging artifact failed.
    Stream,
    /// The body was not received within the per-attempt timeout.
    TimedOut,
    /// The received byte count differs from the declared length.
    SizeMismatch { expected: u64, received: u64 },
    /// The owner of the staging artifact could not be set.
    SetOwner,
    /// The staging artifact could not be renamed into place.
    Rename,
    /// No attempt was made.
    Unknown,
}

/// What one transfer attempt came to.
#[derive(Clone, Copy, Debug, PartialEq, Eq, Structural)]
pub enum TransferOutcome {
    ConnectFailed,
    StreamFailed,
    TimedOut,
    /// The body was streamed to its end: `declared` is the length the
    /// response announced, if any; `received` the bytes written.
    Completed { declared: Option<u64>, received: u64 },
}

/// Whether an attempt counts as a success: a completed stream whose byte
/// count matches the declared length, where one was declared.
pub open spec fn verdict_spec(outcome: TransferOutcome) -> Result<(), FetchError> {
    match outcome {
        TransferOutcome::ConnectFailed => Err(FetchError::Connect),
        TransferOutcome::StreamFailed => Err(FetchError::Stream),
        TransferOutcome::TimedOut => Err(FetchError::TimedOut),
        TransferOutcome::Completed { declared, received } => match declared {
            Some(expected) => if expected == received {
                Ok(())
            } else {
                Err(FetchError::SizeMismatch { expected, received })
            },
            None => Ok(()),
        },
    }
}

/// Checks an attempt's outcome, including the integrity of its length.
pub fn transfer_verdict(outcome: TransferOutcome) -> (r: Result<(), FetchError>)
    ensures
        r == verdict_spec(outcome),
{
    match outcome {
        TransferOutcome::ConnectFailed => Err(FetchError::Connect),
        TransferOutcome::StreamFailed => Err(FetchError::Stream),
        TransferOutcome::TimedOut => Err(FetchError::TimedOut),
        TransferOutcome::Completed { declared, received } => match declared {
            Some(expected) => if expected == received {
                Ok(())
            } else {
                Err(FetchError::SizeMismatch { expected, received })
            },
            None => Ok(()),
        },
    }
}

/// Two to the power `n`.
pub open spec fn exp2(n: nat) -> nat
    decreases n,
{
    if n == 0 {
        1
    } else {
        2 * exp2((n - 1) as nat)
    }
}

/// The delay before the attempt after attempt `attempt` (counted from 1):
/// `base * 2^(attempt - 1)` milliseconds, held at `u64::MAX` where it would
/// not fit.
pub open spec fn backoff_spec(base: u64, attempt: u32) -> u64 {
    let d = base * exp2((attempt - 1) as nat);
    if d > u64::MAX {
        u64::MAX
    } else {
        d as u64
    }
}

/// The backoff delay in milliseconds after a failed attempt.
pub fn backoff_ms(base: u64, attempt: u32) -> (r: u64)
    requires
        attempt >= 1,
    ensures
        r == backoff_spec(base, attempt),
{
    let mut d: u64 = base;
    let mut i: u32 = 1;
    assert(base * exp2(0) == base) by (nonlinear_arith)
        requires exp2(0) == 1;
    while i < attempt
        invariant
            1 <= i <= attempt,
            d == backoff_spec(base, i),
        decreases attempt - i,
    {
        let ghost prev = base * exp2((i - 1) as nat);
        assert(exp2(i as nat) == 2 * exp2((i - 1) as nat));
        assert(base * exp2(i as nat) == 2 * prev) by (nonlinear_arith)
            requires
                exp2(i as nat) == 2 * exp2((i - 1) as nat),
                prev == base * exp2((i - 1) as nat);
        if d > u64::MAX / 2 {
            d = u64::MAX;
        } else {
            d = d * 2;
        }
        i = i + 1;
    }
    d
}

/// An event that the runtime reports to a fetch in progress.
#[derive(Clone, Copy, Debug, PartialEq, Eq, Structural)]
pub enum FetchEvent {
    StagingCreated,
    StagingFailed,
    Transferred(TransferOutcome),
    OwnerSet,
    OwnerFailed,
    Renamed,
    RenameFailed,
    BackoffElapsed,
}

/// What the runtime does next for a fetch.
#[derive(Clone, Copy, Debug, PartialEq, Eq, Structural)]
pub enum FetchAction {
    /// Create or truncate the staging artifact.
    CreateStaging,
    /// Send one GET to the source and stream the body into the staging
    /// artifact, within the per-attempt timeout.
    Transfer,
    /// Give the staging artifact to this owner id.
    SetOwner(u32),
    /// Rename the staging artifact to the destination.
    Commit,
    /// Sleep this many milliseconds.
    Sleep(u64),
    /// Delete the staging artifact, then report this failure.
    Abandon(FetchError),
    /// Report this failure, leaving the filesystem as it is.
    Fail(FetchError),
    /// Report success.
    Succeed,
}

/// Where a fetch stands.
#[derive(Clone, Copy, Debug, PartialEq, Eq, Structural)]
pub enum FetchPhase {
    Creating,
    Transferring,
    Owning,
    Committing,
    BackingOff,
    Finished,
}

/// The state of one fetch.
#[derive(Clone, Copy, Debug)]
pub struct FetchMachine {
    pub max_retries: u32,
    pub backoff_base_ms: u64,
    /// Whether the process runs with elevated privileges.
    pub privileged: bool,
    /// Owner id given to committed files under elevated privileges.
    pub owner_uid: u32,
    /// The current attempt, counted from 1.
    pub attempt: u32,
    pub phase: FetchPhase,
    /// The error of the latest failure.
    pub last_error: Option<FetchError>,
}

/// The event that a phase waits for.
pub open spec fn awaits_spec(phase: FetchPhase, event: FetchEvent) -> bool {
    match phase {
        FetchPhase::Creating => event is StagingCreated || event is StagingFailed,
        FetchPhase::Transferring => event is Transferred,
        FetchPhase::Owning => event is OwnerSet || event is OwnerFailed,
        FetchPhase::Committing => event is Renamed || event is RenameFailed,
        FetchPhase::BackingOff => event is BackoffElapsed,
        FetchPhase::Finished => false,
    }
}

/// A machine in phase `phase` with `last_error` replaced.
pub open spec fn moved(m: FetchMachine, phase: FetchPhase, err: Option<FetchError>) -> FetchMachine {
    FetchMachine { phase, last_error: err, ..m }
}

/// The step after a failed attempt: back off while attempts remain, else
/// delete the staging artifact and fail.
pub open spec fn after_failure(m: FetchMachine, e: FetchError) -> (FetchMachine, FetchAction) {
    if m.attempt < m.max_retries {
        (
            moved(m, FetchPhase::BackingOff, Some(e)),
            FetchAction::Sleep(backoff_spec(m.backoff_base_ms, m.attempt)),
        )
    } else {
        (moved(m, FetchPhase::Finished, Some(e)), FetchAction::Abandon(e))
    }
}

/// The transition of a fetch on an event it awaits.
pub open spec fn next_spec(m: FetchMachine, event: FetchEvent) -> (FetchMachine, FetchAction) {
    match event {
        FetchEvent::StagingCreated => (moved(m, FetchPhase::Transferring, m.last_error), FetchAction::Transfer),
        FetchEvent::StagingFailed => (
            moved(m, FetchPhase::Finished, Some(FetchError::StagingCreate)),
            FetchAction::Abandon(FetchError::StagingCreate),
        ),
        FetchEvent::Transferred(outcome) => match verdict_spec(outcome) {
            Ok(_) => if m.privileged {
                (moved(m, FetchPhase::Owning, m.last_error), FetchAction::SetOwner(m.owner_uid))
            } else {
                (moved(m, FetchPhase::Committing, m.last_error), FetchAction::Commit)
            },
            Err(e) => after_failure(m, e),
        },
        FetchEvent::OwnerSet => (moved(m, FetchPhase::Committing, m.last_error), FetchAction::Commit),
        FetchEvent::OwnerFailed => (
            moved(m, FetchPhase::Finished, Some(FetchError::SetOwner)),
            FetchAction::Fail(FetchError::SetOwner),
        ),
        FetchEvent::Renamed => (moved(m, FetchPhase::Finished, m.last_error), FetchAction::Succeed),
        FetchEvent::RenameFailed => (
            moved(m, FetchPhase::Finished, Some(FetchError::Rename)),
            FetchAction::Abandon(FetchError::Rename),
        ),
        FetchEvent::BackoffElapsed => (
            FetchMachine { attempt: (m.attempt + 1) as u32, phase: FetchPhase::Creating, ..m },
            FetchAction::CreateStaging,
        ),
    }
}

/// How a fetch begins.
pub open spec fn start_spec(
    max_retries: u32,
    backoff_base_ms: u64,
    privileged: bool,
    owner_uid: u32,
    has_source: bool,
) -> (FetchMachine, FetchAction) {
    let m = FetchMachine {
        max_retries,
        backoff_base_ms,
        privileged,
        owner_uid,
        attempt: 1,
        phase: FetchPhase::Creating,
        last_error: None,
    };
    if !has_source {
        (moved(m, FetchPhase::Finished, Some(FetchError::MissingSource)),
            FetchAction::Fail(FetchError::MissingSource))
    } else if max_retries == 0 {
        (moved(m, FetchPhase::Finished, None), FetchAction::Abandon(FetchError::Unknown))
    } else {
        (m, FetchAction::CreateStaging)
    }
}

impl FetchMachine {
    /// The machine's invariant: an unfinished fetch is within its attempts,
    /// and one that backs off has an attempt left.
    pub open spec fn wf(&self) -> bool {
        &&& self.phase != FetchPhase::Finished ==> 1 <= self.attempt <= self.max_retries
        &&& self.phase == FetchPhase::BackingOff ==> self.attempt < self.max_retries
    }

    /// Begins a fetch: fails at once without a source, gives up at once
    /// without any attempt allowed, and otherwise creates the staging artifact
    /// for attempt 1.
    pub fn start(
        max_retries: u32,
        backoff_base_ms: u64,
        privileged: bool,
        owner_uid: u32,
        has_source: bool,
    ) -> (r: (FetchMachine, FetchAction))
        ensures
            r == start_spec(max_retries, backoff_base_ms, privileged, owner_uid, has_source),
            r.0.wf(),
    {
        let m = FetchMachine {
            max_retries,
            backoff_base_ms,
            privileged,
            owner_uid,
            attempt: 1,
            phase: FetchPhase::Creating,
            last_error: None,
        };
        if !has_source {
            (FetchMachine { phase: FetchPhase::Finished, last_error: Some(FetchError::MissingSource), ..m },
                FetchAction::Fail(FetchError::MissingSource))
        } else if max_retries == 0 {
            (FetchMachine { phase: FetchPhase::Finished, ..m }, FetchAction::Abandon(FetchError::Unknown))
        } else {
            (m, FetchAction::CreateStaging)
        }
    }

    /// Whether the machine waits for `event`.
    pub fn awaits(&self, event: FetchEvent) -> (r: bool)
        ensures
            r == awaits_spec(self.phase, event),
    {
        match self.phase {
            FetchPhase::Creating => matches!(event, FetchEvent::StagingCreated | FetchEvent::StagingFailed),
            FetchPhase::Transferring => matches!(event, FetchEvent::Transferred(_)),
            FetchPhase::Owning => matches!(event, FetchEvent::OwnerSet | FetchEvent::OwnerFailed),
            FetchPhase::Committing => matches!(event, FetchEvent::Renamed | FetchEvent::RenameFailed),
            FetchPhase::BackingOff => matches!(event, FetchEvent::BackoffElapsed),
            FetchPhase::Finished => false,
        }
    }

    /// Takes the event reported for the last action and returns the next one.
    pub fn step(&mut self, event: FetchEvent) -> (r: FetchAction)
        requires
            old(self).wf(),
            awaits_spec(old(self).phase, event),
        ensures
            final(self).wf(),
            (*final(self), r) == next_spec(*old(self), event),
    {
        match event {
            FetchEvent::StagingCreated => {
                self.phase = FetchPhase::Transferring;
                FetchAction::Transfer
            },
            FetchEvent::StagingFailed => {
                self.phase = FetchPhase::Finished;
                self.last_error = Some(FetchError::StagingCreate);
                FetchAction::Abandon(FetchError::StagingCreate)
            },
            FetchEvent::Transferred(outcome) => match transfer_verdict(outcome) {
                Ok(_) => if self.privileged {
                    self.phase = FetchPhase::Owning;
                    FetchAction::SetOwner(self.owner_uid)
                } else {
                    self.phase = FetchPhase::Committing;
                    FetchAction::Commit
                },
                Err(e) => {
                    self.last_error = Some(e);
                    if self.attempt < self.max_retries {
                        self.phase = FetchPhase::BackingOff;
                        FetchAction::Sleep(backoff_ms(self.backoff_base_ms, self.attempt))
                    } else {
                        self.phase = FetchPhase::Finished;
                        FetchAction::Abandon(e)
                    }
                },
            },
            FetchEvent::OwnerSet => {
                self.phase = FetchPhase::Committing;
                FetchAction::Commit
            },
            FetchEvent::OwnerFailed => {
                self.phase = FetchPhase::Finished;
                self.last_error = Some(FetchError::SetOwner);
                FetchAction::Fail(FetchError::SetOwner)
            },
            FetchEvent::Renamed => {
                self.phase = FetchPhase::Finished;
                FetchAction::Succeed
            },
            FetchEvent::RenameFailed => {
                self.phase = FetchPhase::Finished;
                self.last_error = Some(FetchError::Rename);
                FetchAction::Abandon(FetchError::Rename)
            },
            FetchEvent::BackoffElapsed => {
                self.attempt = self.attempt + 1;
                self.phase = FetchPhase::Creating;
                FetchAction::CreateStaging
            },
        }
    }
}

/// Sum of the backoff delays after attempts `k` up to but not including `n`.
pub open spec fn total_backoff(base: u64, k: int, n: int) -> int
    decreases n - k,
{
    if k >= n {
        0
    } else {
        backoff_spec(base, k as u32) + total_backoff(base, k + 1, n)
    }
}

/// A fetch driven with the same remote outcome on every attempt, for at most
/// `fuel` attempts: the machine and action it ends with, the attempts made
/// and the milliseconds slept.
pub open spec fn run_repeating(m: FetchMachine, outcome: TransferOutcome, fuel: nat) -> (
    FetchMachine,
    FetchAction,
    nat,
    int,
)
    decreases fuel,
{
    if fuel == 0 {
        (m, FetchAction::CreateStaging, 0, 0)
    } else {
        let m1 = next_spec(m, FetchEvent::StagingCreated).0;
        let (m2, a) = next_spec(m1, FetchEvent::Transferred(outcome));
        match a {
            FetchAction::Sleep(d) => {
                let m3 = next_spec(m2, FetchEvent::BackoffElapsed).0;
                let r = run_repeating(m3, outcome, (fuel - 1) as nat);
                (r.0, r.1, r.2 + 1, r.3 + d)
            },
            _ => (m2, a, 1, 0),
        }
    }
}

proof fn lemma_run_failing_from(m: FetchMachine, outcome: TransferOutcome, fuel: nat)
    requires
        m.wf(),
        m.phase == FetchPhase::Creating,
        verdict_spec(outcome) is Err,
        fuel >= m.max_retries - m.attempt + 1,
    ensures
        ({
            let r = run_repeating(m, outcome, fuel);
            &&& r.0.phase == FetchPhase::Finished
            &&& r.1 == FetchAction::Abandon(verdict_spec(outcome)->Err_0)
            &&& r.2 == m.max_retries - m.attempt + 1
            &&& r.3 == total_backoff(m.backoff_base_ms, m.attempt as int, m.max_retries as int)
        }),
    decreases m.max_retries - m.attempt,
{
    let m1 = next_spec(m, FetchEvent::StagingCreated).0;
    let m2 = next_spec(m1, FetchEvent::Transferred(outcome)).0;
    if m.attempt < m.max_retries {
        let m3 = next_spec(m2, FetchEvent::BackoffElapsed).0;
        lemma_run_failing_from(m3, outcome, (fuel - 1) as nat);
    }
}

/// A source that fails on every attempt is tried exactly `max_retries`
/// times; between attempts the fetch sleeps `base * 2^(k - 1)` ms after each
/// attempt `k` but the last (sum `total_backoff`), and it ends by deleting
/// the staging artifact and reporting the last attempt's error.
pub proof fn lemma_retry_bound(
    max_retries: u32,
    backoff_base_ms: u64,
    privileged: bool,
    owner_uid: u32,
    outcome: TransferOutcome,
)
    requires
        max_retries >= 1,
        verdict_spec(outcome) is Err,
    ensures
        ({
            let (m, a) = start_spec(max_retries, backoff_base_ms, privileged, owner_uid, true);
            let r = run_repeating(m, outcome, max_retries as nat);
            &&& a == FetchAction::CreateStaging
            &&& r.0.phase == FetchPhase::Finished
            &&& r.1 == FetchAction::Abandon(verdict_spec(outcome)->Err_0)
            &&& r.2 == max_retries
            &&& r.3 == total_backoff(backoff_base_ms, 1, max_retries as int)
        }),
{
    let (m, a) = start_spec(max_retries, backoff_base_ms, privileged, owner_uid, true);
    lemma_run_failing_from(m, outcome, max_retries as nat);
}

/// Where no delay is held at `u64::MAX`, the delays after attempts `1` up to
/// `n - 1` add up to `base * (2^(n - 1) - 1)`.
pub proof fn lemma_total_backoff_closed(base: u64, n: int)
    requires
        1 <= n <= u32::MAX,
        base * exp2((n - 1) as nat) <= u64::MAX,
    ensures
        total_backoff(base, 1, n) == base * (exp2((n - 1) as nat) - 1),
{
    lemma_total_backoff_from(base, 1, n);
}

proof fn lemma_exp2_mono(a: nat, b: nat)
    requires
        a <= b,
    ensures
        exp2(a) <= exp2(b),
    decreases b - a,
{
    if a < b {
        lemma_exp2_mono(a, (b - 1) as nat);
    }
}

proof fn lemma_total_backoff_from(base: u64, k: int, n: int)
    requires
        1 <= k <= n <= u32::MAX,
        base * exp2((n - 1) as nat) <= u64::MAX,
    ensures
        total_backoff(base, k, n) == base * (exp2((n - 1) as nat) - exp2((k - 1) as nat)),
    decreases n - k,
{
    if k < n {
        lemma_total_backoff_from(base, k + 1, n);
        lemma_exp2_mono((k - 1) as nat, (n - 1) as nat);
        let e = exp2((k - 1) as nat);
        let f = exp2((n - 1) as nat);
        assert(exp2(k as nat) == 2 * e);
        assert(base * e <= base * f) by (nonlinear_arith)
            requires e <= f;
        assert(base * (f - 2 * e) + base * e == base * (f - e)) by (nonlinear_arith);
        assert(((k as u32) - 1) as nat == (k - 1) as nat);
        assert(backoff_spec(base, k as u32) == base * e);
    } else {
        assert(base * (exp2((n - 1) as nat) - exp2((k - 1) as nat)) == 0) by (nonlinear_arith)
            requires k == n;
    }
}

/// A fetch reports success only on the event that its staging artifact was
/// renamed onto the destination; a remote failure on the last allowed
/// attempt deletes the staging artifact before failure is reported; and no
/// step both commits and deletes.
pub proof fn lemma_atomic_commit(m: FetchMachine, event: FetchEvent)
    requires
        m.wf(),
        awaits_spec(m.phase, event),
    ensures
        next_spec(m, event).1 is Succeed <==> event is Renamed,
        next_spec(m, event).1 is Commit ==> (event is OwnerSet || event is Transferred),
        (event is Transferred && verdict_spec(event->Transferred_0) is Err && m.attempt
            >= m.max_retries) ==> next_spec(m, event).1 == FetchAction::Abandon(
            verdict_spec(event->Transferred_0)->Err_0,
        ),
{
}

/// Under elevated privileges a staging artifact is committed only right
/// after its owner was set to the configured id; without them no owner is
/// ever set.
pub proof fn lemma_owner_before_commit(m: FetchMachine, event: FetchEvent)
    requires
        m.wf(),
        awaits_spec(m.phase, event),
    ensures
        m.privileged && next_spec(m, event).1 is Commit ==> event is OwnerSet,
        m.privileged && event is OwnerSet ==> next_spec(m, event).1 is Commit,
        next_spec(m, event).1 is SetOwner ==> m.privileged && next_spec(m, event).1
            == FetchAction::SetOwner(m.owner_uid),
        next_spec(m, event).1 is SetOwner <==> (m.privileged && event is Transferred && verdict_spec(
            event->Transferred_0,
        ) is Ok),
{
}

} // verus!
