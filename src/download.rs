use vstd::prelude::*;

verus! {

/// The model artifacts that the services need.
#[derive(Clone, Copy, Debug, PartialEq, Eq, Structural)]
pub enum ModelKind {
    /// The speech model, read by the backend.
    Speech,
    /// The language model, served by the daemon.
    Language,
}

/// How a request for an artifact is served.
#[derive(Clone, Copy, Debug, PartialEq, Eq, Structural)]
pub enum EnsurePlan {
    /// The artifact on disk is intact: no network access.
    UseExisting,
    /// A download of it is in flight: wait for that one.
    Join,
    /// Start the one download of it.
    Download,
}

#[derive(Clone, Copy, Debug, PartialEq, Eq, Structural)]
pub enum FailReason {
    Cancelled,
    Network,
    IntegrityMismatch,
}

#[derive(Clone, Copy, Debug, PartialEq, Eq, Structural)]
pub enum Phase {
    Downloading,
    Verifying,
    Complete,
    Failed(FailReason),
}

/// What must happen to the files of a download.
#[derive(Clone, Copy, Debug, PartialEq, Eq, Structural)]
pub enum FileAction {
    /// Move the verified temporary file to the final path.
    MoveIntoPlace,
    /// Delete the temporary file; the final path stays untouched.
    RemoveTemp,
    Nothing,
}

/// A progress event.
#[derive(Clone, Copy, Debug, PartialEq, Eq, Structural)]
pub struct DownloadProgress {
    pub artifact: ModelKind,
    pub transferred: u64,
    pub total: Option<u64>,
    pub percent: Option<u8>,
    pub phase: Phase,
}

/// One download of one artifact.
#[derive(Clone, Copy, Debug, PartialEq, Eq, Structural)]
pub struct DownloadTask {
    pub artifact: ModelKind,
    pub expected_size: Option<u64>,
    pub transferred: u64,
    pub last_reported: u64,
    pub phase: Phase,
}

/// An artifact on disk of `present` bytes (None: absent) passes the integrity
/// check: its size is the expected one, or, with none expected, it is not empty.
pub open spec fn spec_intact(present: Option<u64>, expected: Option<u64>) -> bool {
    match present {
        None => false,
        Some(n) => match expected {
            Some(e) => n == e,
            None => n > 0,
        },
    }
}

pub open spec fn spec_plan(in_flight: bool, intact: bool) -> EnsurePlan {
    if intact {
        EnsurePlan::UseExisting
    } else if in_flight {
        EnsurePlan::Join
    } else {
        EnsurePlan::Download
    }
}

pub open spec fn spec_percent(transferred: u64, total: Option<u64>) -> Option<u8> {
    match total {
        None => None,
        Some(t) => if t == 0 || transferred >= t {
            Some(100u8)
        } else {
            Some(((transferred * 100) / t as int) as u8)
        },
    }
}

pub open spec fn is_terminal(p: Phase) -> bool {
    p is Complete || p is Failed
}

/// The phase after verification of a file of `actual` bytes.
pub open spec fn spec_verified(t: DownloadTask, actual: u64) -> Phase {
    if !(t.phase is Verifying) {
        t.phase
    } else if t.expected_size is None || t.expected_size == Some(actual) {
        Phase::Complete
    } else {
        Phase::Failed(FailReason::IntegrityMismatch)
    }
}

pub open spec fn spec_verify_action(t: DownloadTask, actual: u64) -> FileAction {
    if !(t.phase is Verifying) {
        FileAction::Nothing
    } else if spec_verified(t, actual) is Complete {
        FileAction::MoveIntoPlace
    } else {
        FileAction::RemoveTemp
    }
}

/// Whether an artifact on disk passes the integrity check.
pub fn artifact_intact(present: Option<u64>, expected: Option<u64>) -> (r: bool)
    ensures
        r == spec_intact(present, expected),
{
    match present {
        None => false,
        Some(n) => match expected {
            Some(e) => n == e,
            None => n > 0,
        },
    }
}

/// Percentage of `total` transferred, capped at 100; unknown without a total.
pub fn percentage(transferred: u64, total: Option<u64>) -> (r: Option<u8>)
    ensures
        r == spec_percent(transferred, total),
{
    match total {
        None => None,
        Some(t) => if t == 0 || transferred >= t {
            Some(100u8)
        } else {
            let p: u128 = (transferred as u128) * 100 / (t as u128);
            proof {
                assert((transferred as int) * 100 < (t as int) * 100) by (nonlinear_arith)
                    requires transferred < t;
                assert(p < 100) by (nonlinear_arith)
                    requires p == (transferred as int) * 100 / (t as int), (transferred as int) * 100 < (t as int) * 100, t > 0;
            }
            Some(p as u8)
        },
    }
}

impl DownloadTask {
    /// Transferred bytes never fall behind the last report.
    pub open spec fn wf(&self) -> bool {
        self.last_reported <= self.transferred
    }

    pub fn new(artifact: ModelKind, expected_size: Option<u64>) -> (r: DownloadTask)
        ensures
            r.wf(),
            r == (DownloadTask {
                artifact,
                expected_size,
                transferred: 0,
                last_reported: 0,
                phase: Phase::Downloading,
            }),
    {
        DownloadTask { artifact, expected_size, transferred: 0, last_reported: 0, phase: Phase::Downloading }
    }

    /// The current progress of the task.
    pub fn progress(&self) -> (r: DownloadProgress)
        ensures
            r == (DownloadProgress {
                artifact: self.artifact,
                transferred: self.transferred,
                total: self.expected_size,
                percent: spec_percent(self.transferred, self.expected_size),
                phase: self.phase,
            }),
    {
        DownloadProgress {
            artifact: self.artifact,
            transferred: self.transferred,
            total: self.expected_size,
            percent: percentage(self.transferred, self.expected_size),
            phase: self.phase,
        }
    }

    /// Counts `n` more bytes received. An event is emitted only once `threshold`
    /// bytes have come since the last one, or when the expected size is reached,
    /// so events are rate-bounded and their byte counts never decrease.
    /// A task that is not downloading is left as it is.
    pub fn record_chunk(&mut self, n: u64, threshold: u64) -> (r: Option<DownloadProgress>)
        requires
            old(self).wf(),
            old(self).transferred + n <= u64::MAX,
        ensures
            final(self).wf(),
            final(self).artifact == old(self).artifact,
            final(self).expected_size == old(self).expected_size,
            final(self).phase == old(self).phase,
            !(old(self).phase is Downloading) ==> *final(self) == *old(self) && r is None,
            old(self).phase is Downloading ==> final(self).transferred == old(self).transferred + n,
            old(self).phase is Downloading ==> (r is Some <==> (
                final(self).transferred - old(self).last_reported >= threshold
                    || old(self).expected_size == Some(final(self).transferred))),
            r is Some ==> final(self).last_reported == final(self).transferred
                && r.unwrap().transferred == final(self).transferred
                && r.unwrap().transferred >= old(self).last_reported
                && r.unwrap() == final(self).progress_spec(),
            r is None ==> final(self).last_reported == old(self).last_reported,
    {
        if !matches!(self.phase, Phase::Downloading) {
            return None;
        }
        self.transferred = self.transferred + n;
        let due = self.transferred - self.last_reported >= threshold
            || self.expected_size == Some(self.transferred);
        if due {
            self.last_reported = self.transferred;
            Some(self.progress())
        } else {
            None
        }
    }

    pub open spec fn progress_spec(&self) -> DownloadProgress {
        DownloadProgress {
            artifact: self.artifact,
            transferred: self.transferred,
            total: self.expected_size,
            percent: spec_percent(self.transferred, self.expected_size),
            phase: self.phase,
        }
    }

    /// The stream ended: the file goes to verification.
    pub fn finish_transfer(&mut self)
        ensures
            final(self).phase == if old(self).phase is Downloading {
                Phase::Verifying
            } else {
                old(self).phase
            },
            final(self).transferred == old(self).transferred,
            final(self).last_reported == old(self).last_reported,
            final(self).artifact == old(self).artifact,
            final(self).expected_size == old(self).expected_size,
    {
        if matches!(self.phase, Phase::Downloading) {
            self.phase = Phase::Verifying;
        }
    }

    /// Checks the downloaded file of `actual` bytes. Only a file that passes is
    /// moved to the final path; one that fails is deleted.
    pub fn verify(&mut self, actual: u64) -> (r: FileAction)
        ensures
            final(self).phase == spec_verified(*old(self), actual),
            r == spec_verify_action(*old(self), actual),
            final(self).transferred == old(self).transferred,
            final(self).last_reported == old(self).last_reported,
            final(self).artifact == old(self).artifact,
            final(self).expected_size == old(self).expected_size,
    {
        if !matches!(self.phase, Phase::Verifying) {
            return FileAction::Nothing;
        }
        let ok = match self.expected_size {
            None => true,
            Some(e) => e == actual,
        };
        if ok {
            self.phase = Phase::Complete;
            FileAction::MoveIntoPlace
        } else {
            self.phase = Phase::Failed(FailReason::IntegrityMismatch);
            FileAction::RemoveTemp
        }
    }

    /// Stops an unfinished download (cancelled, or the network failed): its
    /// temporary file is deleted and it ends failed. A finished task is kept.
    pub fn abort(&mut self, reason: FailReason) -> (r: FileAction)
        ensures
            is_terminal(old(self).phase) ==> *final(self) == *old(self) && r == FileAction::Nothing,
            !is_terminal(old(self).phase) ==> final(self).phase == Phase::Failed(reason)
                && r == FileAction::RemoveTemp,
            final(self).transferred == old(self).transferred,
            final(self).last_reported == old(self).last_reported,
            final(self).artifact == old(self).artifact,
            final(self).expected_size == old(self).expected_size,
    {
        match self.phase {
            Phase::Complete | Phase::Failed(_) => FileAction::Nothing,
            _ => {
                self.phase = Phase::Failed(reason);
                FileAction::RemoveTemp
            },
        }
    }
}

/// The artifacts whose download is in flight, at most one per artifact.
pub struct DownloadRegistry {
    active: Vec<ModelKind>,
}

impl DownloadRegistry {
    pub closed spec fn in_flight(&self) -> Seq<ModelKind> {
        self.active@
    }

    pub closed spec fn wf(&self) -> bool {
        self.active@.no_duplicates()
    }

    pub open spec fn is_active(&self, a: ModelKind) -> bool {
        self.in_flight().contains(a)
    }

    pub fn new() -> (r: DownloadRegistry)
        ensures
            r.wf(),
            forall|a: ModelKind| !r.is_active(a),
    {
        DownloadRegistry { active: Vec::new() }
    }

    fn position(&self, a: ModelKind) -> (r: Option<usize>)
        ensures
            r is Some <==> self.is_active(a),
            r is Some ==> r.unwrap() < self.in_flight().len() && self.in_flight()[r.unwrap() as int] == a,
    {
        let mut i: usize = 0;
        while i < self.active.len()
            invariant
                i <= self.active@.len(),
                forall|j: int| 0 <= j < i ==> self.active@[j] != a,
            decreases self.active@.len() - i,
        {
            if self.active[i] == a {
                return Some(i);
            }
            i = i + 1;
        }
        None
    }

    /// Decides how a request for `a` is served, given the size of the file at
    /// its final path (None: absent). An intact file is used as it is, with no
    /// network access; a download in flight is joined; otherwise this request
    /// starts the one download of `a`.
    pub fn ensure_model(&mut self, a: ModelKind, present: Option<u64>, expected: Option<u64>) -> (r: EnsurePlan)
        requires
            old(self).wf(),
        ensures
            final(self).wf(),
            r == spec_plan(old(self).is_active(a), spec_intact(present, expected)),
            r == EnsurePlan::Download ==> final(self).in_flight() == old(self).in_flight().push(a),
            r != EnsurePlan::Download ==> final(self).in_flight() == old(self).in_flight(),
    {
        if artifact_intact(present, expected) {
            EnsurePlan::UseExisting
        } else if self.position(a).is_some() {
            EnsurePlan::Join
        } else {
            self.active.push(a);
            proof {
                assert forall|i: int, j: int| 0 <= i < j < self.active@.len() implies self.active@[i] != self.active@[j] by {
                    if j == self.active@.len() - 1 {
                        assert(old(self).in_flight()[i] == self.active@[i]);
                    } else {
                        assert(old(self).active@[i] == self.active@[i]);
                        assert(old(self).active@[j] == self.active@[j]);
                    }
                }
            }
            EnsurePlan::Download
        }
    }

    /// The download of `a` ended, whichever way.
    pub fn finish(&mut self, a: ModelKind)
        requires
            old(self).wf(),
        ensures
            final(self).wf(),
            !final(self).is_active(a),
            forall|b: ModelKind| b != a ==> (final(self).is_active(b) <==> old(self).is_active(b)),
    {
        if let Some(i) = self.position(a) {
            let ghost prev = self.active@;
            self.active.remove(i);
            proof {
                let cur = self.active@;
                assert forall|x: int, y: int| 0 <= x < y < cur.len() implies cur[x] != cur[y] by {
                    let px = if x >= i { x + 1 } else { x };
                    let py = if y >= i { y + 1 } else { y };
                    assert(prev[px] == cur[x] && prev[py] == cur[y]);
                }
                assert forall|b: ModelKind| (b != a ==> (self.is_active(b) <==> old(self).is_active(b))) && !self.is_active(a) by {
                    if self.is_active(b) {
                        let k = choose|k: int| 0 <= k < cur.len() && cur[k] == b;
                        let j = if k >= i { k + 1 } else { k };
                        assert(prev[j] == b);
                        assert(j != i as int);
                    }
                    if b != a && old(self).is_active(b) {
                        let j = choose|j: int| 0 <= j < prev.len() && prev[j] == b;
                        assert(j != i as int);
                        let k = if j > i { j - 1 } else { j };
                        assert(cur[k] == b);
                    }
                    if self.is_active(a) {
                        let k = choose|k: int| 0 <= k < cur.len() && cur[k] == a;
                        let j = if k >= i { k + 1 } else { k };
                        assert(prev[j] == a);
                    }
                }
            }
        }
    }
}

/// A request for an artifact that is already on disk and intact is served
/// from disk, whatever is in flight: it starts no download and joins none.
pub proof fn lemma_intact_needs_no_network(in_flight: bool, present: Option<u64>, expected: Option<u64>)
    requires
        spec_intact(present, expected),
    ensures
        spec_plan(in_flight, spec_intact(present, expected)) == EnsurePlan::UseExisting,
{
}

/// Two requests for the same missing artifact, one after the other with no
/// download of it ending between them, never both start a download: the
/// first starts it unless one is already in flight, and the second joins.
pub proof fn lemma_concurrent_requests_share_transfer(
    in_flight: bool,
    present: Option<u64>,
    expected: Option<u64>,
)
    requires
        !spec_intact(present, expected),
    ensures
        ({
            let first = spec_plan(in_flight, false);
            let second = spec_plan(in_flight || first == EnsurePlan::Download, false);
            &&& second == EnsurePlan::Join
            &&& (first == EnsurePlan::Download <==> !in_flight)
            &&& !(first == EnsurePlan::Download && second == EnsurePlan::Download)
        }),
{
}

/// A cancelled download deletes its temporary file and can never be moved to
/// the final path afterwards, so the final path stays absent and a later
/// request, once the download is let go, starts again from zero.
pub proof fn lemma_cancelled_download_leaves_nothing(t: DownloadTask, actual: u64)
    requires
        !is_terminal(t.phase),
    ensures
        ({
            let cancelled = DownloadTask { phase: Phase::Failed(FailReason::Cancelled), ..t };
            &&& spec_verify_action(cancelled, actual) == FileAction::Nothing
            &&& spec_verified(cancelled, actual) == cancelled.phase
            &&& spec_plan(false, spec_intact(None, t.expected_size)) == EnsurePlan::Download
        }),
{
}

} // verus!
