use vstd::prelude::*;
use crate::health::ReadinessDecision;

verus! {

/// The two supervised services, in dependency order: the daemon starts first.
#[derive(Clone, Copy, Debug, PartialEq, Eq, Structural)]
pub enum ServiceKind {
    Daemon,
    Backend,
}

/// State of a service whose process is held.
#[derive(Clone, Copy, Debug, PartialEq, Eq, Structural)]
pub enum LiveState {
    Spawned,
    Ready,
    FailedToStart,
}

/// State of a service as reported to callers.
#[derive(Clone, Copy, Debug, PartialEq, Eq, Structural)]
pub enum ServiceState {
    NotStarted,
    Spawned,
    Ready,
    FailedToStart,
    Failed,
    Exited(i32),
    Stopped,
}

#[derive(Clone, Copy, Debug, PartialEq, Eq, Structural)]
pub enum Overall {
    Ready,
    Degraded,
    Stopped,
}

/// A running child process owned by the supervisor.
#[derive(Clone, Copy, Debug, PartialEq, Eq, Structural)]
pub struct ManagedProcess {
    pub service: ServiceKind,
    pub pid: u32,
    pub started_at: u64,
    pub state: LiveState,
}

#[derive(Clone, Copy, Debug, PartialEq, Eq, Structural)]
pub struct ServiceStatus {
    pub daemon: ServiceState,
    pub backend: ServiceState,
    pub overall: Overall,
}

/// What the start sequence asks its driver to do next.
#[derive(Clone, Copy, Debug, PartialEq, Eq, Structural)]
pub enum StartAction {
    Spawn(ServiceKind),
    AwaitReady(ServiceKind),
    Done,
}

/// How one process left during a stop.
#[derive(Clone, Copy, Debug, PartialEq, Eq, Structural)]
pub enum StopOutcome {
    Graceful,
    Forced,
    KillFailed,
}

/// The next move for one process after it was asked to terminate.
#[derive(Clone, Copy, Debug, PartialEq, Eq, Structural)]
pub enum StopStep {
    Wait,
    ForceKill,
    Released,
}

#[derive(Debug)]
pub enum SupervisorError {
    StartFailed(Vec<ServiceKind>),
    StopFailed(Vec<ServiceKind>),
}

pub open spec fn live_state(s: LiveState) -> ServiceState {
    match s {
        LiveState::Spawned => ServiceState::Spawned,
        LiveState::Ready => ServiceState::Ready,
        LiveState::FailedToStart => ServiceState::FailedToStart,
    }
}

/// A state that a service without a held process may be in.
pub open spec fn is_end_state(s: ServiceState) -> bool {
    match s {
        ServiceState::NotStarted | ServiceState::Failed | ServiceState::Exited(_)
        | ServiceState::Stopped => true,
        _ => false,
    }
}

pub open spec fn unique_services(ps: Seq<ManagedProcess>) -> bool {
    forall|i: int, j: int|
        0 <= i < ps.len() && 0 <= j < ps.len() && i != j ==> ps[i].service != ps[j].service
}

pub open spec fn overall_of(daemon: ServiceState, backend: ServiceState, n_live: nat) -> Overall {
    if daemon == ServiceState::Ready && backend == ServiceState::Ready {
        Overall::Ready
    } else if n_live == 0 {
        Overall::Stopped
    } else {
        Overall::Degraded
    }
}

pub struct ProcessManager {
    processes: Vec<ManagedProcess>,
    daemon_end: ServiceState,
    backend_end: ServiceState,
    cancelled: bool,
}

impl ProcessManager {
    /// The processes held, in start order.
    pub closed spec fn live(&self) -> Seq<ManagedProcess> {
        self.processes@
    }

    pub closed spec fn start_cancelled(&self) -> bool {
        self.cancelled
    }

    pub closed spec fn end_state(&self, s: ServiceKind) -> ServiceState {
        match s {
            ServiceKind::Daemon => self.daemon_end,
            ServiceKind::Backend => self.backend_end,
        }
    }

    /// At most one process per service, and the recorded end states are ones
    /// that a service without a process can be in.
    pub closed spec fn wf(&self) -> bool {
        &&& unique_services(self.processes@)
        &&& is_end_state(self.daemon_end)
        &&& is_end_state(self.backend_end)
    }

    pub open spec fn is_live(&self, s: ServiceKind) -> bool {
        exists|i: int| 0 <= i < self.live().len() && self.live()[i].service == s
    }

    pub open spec fn process_of(&self, s: ServiceKind) -> ManagedProcess
        recommends
            self.is_live(s),
    {
        self.live()[choose|i: int| 0 <= i < self.live().len() && self.live()[i].service == s]
    }

    pub open spec fn state_of(&self, s: ServiceKind) -> ServiceState {
        if self.is_live(s) {
            live_state(self.process_of(s).state)
        } else {
            self.end_state(s)
        }
    }

    /// The next step of the start sequence: the daemon is spawned and made ready
    /// before the backend is spawned; a failed or cancelled sequence is done.
    pub open spec fn spec_next_start(&self) -> StartAction {
        let d = self.state_of(ServiceKind::Daemon);
        let b = self.state_of(ServiceKind::Backend);
        if self.start_cancelled() {
            StartAction::Done
        } else if d == ServiceState::NotStarted {
            StartAction::Spawn(ServiceKind::Daemon)
        } else if d == ServiceState::Spawned {
            StartAction::AwaitReady(ServiceKind::Daemon)
        } else if d != ServiceState::Ready {
            StartAction::Done
        } else if b == ServiceState::NotStarted {
            StartAction::Spawn(ServiceKind::Backend)
        } else if b == ServiceState::Spawned {
            StartAction::AwaitReady(ServiceKind::Backend)
        } else {
            StartAction::Done
        }
    }

    proof fn lemma_process_of(&self, i: int)
        requires
            self.wf(),
            0 <= i < self.live().len(),
        ensures
            self.is_live(self.live()[i].service),
            self.process_of(self.live()[i].service) == self.live()[i],
    {
        let s = self.live()[i].service;
        assert(self.is_live(s));
        let j = choose|j: int| 0 <= j < self.live().len() && self.live()[j].service == s;
        assert(unique_services(self.processes@));
        assert(i == j);
    }

    pub fn new() -> (r: ProcessManager)
        ensures
            r.wf(),
            r.live().len() == 0,
            !r.start_cancelled(),
            r.state_of(ServiceKind::Daemon) == ServiceState::NotStarted,
            r.state_of(ServiceKind::Backend) == ServiceState::NotStarted,
    {
        ProcessManager {
            processes: Vec::new(),
            daemon_end: ServiceState::NotStarted,
            backend_end: ServiceState::NotStarted,
            cancelled: false,
        }
    }

    fn find(&self, s: ServiceKind) -> (r: Option<usize>)
        requires
            self.wf(),
        ensures
            r.is_some() <==> self.is_live(s),
            r.is_some() ==> r.unwrap() < self.live().len() && self.live()[r.unwrap() as int]
                == self.process_of(s),
    {
        let mut i: usize = 0;
        while i < self.processes.len()
            invariant
                self.wf(),
                i <= self.processes@.len(),
                forall|j: int| 0 <= j < i ==> self.processes@[j].service != s,
            decreases self.processes@.len() - i,
        {
            if self.processes[i].service == s {
                proof {
                    self.lemma_process_of(i as int);
                }
                return Some(i);
            }
            i = i + 1;
        }
        None
    }

    /// Reports the state of one service; reads memory only.
    pub fn service_state(&self, s: ServiceKind) -> (r: ServiceState)
        requires
            self.wf(),
        ensures
            r == self.state_of(s),
    {
        match self.find(s) {
            Some(i) => match self.processes[i].state {
                LiveState::Spawned => ServiceState::Spawned,
                LiveState::Ready => ServiceState::Ready,
                LiveState::FailedToStart => ServiceState::FailedToStart,
            },
            None => match s {
                ServiceKind::Daemon => self.daemon_end,
                ServiceKind::Backend => self.backend_end,
            },
        }
    }

    /// Snapshot of every service's state and the overall summary.
    pub fn get_status(&self) -> (r: ServiceStatus)
        requires
            self.wf(),
        ensures
            r.daemon == self.state_of(ServiceKind::Daemon),
            r.backend == self.state_of(ServiceKind::Backend),
            r.overall == overall_of(r.daemon, r.backend, self.live().len()),
    {
        let daemon = self.service_state(ServiceKind::Daemon);
        let backend = self.service_state(ServiceKind::Backend);
        let overall = if daemon == ServiceState::Ready && backend == ServiceState::Ready {
            Overall::Ready
        } else if self.processes.len() == 0 {
            Overall::Stopped
        } else {
            Overall::Degraded
        };
        ServiceStatus { daemon, backend, overall }
    }

    /// Opens a new start sequence: clears a pending cancellation and forgets how
    /// services without a process ended, so that they may be spawned again.
    pub fn begin_start(&mut self)
        requires
            old(self).wf(),
        ensures
            final(self).wf(),
            final(self).live() == old(self).live(),
            !final(self).start_cancelled(),
            forall|s: ServiceKind| !final(self).is_live(s) ==> final(self).state_of(s) == ServiceState::NotStarted,
            forall|s: ServiceKind| final(self).state_of(s) == if old(self).is_live(s) { old(self).state_of(s) } else { ServiceState::NotStarted },
    {
        self.cancelled = false;
        self.daemon_end = ServiceState::NotStarted;
        self.backend_end = ServiceState::NotStarted;
    }

    /// Asks a start sequence in progress to stop spawning.
    pub fn cancel_start(&mut self)
        requires
            old(self).wf(),
        ensures
            final(self).wf(),
            final(self).live() == old(self).live(),
            final(self).start_cancelled(),
            forall|s: ServiceKind| final(self).state_of(s) == old(self).state_of(s),
    {
        self.cancelled = true;
    }

    /// The next step of the start sequence.
    pub fn next_start_action(&self) -> (r: StartAction)
        requires
            self.wf(),
        ensures
            r == self.spec_next_start(),
    {
        let d = self.service_state(ServiceKind::Daemon);
        let b = self.service_state(ServiceKind::Backend);
        if self.cancelled {
            StartAction::Done
        } else if d == ServiceState::NotStarted {
            StartAction::Spawn(ServiceKind::Daemon)
        } else if d == ServiceState::Spawned {
            StartAction::AwaitReady(ServiceKind::Daemon)
        } else if d != ServiceState::Ready {
            StartAction::Done
        } else if b == ServiceState::NotStarted {
            StartAction::Spawn(ServiceKind::Backend)
        } else if b == ServiceState::Spawned {
            StartAction::AwaitReady(ServiceKind::Backend)
        } else {
            StartAction::Done
        }
    }

    /// Registers a freshly spawned process. A service that already has a process
    /// is refused (`false`) and nothing changes: no service is ever held twice.
    pub fn record_spawned(&mut self, s: ServiceKind, pid: u32, now: u64) -> (r: bool)
        requires
            old(self).wf(),
        ensures
            final(self).wf(),
            r == !old(self).is_live(s),
            final(self).start_cancelled() == old(self).start_cancelled(),
            r ==> final(self).live() == old(self).live().push(
                ManagedProcess { service: s, pid, started_at: now, state: LiveState::Spawned },
            ),
            r ==> final(self).state_of(s) == ServiceState::Spawned && final(self).is_live(s),
            forall|o: ServiceKind| o != s ==> (final(self).is_live(o) <==> old(self).is_live(o)),
            !r ==> final(self).live() == old(self).live(),
            forall|o: ServiceKind| o != s ==> final(self).state_of(o) == old(self).state_of(o),
            !r ==> final(self).state_of(s) == old(self).state_of(s),
    {
        match self.find(s) {
            Some(_) => false,
            None => {
                let ghost prev = self.processes@;
                let p = ManagedProcess { service: s, pid, started_at: now, state: LiveState::Spawned };
                self.processes.push(p);
                proof {
                    let n = prev.len() as int;
                    assert(self.processes@[n] == p);
                    self.lemma_process_of(n);
                    assert forall|o: ServiceKind| o != s implies self.state_of(o) == old(self).state_of(o) && (self.is_live(o) <==> old(self).is_live(o)) by {
                        if old(self).is_live(o) {
                            let i = choose|i: int| 0 <= i < prev.len() && prev[i].service == o;
                            old(self).lemma_process_of(i);
                            assert(self.processes@[i] == prev[i]);
                            self.lemma_process_of(i);
                        } else {
                            assert(!self.is_live(o)) by {
                                if self.is_live(o) {
                                    let i = choose|i: int| 0 <= i < self.processes@.len() && self.processes@[i].service == o;
                                    assert(i < n);
                                    assert(old(self).live()[i].service == o);
                                }
                            }
                        }
                    }
                }
                true
            },
        }
    }

    /// Records that spawning a service failed (or that a prerequisite of it did).
    /// A service that has a process keeps it.
    pub fn record_spawn_failed(&mut self, s: ServiceKind)
        requires
            old(self).wf(),
        ensures
            final(self).wf(),
            final(self).live() == old(self).live(),
            final(self).start_cancelled() == old(self).start_cancelled(),
            !old(self).is_live(s) ==> final(self).state_of(s) == ServiceState::Failed,
            old(self).is_live(s) ==> final(self).state_of(s) == old(self).state_of(s),
            forall|o: ServiceKind| o != s ==> final(self).state_of(o) == old(self).state_of(o),
    {
        if self.find(s).is_none() {
            match s {
                ServiceKind::Daemon => self.daemon_end = ServiceState::Failed,
                ServiceKind::Backend => self.backend_end = ServiceState::Failed,
            }
        }
    }

    /// Applies the outcome of a readiness probe to a service's process: it
    /// becomes ready, is marked failed-to-start (and kept), or, having exited,
    /// is let go with its exit code. A retry, or a service without a process,
    /// changes nothing.
    pub fn record_readiness(&mut self, s: ServiceKind, d: ReadinessDecision)
        requires
            old(self).wf(),
        ensures
            final(self).wf(),
            final(self).start_cancelled() == old(self).start_cancelled(),
            forall|o: ServiceKind| o != s ==> final(self).state_of(o) == old(self).state_of(o),
            !old(self).is_live(s) || d is RetryAfter ==> final(self).state_of(s) == old(self).state_of(s),
            old(self).is_live(s) ==> match d {
                ReadinessDecision::Ready => final(self).state_of(s) == ServiceState::Ready,
                ReadinessDecision::FailedToStart => final(self).state_of(s) == ServiceState::FailedToStart,
                ReadinessDecision::Exited(c) => final(self).state_of(s) == ServiceState::Exited(c)
                    && !final(self).is_live(s),
                ReadinessDecision::RetryAfter(_) => true,
            },
            forall|o: ServiceKind| o != s ==> (final(self).is_live(o) <==> old(self).is_live(o)),
            old(self).is_live(s) && d is Exited ==> final(self).live().len() == old(self).live().len() - 1,
            !(old(self).is_live(s) && d is Exited) ==> final(self).live().len() == old(self).live().len()
                && (final(self).is_live(s) <==> old(self).is_live(s)),
    {
        let found = self.find(s);
        if let Some(i) = found {
            let ghost prev = self.processes@;
            let mut p = self.processes[i];
            match d {
                ReadinessDecision::Ready => {
                    p.state = LiveState::Ready;
                    self.processes.set(i, p);
                },
                ReadinessDecision::FailedToStart => {
                    p.state = LiveState::FailedToStart;
                    self.processes.set(i, p);
                },
                ReadinessDecision::Exited(c) => {
                    self.processes.remove(i);
                    match s {
                        ServiceKind::Daemon => self.daemon_end = ServiceState::Exited(c),
                        ServiceKind::Backend => self.backend_end = ServiceState::Exited(c),
                    }
                },
                ReadinessDecision::RetryAfter(_) => {},
            }
            proof {
                let cur = self.processes@;
                assert(unique_services(cur));
                if !(d is Exited) {
                    assert(cur[i as int].service == s);
                    self.lemma_process_of(i as int);
                }
                assert forall|o: ServiceKind| o != s implies self.state_of(o) == old(self).state_of(o) && (self.is_live(o) <==> old(self).is_live(o)) by {
                    if old(self).is_live(o) {
                        let j = choose|j: int| 0 <= j < prev.len() && prev[j].service == o;
                        old(self).lemma_process_of(j);
                        let k = if d is Exited && j > i { j - 1 } else { j };
                        assert(cur[k] == prev[j]);
                        self.lemma_process_of(k);
                    } else {
                        assert(!self.is_live(o)) by {
                            if self.is_live(o) {
                                let k = choose|k: int| 0 <= k < cur.len() && cur[k].service == o;
                                let j = if d is Exited && k >= i { k + 1 } else { k };
                                assert(prev[j] == cur[k]);
                            }
                        }
                    }
                }
                if d is Exited {
                    assert(!self.is_live(s)) by {
                        if self.is_live(s) {
                            let k = choose|k: int| 0 <= k < cur.len() && cur[k].service == s;
                            let j = if k >= i { k + 1 } else { k };
                            assert(prev[j] == cur[k]);
                        }
                    }
                }
            }
        }
    }

    /// The processes to stop, in reverse start order.
    pub fn stop_order(&self) -> (r: Vec<ManagedProcess>)
        requires
            self.wf(),
        ensures
            r@.len() == self.live().len(),
            forall|i: int| 0 <= i < r@.len() ==> r@[i] == self.live()[self.live().len() - 1 - i],
    {
        let n = self.processes.len();
        let mut r: Vec<ManagedProcess> = Vec::new();
        let mut k: usize = 0;
        while k < n
            invariant
                n == self.processes@.len(),
                k <= n,
                r@.len() == k,
                forall|i: int| 0 <= i < k ==> r@[i] == self.processes@[n - 1 - i],
            decreases n - k,
        {
            r.push(self.processes[n - 1 - k]);
            k = k + 1;
        }
        r
    }

    /// Ends a stop: every process handle is released whatever happened to it,
    /// services that had one are stopped, and a start in progress is cancelled.
    /// `outcomes[i]` tells how `stop_order()[i]` left; the stop fails, naming
    /// the services, exactly when a forced kill failed.
    pub fn complete_stop(&mut self, outcomes: &Vec<StopOutcome>) -> (r: Result<(), SupervisorError>)
        requires
            old(self).wf(),
            outcomes@.len() == old(self).live().len(),
        ensures
            final(self).wf(),
            final(self).live().len() == 0,
            final(self).start_cancelled(),
            forall|s: ServiceKind| final(self).state_of(s) == if old(self).is_live(s) {
                ServiceState::Stopped
            } else {
                old(self).state_of(s)
            },
            r.is_ok() <==> forall|i: int| 0 <= i < outcomes@.len() ==> outcomes@[i] != StopOutcome::KillFailed,
            r matches Err(e) ==> e matches SupervisorError::StopFailed(v) && forall|s: ServiceKind|
                v@.contains(s) <==> exists|i: int|
                    0 <= i < outcomes@.len() && outcomes@[i] == StopOutcome::KillFailed
                        && old(self).live()[old(self).live().len() - 1 - i].service == s,
    {
        let order = self.stop_order();
        let n = order.len();
        let mut failed: Vec<ServiceKind> = Vec::new();
        let mut k: usize = 0;
        while k < n
            invariant
                n == order@.len(),
                n == outcomes@.len(),
                k <= n,
                forall|s: ServiceKind| failed@.contains(s) <==> exists|i: int|
                    0 <= i < k && outcomes@[i] == StopOutcome::KillFailed && order@[i].service == s,
            decreases n - k,
        {
            if outcomes[k] == StopOutcome::KillFailed {
                let ghost before = failed@;
                failed.push(order[k].service);
                proof {
                    assert forall|s: ServiceKind| failed@.contains(s) <==> exists|i: int|
                        0 <= i < k + 1 && outcomes@[i] == StopOutcome::KillFailed && order@[i].service == s by {
                        if failed@.contains(s) && !before.contains(s) {
                            assert(failed@[before.len() as int] == s) by {
                                let j = choose|j: int| 0 <= j < failed@.len() && failed@[j] == s;
                                if j < before.len() {
                                    assert(before[j] == s);
                                }
                            }
                        }
                        if exists|i: int| 0 <= i < k + 1 && outcomes@[i] == StopOutcome::KillFailed && order@[i].service == s {
                            let i = choose|i: int| 0 <= i < k + 1 && outcomes@[i] == StopOutcome::KillFailed && order@[i].service == s;
                            if i < k {
                                assert(exists|i2: int| 0 <= i2 < k && outcomes@[i2] == StopOutcome::KillFailed && order@[i2].service == s);
                                assert(before.contains(s));
                                let j = choose|j: int| 0 <= j < before.len() && before[j] == s;
                                assert(failed@[j] == s);
                            } else {
                                assert(failed@[before.len() as int] == s);
                            }
                        }
                    }
                }
            } else {
                proof {
                    assert forall|s: ServiceKind| failed@.contains(s) <==> exists|i: int|
                        0 <= i < k + 1 && outcomes@[i] == StopOutcome::KillFailed && order@[i].service == s by {
                        if exists|i: int| 0 <= i < k + 1 && outcomes@[i] == StopOutcome::KillFailed && order@[i].service == s {
                            let i = choose|i: int| 0 <= i < k + 1 && outcomes@[i] == StopOutcome::KillFailed && order@[i].service == s;
                            assert(i < k);
                        }
                    }
                }
            }
            k = k + 1;
        }
        let ghost prev = self.processes@;
        let d_live = self.find(ServiceKind::Daemon).is_some();
        let b_live = self.find(ServiceKind::Backend).is_some();
        if d_live {
            self.daemon_end = ServiceState::Stopped;
        }
        if b_live {
            self.backend_end = ServiceState::Stopped;
        }
        self.processes.clear();
        self.cancelled = true;
        proof {
            assert(self.processes@.len() == 0);
            assert forall|s: ServiceKind| !self.is_live(s) by {}
        }
        if failed.len() == 0 {
            proof {
                assert forall|i: int| 0 <= i < outcomes@.len() implies outcomes@[i] != StopOutcome::KillFailed by {
                    if outcomes@[i] == StopOutcome::KillFailed {
                        assert(failed@.contains(order@[i].service));
                    }
                }
            }
            Ok(())
        } else {
            proof {
                assert(failed@.contains(failed@[0]));
            }
            Err(SupervisorError::StopFailed(failed))
        }
    }

    /// The result of a finished start sequence: success when both services are
    /// ready, otherwise an error naming every service that is not.
    pub fn start_result(&self) -> (r: Result<(), SupervisorError>)
        requires
            self.wf(),
        ensures
            r.is_ok() <==> (self.state_of(ServiceKind::Daemon) == ServiceState::Ready
                && self.state_of(ServiceKind::Backend) == ServiceState::Ready),
            r matches Err(e) ==> e matches SupervisorError::StartFailed(v) && forall|s: ServiceKind|
                v@.contains(s) <==> self.state_of(s) != ServiceState::Ready,
    {
        let mut failed: Vec<ServiceKind> = Vec::new();
        let d = self.service_state(ServiceKind::Daemon);
        let b = self.service_state(ServiceKind::Backend);
        if d != ServiceState::Ready {
            failed.push(ServiceKind::Daemon);
        }
        if b != ServiceState::Ready {
            failed.push(ServiceKind::Backend);
        }
        if failed.len() == 0 {
            Ok(())
        } else {
            proof {
                assert forall|s: ServiceKind| failed@.contains(s) <==> self.state_of(s) != ServiceState::Ready by {
                    if self.state_of(s) != ServiceState::Ready {
                        match s {
                            ServiceKind::Daemon => assert(failed@[0] == s),
                            ServiceKind::Backend => assert(failed@[failed@.len() - 1] == s),
                        }
                    }
                }
            }
            Err(SupervisorError::StartFailed(failed))
        }
    }

    /// No service is ever held by two processes, and the start sequence asks to
    /// spawn a service only while no process of it is held.
    pub proof fn lemma_no_duplicate_spawn(&self, s: ServiceKind)
        requires
            self.wf(),
        ensures
            unique_services(self.live()),
            self.spec_next_start() == StartAction::Spawn(s) ==> !self.is_live(s),
    {
        if self.is_live(s) {
            let i = choose|i: int| 0 <= i < self.live().len() && self.live()[i].service == s;
            self.lemma_process_of(i);
        }
    }

    /// The backend is spawned only after the daemon is ready; a daemon that
    /// failed to spawn ends the start sequence with the backend not spawned.
    pub proof fn lemma_dependency_order(&self)
        requires
            self.wf(),
        ensures
            self.spec_next_start() == StartAction::Spawn(ServiceKind::Backend) ==> self.state_of(
                ServiceKind::Daemon,
            ) == ServiceState::Ready,
            self.state_of(ServiceKind::Daemon) == ServiceState::Failed ==> self.spec_next_start()
                == StartAction::Done,
    {
    }
}

} // verus!

verus! {

/// The next move for a process that was asked to terminate `elapsed_ms` ago:
/// released once it exited, force-killed once the grace period is over,
/// otherwise waited on.
pub fn after_signal(exited: bool, elapsed_ms: u64, grace_ms: u64) -> (r: StopStep)
    ensures
        exited ==> r == StopStep::Released,
        !exited && elapsed_ms >= grace_ms ==> r == StopStep::ForceKill,
        !exited && elapsed_ms < grace_ms ==> r == StopStep::Wait,
{
    if exited {
        StopStep::Released
    } else if elapsed_ms >= grace_ms {
        StopStep::ForceKill
    } else {
        StopStep::Wait
    }
}

} // verus!
