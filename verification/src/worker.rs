//! The lifecycle of one definition's background synchronization worker, as a
//! state machine over observed events.  The worker mirrors its network's
//! registry into the local cache: one initial full sync, then a poll loop of
//! load-then-resync iterations until a timer stops ticking or a cancellation
//! arrives.  The surrounding runtime performs the actual I/O of each step and
//! reports its outcome here as an event.

use vstd::prelude::*;
use crate::definition::TargetGroup;
use crate::definition::TargetGroupView;

verus! {

/// Where a worker stands in its lifecycle.  `Ended` is the failure exit taken
/// when the initial sync fails; `Terminated` is the normal exit on
/// cancellation.
#[derive(Clone, Copy, Debug, PartialEq, Eq, Structural)]
pub enum WorkerPhase {
    Created,
    InitialSyncing,
    Polling,
    Terminated,
    Ended,
}

impl WorkerPhase {
    /// A terminal phase: the worker has observably exited and reports nothing
    /// further.
    pub open spec fn is_terminal(self) -> bool {
        self is Terminated || self is Ended
    }
}

/// An outcome the runtime observed while driving one worker.
#[derive(Debug)]
pub enum WorkerEvent {
    /// The worker's background execution has begun.
    Started,
    /// The one initial full mirror sync finished with this outcome.
    InitialSyncCompleted { ok: bool },
    /// One poll-loop iteration finished: the local reload either produced
    /// fresh target groups or failed, and the mirror resync either succeeded
    /// or failed.  Neither failure is fatal.
    PollCompleted { loaded: Option<Vec<TargetGroup>>, sync_ok: bool },
    /// The cancellation signal was observed at the wait step.
    Cancelled,
}

pub ghost enum WorkerEventView {
    Started,
    InitialSyncCompleted { ok: bool },
    PollCompleted { loaded: Option<Seq<TargetGroupView>>, sync_ok: bool },
    Cancelled,
}

impl View for WorkerEvent {
    type V = WorkerEventView;

    open spec fn view(&self) -> WorkerEventView {
        match self {
            WorkerEvent::Started => WorkerEventView::Started,
            WorkerEvent::InitialSyncCompleted { ok } => WorkerEventView::InitialSyncCompleted {
                ok: *ok,
            },
            WorkerEvent::PollCompleted { loaded, sync_ok } => WorkerEventView::PollCompleted {
                loaded: loaded.deep_view(),
                sync_ok: *sync_ok,
            },
            WorkerEvent::Cancelled => WorkerEventView::Cancelled,
        }
    }
}

/// One worker's observable state: its lifecycle phase, the outcome counters
/// kept as metrics, and the target groups most recently loaded from the local
/// cache.
#[derive(Debug)]
pub struct WorkerState {
    pub phase: WorkerPhase,
    pub sync_success: u64,
    pub sync_failure: u64,
    pub load_success: u64,
    pub load_failure: u64,
    pub end_events: u64,
    pub target_groups: Vec<TargetGroup>,
}

#[verifier::ext_equal]
pub ghost struct WorkerModel {
    pub phase: WorkerPhase,
    pub sync_success: nat,
    pub sync_failure: nat,
    pub load_success: nat,
    pub load_failure: nat,
    pub end_events: nat,
    pub target_groups: Seq<TargetGroupView>,
}

impl View for WorkerState {
    type V = WorkerModel;

    open spec fn view(&self) -> WorkerModel {
        WorkerModel {
            phase: self.phase,
            sync_success: self.sync_success as nat,
            sync_failure: self.sync_failure as nat,
            load_success: self.load_success as nat,
            load_failure: self.load_failure as nat,
            end_events: self.end_events as nat,
            target_groups: self.target_groups.deep_view(),
        }
    }
}

impl WorkerModel {
    /// The state of a worker that was just spawned and has observed nothing.
    pub open spec fn initial() -> WorkerModel {
        WorkerModel {
            phase: WorkerPhase::Created,
            sync_success: 0,
            sync_failure: 0,
            load_success: 0,
            load_failure: 0,
            end_events: 0,
            target_groups: Seq::empty(),
        }
    }

    pub open spec fn is_terminal(self) -> bool {
        self.phase.is_terminal()
    }

    /// Well-formedness: the terminal observability event is reported exactly
    /// once, exactly when the worker has exited.
    pub open spec fn wf(self) -> bool {
        &&& self.end_events <= 1
        &&& (self.end_events == 1 <==> self.is_terminal())
    }

}

/// One more observation on a metric counter.  The counter is saturating: at
/// the top of the machine range it stays put instead of wrapping, so no
/// amount of observations can make a worker panic.
pub open spec fn sat_inc(c: nat) -> nat {
    if c < u64::MAX {
        c + 1
    } else {
        c
    }
}

/// What one observed event does to a worker's state.  Events that do not fit
/// the current phase, including anything after a terminal phase, change
/// nothing: a worker that has exited emits no further metrics.
pub open spec fn spec_step(m: WorkerModel, ev: WorkerEventView) -> WorkerModel {
    match ev {
        WorkerEventView::Started => {
            if m.phase is Created {
                WorkerModel { phase: WorkerPhase::InitialSyncing, ..m }
            } else {
                m
            }
        },
        WorkerEventView::InitialSyncCompleted { ok } => {
            if m.phase is InitialSyncing {
                if ok {
                    WorkerModel {
                        phase: WorkerPhase::Polling,
                        sync_success: sat_inc(m.sync_success),
                        ..m
                    }
                } else {
                    WorkerModel {
                        phase: WorkerPhase::Ended,
                        sync_failure: sat_inc(m.sync_failure),
                        end_events: sat_inc(m.end_events),
                        ..m
                    }
                }
            } else {
                m
            }
        },
        WorkerEventView::PollCompleted { loaded, sync_ok } => {
            if m.phase is Polling {
                let after_load = match loaded {
                    Some(groups) => WorkerModel {
                        load_success: sat_inc(m.load_success),
                        target_groups: groups,
                        ..m
                    },
                    None => WorkerModel { load_failure: sat_inc(m.load_failure), ..m },
                };
                if sync_ok {
                    WorkerModel { sync_success: sat_inc(m.sync_success), ..after_load }
                } else {
                    WorkerModel { sync_failure: sat_inc(m.sync_failure), ..after_load }
                }
            } else {
                m
            }
        },
        WorkerEventView::Cancelled => {
            if !m.is_terminal() {
                WorkerModel {
                    phase: WorkerPhase::Terminated,
                    end_events: sat_inc(m.end_events),
                    ..m
                }
            } else {
                m
            }
        },
    }
}

impl WorkerState {
    pub fn new() -> (r: WorkerState)
        ensures
            r@ == WorkerModel::initial(),
    {
        let r = WorkerState {
            phase: WorkerPhase::Created,
            sync_success: 0,
            sync_failure: 0,
            load_success: 0,
            load_failure: 0,
            end_events: 0,
            target_groups: Vec::new(),
        };
        proof {
            assert(r@ =~= WorkerModel::initial());
        }
        r
    }

    /// Applies one observed event to the worker's state.
    pub fn observe(&mut self, event: WorkerEvent)
        ensures
            final(self)@ == spec_step(old(self)@, event@),
    {
        match event {
            WorkerEvent::Started => {
                match self.phase {
                    WorkerPhase::Created => {
                        self.phase = WorkerPhase::InitialSyncing;
                    },
                    _ => {},
                }
            },
            WorkerEvent::InitialSyncCompleted { ok } => {
                match self.phase {
                    WorkerPhase::InitialSyncing => {
                        if ok {
                            self.phase = WorkerPhase::Polling;
                            if self.sync_success < u64::MAX {
                            self.sync_success = self.sync_success + 1;
                        }
                        } else {
                            self.phase = WorkerPhase::Ended;
                            if self.sync_failure < u64::MAX {
                            self.sync_failure = self.sync_failure + 1;
                        }
                            if self.end_events < u64::MAX {
                            self.end_events = self.end_events + 1;
                        }
                        }
                    },
                    _ => {},
                }
            },
            WorkerEvent::PollCompleted { loaded, sync_ok } => {
                match self.phase {
                    WorkerPhase::Polling => {
                        match loaded {
                            Some(groups) => {
                                if self.load_success < u64::MAX {
                            self.load_success = self.load_success + 1;
                        }
                                self.target_groups = groups;
                            },
                            None => {
                                if self.load_failure < u64::MAX {
                            self.load_failure = self.load_failure + 1;
                        }
                            },
                        }
                        if sync_ok {
                            if self.sync_success < u64::MAX {
                            self.sync_success = self.sync_success + 1;
                        }
                        } else {
                            if self.sync_failure < u64::MAX {
                            self.sync_failure = self.sync_failure + 1;
                        }
                        }
                    },
                    _ => {},
                }
            },
            WorkerEvent::Cancelled => {
                match self.phase {
                    WorkerPhase::Terminated | WorkerPhase::Ended => {},
                    _ => {
                        self.phase = WorkerPhase::Terminated;
                        if self.end_events < u64::MAX {
                            self.end_events = self.end_events + 1;
                        }
                    },
                }
            },
        }
        proof {
            assert(final(self)@ =~= spec_step(old(self)@, event@));
        }
    }
}

/// A worker in a terminal phase observes nothing: no event changes its state,
/// so no further metric emissions can come from it.
pub proof fn lemma_terminal_step_is_noop(m: WorkerModel, ev: WorkerEventView)
    requires
        m.is_terminal(),
    ensures
        spec_step(m, ev) == m,
{
}

/// Every step keeps the worker well formed: the terminal event stays reported
/// exactly once, exactly in the terminal phases.
pub proof fn lemma_step_preserves_wf(m: WorkerModel, ev: WorkerEventView)
    requires
        m.wf(),
    ensures
        spec_step(m, ev).wf(),
{
}

/// The poll-loop iteration whose local reload and mirror resync both failed.
pub open spec fn failing_tick() -> WorkerEventView {
    WorkerEventView::PollCompleted { loaded: None, sync_ok: false }
}

/// The worker state after a number of poll iterations that all failed.
pub open spec fn after_failing_ticks(m: WorkerModel, n: nat) -> WorkerModel
    decreases n,
{
    if n == 0 {
        m
    } else {
        spec_step(after_failing_ticks(m, (n - 1) as nat), failing_tick())
    }
}

/// A polling worker whose iterations keep failing stays in the poll loop and
/// counts every failure: after `n` wholly failed iterations it is still
/// polling, and its sync- and load-failure counters have each grown by `n`.
/// No failure ends the worker by itself.
pub proof fn lemma_failing_ticks_counted(m: WorkerModel, n: nat)
    requires
        m.phase is Polling,
        m.sync_failure + n <= u64::MAX,
        m.load_failure + n <= u64::MAX,
    ensures
        after_failing_ticks(m, n).phase is Polling,
        after_failing_ticks(m, n).sync_failure == m.sync_failure + n,
        after_failing_ticks(m, n).load_failure == m.load_failure + n,
        after_failing_ticks(m, n).sync_success == m.sync_success,
        after_failing_ticks(m, n).load_success == m.load_success,
        after_failing_ticks(m, n).end_events == m.end_events,
        after_failing_ticks(m, n).target_groups == m.target_groups,
    decreases n,
{
    if n > 0 {
        lemma_failing_ticks_counted(m, (n - 1) as nat);
    }
}

} // verus!
