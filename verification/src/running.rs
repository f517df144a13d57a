//! A definition together with its live worker: what the supervisor's registry
//! holds for each running network.  The cancellation and join plumbing of the
//! real runtime stays outside; here the instance carries the worker's
//! observable state, and ending an instance drives that state to its terminal
//! phase.

use vstd::prelude::*;
use vstd::string::StringExecFns;
use crate::definition::BoundaryNodeView;
use crate::definition::BoundaryNode;
use crate::definition::Definition;
use crate::definition::DefinitionView;
use crate::definition::TargetGroup;
use crate::definition::TargetGroupView;
use crate::definition::duplicate_target_group;
use crate::worker::spec_step;
use crate::worker::WorkerEvent;
use crate::worker::WorkerEventView;
use crate::worker::WorkerModel;
use crate::worker::WorkerState;

verus! {

/// The error of attaching a boundary node under a name that the definition
/// already carries.
#[derive(Debug)]
pub struct BoundaryNodeAlreadyExists {
    pub name: String,
}

impl BoundaryNodeAlreadyExists {
    /// What this error says to an operator.
    pub fn message(&self) -> (r: String)
        ensures
            r@ == "boundary node "@ + self.name@ + " already exists"@,
    {
        let mut r = String::from_str("boundary node ");
        r.append(self.name.as_str());
        r.append(" already exists");
        r
    }
}

/// A definition whose worker has been spawned: the registry's value type.
#[derive(Debug)]
pub struct RunningDefinition {
    pub definition: Definition,
    pub worker: WorkerState,
}

#[verifier::ext_equal]
pub ghost struct RunningView {
    pub definition: DefinitionView,
    pub worker: WorkerModel,
}

impl View for RunningDefinition {
    type V = RunningView;

    open spec fn view(&self) -> RunningView {
        RunningView { definition: self.definition@, worker: self.worker@ }
    }
}

impl DeepView for RunningDefinition {
    type V = RunningView;

    open spec fn deep_view(&self) -> RunningView {
        self.view()
    }
}

/// Whether some boundary node in the sequence carries this name.
pub open spec fn has_boundary_node(bns: Seq<BoundaryNodeView>, name: Seq<char>) -> bool {
    exists|i: int| 0 <= i < bns.len() && bns[i].name == name
}

/// The number of boundary nodes carrying this name.
pub open spec fn count_named(bns: Seq<BoundaryNodeView>, name: Seq<char>) -> nat
    decreases bns.len(),
{
    if bns.len() == 0 {
        0
    } else {
        (if bns.last().name == name {
            1nat
        } else {
            0nat
        }) + count_named(bns.drop_last(), name)
    }
}

proof fn lemma_absent_count_zero(bns: Seq<BoundaryNodeView>, name: Seq<char>)
    requires
        !has_boundary_node(bns, name),
    ensures
        count_named(bns, name) == 0,
    decreases bns.len(),
{
    if bns.len() > 0 {
        assert(bns[bns.len() - 1] == bns.last());
        assert(bns.last().name != name);
        assert forall|i: int| 0 <= i < bns.drop_last().len() implies #[trigger] bns.drop_last()[i].name
            != name by {
            assert(bns.drop_last()[i] == bns[i]);
        }
        lemma_absent_count_zero(bns.drop_last(), name);
    }
}

/// Attaching a boundary node twice under one name fails the second time and
/// leaves exactly one entry of that name: once a definition without the name
/// has accepted the first target, a second target of the same name is a
/// duplicate, and the list carries the name exactly once.
pub proof fn lemma_boundary_node_added_once(
    bns: Seq<BoundaryNodeView>,
    first: BoundaryNodeView,
    second: BoundaryNodeView,
)
    requires
        !has_boundary_node(bns, first.name),
        second.name == first.name,
    ensures
        has_boundary_node(bns.push(first), second.name),
        count_named(bns.push(first), first.name) == 1,
{
    assert(bns.push(first)[bns.len() as int] == first);
    lemma_absent_count_zero(bns, first.name);
    assert(bns.push(first).drop_last() =~= bns);
    assert(bns.push(first).last() == first);
}

impl Definition {
    /// Hands the definition to a fresh worker.  The real spawning of the
    /// background execution is the runtime's job; the instance starts with
    /// the worker in its initial state, having observed nothing yet.
    pub fn run(self) -> (r: RunningDefinition)
        ensures
            r@.definition == self@,
            r@.worker == WorkerModel::initial(),
    {
        RunningDefinition { definition: self, worker: WorkerState::new() }
    }
}

impl RunningDefinition {
    pub fn name(&self) -> (r: String)
        ensures
            r@ == self@.definition.name,
    {
        self.definition.name.clone()
    }

    /// Applies one observed worker event; the definition itself never changes.
    pub fn observe(&mut self, event: WorkerEvent)
        ensures
            final(self)@.definition == old(self)@.definition,
            final(self)@.worker == spec_step(old(self)@.worker, event@),
    {
        self.worker.observe(event)
    }

    /// Ends the instance: the worker observes the cancellation signal and
    /// exits, reporting its terminal event once.  Ending an instance whose
    /// worker already exited changes nothing.
    pub fn end(&mut self)
        ensures
            final(self)@.definition == old(self)@.definition,
            final(self)@.worker == spec_step(old(self)@.worker, WorkerEventView::Cancelled),
            final(self)@.worker.is_terminal(),
    {
        self.worker.observe(WorkerEvent::Cancelled)
    }

    /// The target groups of one job type, read from the worker's most recently
    /// loaded local state.  This never triggers any fetching: it only filters
    /// what the last successful load produced.
    pub fn get_target_groups(&self, job_type: &String) -> (r: Vec<TargetGroup>)
        ensures
            r.deep_view() == self@.worker.target_groups.filter(
                |g: TargetGroupView| g.job_type == job_type@,
            ),
    {
        let groups = &self.worker.target_groups;
        let mut r: Vec<TargetGroup> = Vec::new();
        let ghost pred = |g: TargetGroupView| g.job_type == job_type@;
        let mut i: usize = 0;
        while i < groups.len()
            invariant
                i <= groups.len(),
                groups == self.worker.target_groups,
                r.deep_view() == self@.worker.target_groups.subrange(0, i as int).filter(pred),
                pred == (|g: TargetGroupView| g.job_type == job_type@),
            decreases groups.len() - i,
        {
            let ghost prefix = self@.worker.target_groups.subrange(0, i as int);
            let ghost next_prefix = self@.worker.target_groups.subrange(0, i + 1);
            proof {
                assert(self@.worker.target_groups[i as int] == groups@[i as int]@);
                assert(next_prefix.drop_last() =~= prefix);
                assert(next_prefix.last() == self@.worker.target_groups[i as int]);
            }
            if groups[i].job_type == *job_type {
                let g = duplicate_target_group(&groups[i]);
                r.push(g);
                proof {
                    reveal(Seq::filter);
                    assert(pred(next_prefix.last()));
                    assert(r.deep_view() =~= next_prefix.filter(pred));
                }
            } else {
                proof {
                    reveal(Seq::filter);
                    assert(!pred(next_prefix.last()));
                    assert(r.deep_view() =~= next_prefix.filter(pred));
                }
            }
            i = i + 1;
        }
        proof {
            assert(self@.worker.target_groups.subrange(0, i as int) =~= self@.worker.target_groups);
        }
        r
    }

    /// Attaches a boundary-node target to a live definition.  A duplicate
    /// name within this definition is refused without changing anything; an
    /// instance whose worker has already exited silently accepts and drops
    /// the request, since it races against shutdown.
    pub fn add_boundary_node(&mut self, target: BoundaryNode) -> (r: Result<
        (),
        BoundaryNodeAlreadyExists,
    >)
        ensures
            final(self)@.worker == old(self)@.worker,
            old(self)@.worker.is_terminal() ==> r is Ok && final(self)@ == old(self)@,
            !old(self)@.worker.is_terminal() ==> {
                &&& r is Ok <==> !has_boundary_node(old(self)@.definition.boundary_nodes, target@.name)
                &&& (r matches Err(e) ==> e.name@ == target@.name && final(self)@ == old(self)@)
                &&& (r is Ok ==> final(self)@.definition == (DefinitionView {
                    boundary_nodes: old(self)@.definition.boundary_nodes.push(target@),
                    ..old(self)@.definition
                }))
            },
    {
        match self.worker.phase {
            crate::worker::WorkerPhase::Terminated | crate::worker::WorkerPhase::Ended => Ok(()),
            _ => {
                let bns = &self.definition.boundary_nodes;
                let mut i: usize = 0;
                while i < bns.len()
                    invariant
                        i <= bns.len(),
                        bns == self.definition.boundary_nodes,
                        *self == *old(self),
                        !old(self)@.worker.is_terminal(),
                        forall|j: int|
                            0 <= j < i ==> self@.definition.boundary_nodes[j].name != target@.name,
                    decreases bns.len() - i,
                {
                    if bns[i].name == target.name {
                        proof {
                            assert(self@.definition.boundary_nodes[i as int].name == target@.name);
                            assert(has_boundary_node(self@.definition.boundary_nodes, target@.name));
                        }
                        return Err(BoundaryNodeAlreadyExists { name: target.name });
                    }
                    i = i + 1;
                }
                self.definition.boundary_nodes.push(target);
                proof {
                    assert(final(self)@.definition =~= (DefinitionView {
                        boundary_nodes: old(self)@.definition.boundary_nodes.push(target@),
                        ..old(self)@.definition
                    }));
                }
                Ok(())
            },
        }
    }
}

/// A definition bound to a worker that is driven by hand: one sync pass, then
/// done.  It never enters the poll loop.
#[derive(Debug)]
pub struct TestDefinition {
    pub running_def: RunningDefinition,
}

/// What one sync-and-stop pass does to the worker's state.  When the cheap
/// variant that reuses the existing local cache is requested and succeeds, no
/// full sync runs and its outcome argument is not consulted; otherwise the
/// requested-and-failed cheap attempt is counted as a sync failure and one
/// full sync runs.  A successful local reload at the end replaces the target
/// groups; the reload outcome is not counted.
pub open spec fn spec_sync_and_stop(
    w: WorkerModel,
    use_existing: bool,
    existing_ok: bool,
    full_ok: bool,
    loaded: Option<Seq<TargetGroupView>>,
) -> WorkerModel {
    let after_sync = if use_existing && existing_ok {
        WorkerModel { sync_success: crate::worker::sat_inc(w.sync_success), ..w }
    } else {
        let w1 = if use_existing {
            WorkerModel { sync_failure: crate::worker::sat_inc(w.sync_failure), ..w }
        } else {
            w
        };
        if full_ok {
            WorkerModel { sync_success: crate::worker::sat_inc(w1.sync_success), ..w1 }
        } else {
            WorkerModel { sync_failure: crate::worker::sat_inc(w1.sync_failure), ..w1 }
        }
    };
    match loaded {
        Some(groups) => WorkerModel { target_groups: groups, ..after_sync },
        None => after_sync,
    }
}

/// Whether a sync-and-stop pass still has to run the full sync, given whether
/// the cheap use-the-existing-cache variant was requested and how it went: a
/// missing or failed cheap attempt always falls back to one full sync.
pub fn needs_full_sync(use_existing: bool, existing_ok: bool) -> (r: bool)
    ensures
        r == (!use_existing || !existing_ok),
{
    !use_existing || !existing_ok
}

impl TestDefinition {
    pub fn new(definition: Definition) -> (r: TestDefinition)
        ensures
            r.running_def@.definition == definition@,
            r.running_def@.worker == WorkerModel::initial(),
    {
        TestDefinition { running_def: definition.run() }
    }

    /// Syncs the registry mirror once, updates the in-memory target groups,
    /// then stops.  The runtime performs the sync and load attempts and hands
    /// their outcomes in; when `use_existing` is set the cheap
    /// reuse-the-local-cache variant is tried first, and only its failure (or
    /// absence) lets the full sync's outcome count.
    pub fn sync_and_stop(
        &mut self,
        use_existing: bool,
        existing_ok: bool,
        full_ok: bool,
        loaded: Option<Vec<TargetGroup>>,
    )
        ensures
            final(self).running_def@.definition == old(self).running_def@.definition,
            final(self).running_def@.worker == spec_sync_and_stop(
                old(self).running_def@.worker,
                use_existing,
                existing_ok,
                full_ok,
                loaded.deep_view(),
            ),
    {
        let w = &mut self.running_def.worker;
        if use_existing && existing_ok {
            if w.sync_success < u64::MAX {
                w.sync_success = w.sync_success + 1;
            }
        } else {
            if use_existing {
                if w.sync_failure < u64::MAX {
                    w.sync_failure = w.sync_failure + 1;
                }
            }
            if full_ok {
                if w.sync_success < u64::MAX {
                    w.sync_success = w.sync_success + 1;
                }
            } else {
                if w.sync_failure < u64::MAX {
                    w.sync_failure = w.sync_failure + 1;
                }
            }
        }
        match loaded {
            Some(groups) => {
                w.target_groups = groups;
            },
            None => {},
        }
        proof {
            assert(final(self).running_def@.worker =~= spec_sync_and_stop(
                old(self).running_def@.worker,
                use_existing,
                existing_ok,
                full_ok,
                loaded.deep_view(),
            ));
        }
    }
}

} // verus!
