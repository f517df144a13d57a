//! The definitions supervisor: the sole owner of which network definitions are
//! currently running.  It validates start/stop batches as a whole before
//! mutating anything, enforces the protected-name rule, tears superseded
//! workers down before fresh ones take their place, and projects the registry
//! to the snapshot that is persisted after every mutating batch.
//!
//! The real runtime serializes calls into the supervisor through one exclusion
//! lock and owns the spawned workers; every decision those calls make is here.

use vstd::prelude::*;
use vstd::string::StringExecFns;
use crate::definition::BoundaryNode;
use crate::definition::Definition;
use crate::definition::DefinitionView;
use crate::definition::FSDefinition;
use crate::definition::TargetGroup;
use crate::definition::TargetGroupView;
use crate::definition::duplicate_definition;
use crate::running::has_boundary_node;
use crate::running::RunningDefinition;
use crate::running::RunningView;
use crate::worker::WorkerModel;

verus! {

/// How a start batch treats the definitions that are already running.
#[derive(Clone, Copy, Debug, PartialEq, Eq, Structural)]
pub enum StartMode {
    /// Every incoming definition must be new; nothing is torn down.
    AddOnly,
    /// The incoming batch replaces the whole registry.
    ReplaceAll,
}

/// One validation error of a start batch, naming the offending definition.
#[derive(Debug)]
pub enum StartDefinitionError {
    /// The name is already running, or appears twice in the incoming batch.
    AlreadyExists(String),
    /// The batch would delete the protected definition, which the
    /// configuration forbids.
    DeletionDisallowed(String),
}

pub ghost enum StartErrorView {
    AlreadyExists(Seq<char>),
    DeletionDisallowed(Seq<char>),
}

impl View for StartDefinitionError {
    type V = StartErrorView;

    open spec fn view(&self) -> StartErrorView {
        match self {
            StartDefinitionError::AlreadyExists(name) => StartErrorView::AlreadyExists(name@),
            StartDefinitionError::DeletionDisallowed(name) => StartErrorView::DeletionDisallowed(
                name@,
            ),
        }
    }
}

impl DeepView for StartDefinitionError {
    type V = StartErrorView;

    open spec fn deep_view(&self) -> StartErrorView {
        self.view()
    }
}

/// Every validation error of one start batch, reported together.
#[derive(Debug)]
pub struct StartDefinitionsError {
    pub errors: Vec<StartDefinitionError>,
}

/// One validation error of a stop batch, naming the offending definition.
#[derive(Debug)]
pub enum StopDefinitionError {
    /// The name is not running.
    DoesNotExist(String),
    /// The name is protected and the configuration forbids deleting it.
    DeletionDisallowed(String),
}

pub ghost enum StopErrorView {
    DoesNotExist(Seq<char>),
    DeletionDisallowed(Seq<char>),
}

impl View for StopDefinitionError {
    type V = StopErrorView;

    open spec fn view(&self) -> StopErrorView {
        match self {
            StopDefinitionError::DoesNotExist(name) => StopErrorView::DoesNotExist(name@),
            StopDefinitionError::DeletionDisallowed(name) => StopErrorView::DeletionDisallowed(
                name@,
            ),
        }
    }
}

impl DeepView for StopDefinitionError {
    type V = StopErrorView;

    open spec fn deep_view(&self) -> StopErrorView {
        self.view()
    }
}

/// Every validation error of one stop batch, reported together.
#[derive(Debug)]
pub struct StopDefinitionsError {
    pub errors: Vec<StopDefinitionError>,
}

/// The message of one start-batch error.
pub open spec fn start_error_text(e: StartErrorView) -> Seq<char> {
    match e {
        StartErrorView::AlreadyExists(name) => "definition "@ + name + " is already running"@,
        StartErrorView::DeletionDisallowed(name) => "deletion of "@ + name
            + " is disallowed without a replacement"@,
    }
}

/// The message of a whole start batch's errors: one bulleted line per error.
pub open spec fn start_errors_text(errs: Seq<StartErrorView>) -> Seq<char>
    decreases errs.len(),
{
    if errs.len() == 0 {
        Seq::empty()
    } else {
        "* "@ + start_error_text(errs[0]) + start_errors_text(errs.drop_first())
    }
}

/// The message of one stop-batch error.
pub open spec fn stop_error_text(e: StopErrorView) -> Seq<char> {
    match e {
        StopErrorView::DoesNotExist(name) => "definition "@ + name + " does not exist"@,
        StopErrorView::DeletionDisallowed(name) => "deletion of "@ + name
            + " is disallowed by configuration"@,
    }
}

/// The message of a whole stop batch's errors: one bulleted line per error.
pub open spec fn stop_errors_text(errs: Seq<StopErrorView>) -> Seq<char>
    decreases errs.len(),
{
    if errs.len() == 0 {
        Seq::empty()
    } else {
        "* "@ + stop_error_text(errs[0]) + stop_errors_text(errs.drop_first())
    }
}

impl StartDefinitionError {
    /// What this error says to an operator.
    pub fn message(&self) -> (r: String)
        ensures
            r@ == start_error_text(self@),
    {
        match self {
            StartDefinitionError::AlreadyExists(name) => {
                let mut r = String::from_str("definition ");
                r.append(name.as_str());
                r.append(" is already running");
                r
            },
            StartDefinitionError::DeletionDisallowed(name) => {
                let mut r = String::from_str("deletion of ");
                r.append(name.as_str());
                r.append(" is disallowed without a replacement");
                r
            },
        }
    }
}

impl StartDefinitionsError {
    /// What the whole batch's errors say to an operator.
    pub fn message(&self) -> (r: String)
        ensures
            r@ == start_errors_text(self.errors.deep_view()),
    {
        let ghost errs = self.errors.deep_view();
        let mut r = String::new();
        let mut i: usize = 0;
        proof {
            assert(errs.skip(0) =~= errs);
            assert(r@ + start_errors_text(errs) =~= start_errors_text(errs));
        }
        while i < self.errors.len()
            invariant
                i <= self.errors.len(),
                errs == self.errors.deep_view(),
                start_errors_text(errs) == r@ + start_errors_text(errs.skip(i as int)),
            decreases self.errors.len() - i,
        {
            let ghost suffix = errs.skip(i as int);
            let ghost r_prev = r@;
            proof {
                assert(suffix[0] == errs[i as int]);
                assert(suffix.drop_first() =~= errs.skip(i + 1));
            }
            r.append("* ");
            let m = self.errors[i].message();
            r.append(m.as_str());
            proof {
                assert(r_prev + start_errors_text(suffix) =~= r@ + start_errors_text(
                    errs.skip(i + 1),
                ));
            }
            i = i + 1;
        }
        proof {
            assert(errs.skip(self.errors.len() as int) =~= Seq::<StartErrorView>::empty());
            assert(r@ + Seq::<char>::empty() =~= r@);
        }
        r
    }
}

impl StopDefinitionError {
    /// What this error says to an operator.
    pub fn message(&self) -> (r: String)
        ensures
            r@ == stop_error_text(self@),
    {
        match self {
            StopDefinitionError::DoesNotExist(name) => {
                let mut r = String::from_str("definition ");
                r.append(name.as_str());
                r.append(" does not exist");
                r
            },
            StopDefinitionError::DeletionDisallowed(name) => {
                let mut r = String::from_str("deletion of ");
                r.append(name.as_str());
                r.append(" is disallowed by configuration");
                r
            },
        }
    }
}

impl StopDefinitionsError {
    /// What the whole batch's errors say to an operator.
    pub fn message(&self) -> (r: String)
        ensures
            r@ == stop_errors_text(self.errors.deep_view()),
    {
        let ghost errs = self.errors.deep_view();
        let mut r = String::new();
        let mut i: usize = 0;
        proof {
            assert(errs.skip(0) =~= errs);
            assert(r@ + stop_errors_text(errs) =~= stop_errors_text(errs));
        }
        while i < self.errors.len()
            invariant
                i <= self.errors.len(),
                errs == self.errors.deep_view(),
                stop_errors_text(errs) == r@ + stop_errors_text(errs.skip(i as int)),
            decreases self.errors.len() - i,
        {
            let ghost suffix = errs.skip(i as int);
            let ghost r_prev = r@;
            proof {
                assert(suffix[0] == errs[i as int]);
                assert(suffix.drop_first() =~= errs.skip(i + 1));
            }
            r.append("* ");
            let m = self.errors[i].message();
            r.append(m.as_str());
            proof {
                assert(r_prev + stop_errors_text(suffix) =~= r@ + stop_errors_text(
                    errs.skip(i + 1),
                ));
            }
            i = i + 1;
        }
        proof {
            assert(errs.skip(self.errors.len() as int) =~= Seq::<StopErrorView>::empty());
            assert(r@ + Seq::<char>::empty() =~= r@);
        }
        r
    }
}

/// The registry of running definitions, plus the protected-name
/// configuration: one distinguished definition name may not be deleted unless
/// the configuration explicitly allows it.
#[derive(Debug)]
pub struct DefinitionsSupervisor {
    pub definitions: Vec<RunningDefinition>,
    pub protected_name: String,
    pub allow_protected_deletion: bool,
}

#[verifier::ext_equal]
pub ghost struct SupervisorView {
    pub instances: Seq<RunningView>,
    pub protected_name: Seq<char>,
    pub allow_protected_deletion: bool,
}

impl View for DefinitionsSupervisor {
    type V = SupervisorView;

    open spec fn view(&self) -> SupervisorView {
        SupervisorView {
            instances: self.definitions.deep_view(),
            protected_name: self.protected_name@,
            allow_protected_deletion: self.allow_protected_deletion,
        }
    }
}

/// The names of a sequence of running instances, in registry order.
pub open spec fn names_of(instances: Seq<RunningView>) -> Seq<Seq<char>> {
    instances.map_values(|inst: RunningView| inst.definition.name)
}

/// The names of a start batch, in batch order.
pub open spec fn batch_names(batch: Seq<DefinitionView>) -> Seq<Seq<char>> {
    batch.map_values(|d: DefinitionView| d.name)
}

impl SupervisorView {
    /// The registry's names in order.
    pub open spec fn names(self) -> Seq<Seq<char>> {
        names_of(self.instances)
    }

    /// The registry's key set.
    pub open spec fn dom(self) -> Set<Seq<char>> {
        self.names().to_set()
    }

    pub open spec fn contains_name(self, name: Seq<char>) -> bool {
        self.names().contains(name)
    }

    /// The supervisor's invariant: registry names are unique, and every
    /// worker is well formed.
    pub open spec fn wf(self) -> bool {
        &&& forall|i: int, j: int|
            0 <= i < j < self.instances.len() ==> self.instances[i].definition.name
                != self.instances[j].definition.name
        &&& forall|i: int| 0 <= i < self.instances.len() ==> (#[trigger] self.instances[i]).worker.wf()
    }

    /// The configuration fields, which no registry operation changes.
    pub open spec fn same_config(self, other: SupervisorView) -> bool {
        &&& self.protected_name == other.protected_name
        &&& self.allow_protected_deletion == other.allow_protected_deletion
    }
}

/// The validation pass of a start batch, walked from the front: a name that is
/// already running (in add-only mode) or that an earlier batch entry already
/// claimed is reported as `AlreadyExists`; the names that passed are
/// accumulated in `accepted`.  This returns the errors.
pub open spec fn start_errors_rec(
    existing: Seq<Seq<char>>,
    accepted: Seq<Seq<char>>,
    batch: Seq<DefinitionView>,
    add_only: bool,
) -> Seq<StartErrorView>
    decreases batch.len(),
{
    if batch.len() == 0 {
        Seq::empty()
    } else {
        let name = batch[0].name;
        let rest = batch.drop_first();
        if (add_only && existing.contains(name)) || accepted.contains(name) {
            seq![StartErrorView::AlreadyExists(name)] + start_errors_rec(
                existing,
                accepted,
                rest,
                add_only,
            )
        } else {
            start_errors_rec(existing, accepted.push(name), rest, add_only)
        }
    }
}

/// The companion of [`start_errors_rec`]: the accepted names after the same
/// validation walk.
pub open spec fn accepted_after(
    existing: Seq<Seq<char>>,
    accepted: Seq<Seq<char>>,
    batch: Seq<DefinitionView>,
    add_only: bool,
) -> Seq<Seq<char>>
    decreases batch.len(),
{
    if batch.len() == 0 {
        accepted
    } else {
        let name = batch[0].name;
        let rest = batch.drop_first();
        if (add_only && existing.contains(name)) || accepted.contains(name) {
            accepted_after(existing, accepted, rest, add_only)
        } else {
            accepted_after(existing, accepted.push(name), rest, add_only)
        }
    }
}

/// Every validation error of a start batch against a supervisor state: the
/// per-name pass, then `DeletionDisallowed` when a replace-all batch omits the
/// protected name while its deletion is forbidden.
pub open spec fn start_errors(
    s: SupervisorView,
    batch: Seq<DefinitionView>,
    mode: StartMode,
) -> Seq<StartErrorView> {
    let existing = names_of(s.instances);
    let add_only = mode is AddOnly;
    let rec = start_errors_rec(existing, Seq::empty(), batch, add_only);
    let accepted = accepted_after(existing, Seq::empty(), batch, add_only);
    if mode is ReplaceAll && !s.allow_protected_deletion && !accepted.contains(s.protected_name) {
        rec + seq![StartErrorView::DeletionDisallowed(s.protected_name)]
    } else {
        rec
    }
}

/// The instances a start batch spawns: each definition bound to a fresh
/// worker that has observed nothing yet.
pub open spec fn fresh_instances(batch: Seq<DefinitionView>) -> Seq<RunningView> {
    batch.map_values(
        |d: DefinitionView| RunningView { definition: d, worker: WorkerModel::initial() },
    )
}

/// A batch that validates without error names each definition once, never
/// names an already-accepted name, and in add-only mode never names a running
/// definition.
pub proof fn lemma_validation_ok(
    existing: Seq<Seq<char>>,
    accepted: Seq<Seq<char>>,
    batch: Seq<DefinitionView>,
    add_only: bool,
)
    requires
        start_errors_rec(existing, accepted, batch, add_only).len() == 0,
    ensures
        forall|i: int, j: int|
            0 <= i < j < batch.len() ==> batch[i].name != batch[j].name,
        forall|i: int| 0 <= i < batch.len() ==> !accepted.contains(#[trigger] batch[i].name),
        add_only ==> forall|i: int|
            0 <= i < batch.len() ==> !existing.contains(#[trigger] batch[i].name),
    decreases batch.len(),
{
    if batch.len() > 0 {
        let name = batch[0].name;
        let rest = batch.drop_first();
        assert(!((add_only && existing.contains(name)) || accepted.contains(name)));
        lemma_validation_ok(existing, accepted.push(name), rest, add_only);
        assert forall|i: int, j: int|
            0 <= i < j < batch.len() implies batch[i].name != batch[j].name by {
            if i == 0 {
                assert(rest[j - 1] == batch[j]);
                assert(!accepted.push(name).contains(rest[j - 1].name));
                assert(accepted.push(name)[accepted.len() as int] == name);
            } else {
                assert(rest[i - 1] == batch[i]);
                assert(rest[j - 1] == batch[j]);
            }
        }
        assert forall|i: int| 0 <= i < batch.len() implies !accepted.contains(
            #[trigger] batch[i].name,
        ) by {
            if i > 0 {
                assert(rest[i - 1] == batch[i]);
                assert(!accepted.push(name).contains(rest[i - 1].name));
                if accepted.contains(batch[i].name) {
                    let w = choose|w: int|
                        0 <= w < accepted.len() && accepted[w] == batch[i].name;
                    assert(accepted.push(name)[w] == batch[i].name);
                }
            }
        }
        if add_only {
            assert forall|i: int| 0 <= i < batch.len() implies !existing.contains(
                #[trigger] batch[i].name,
            ) by {
                if i > 0 {
                    assert(rest[i - 1] == batch[i]);
                }
            }
        }
    }
}

impl DefinitionsSupervisor {
    /// A supervisor with an empty registry, watching over the given protected
    /// name.
    pub fn new(protected_name: String, allow_protected_deletion: bool) -> (r:
        DefinitionsSupervisor)
        ensures
            r@.instances == Seq::<RunningView>::empty(),
            r@.protected_name == protected_name@,
            r@.allow_protected_deletion == allow_protected_deletion,
            r@.wf(),
    {
        let r = DefinitionsSupervisor {
            definitions: Vec::new(),
            protected_name,
            allow_protected_deletion,
        };
        proof {
            assert(r@.instances =~= Seq::<RunningView>::empty());
        }
        r
    }
}

impl DefinitionsSupervisor {
    /// Whether a definition of this name is currently running.
    pub fn contains_name(&self, name: &String) -> (r: bool)
        ensures
            r == self@.contains_name(name@),
    {
        let mut i: usize = 0;
        while i < self.definitions.len()
            invariant
                i <= self.definitions.len(),
                forall|j: int| 0 <= j < i ==> self@.names()[j] != name@,
            decreases self.definitions.len() - i,
        {
            if self.definitions[i].definition.name == *name {
                proof {
                    assert(self@.names()[i as int] == name@);
                }
                return true;
            }
            i = i + 1;
        }
        false
    }

    /// Starts a batch of definitions.
    ///
    /// The batch is validated as a whole first: in add-only mode every
    /// incoming name must be new, duplicates within the batch are always
    /// refused, and a replace-all batch may not drop the protected name unless
    /// the configuration allows its deletion.  All offending names are
    /// reported together and nothing changes on error.
    ///
    /// On a valid batch, every superseded worker is cancelled and joined
    /// before any new worker is spawned: a definition's cache directory is
    /// keyed by its name alone, so a same-named successor may not run while
    /// its predecessor still owns those files.  Then one fresh worker is
    /// spawned per incoming definition.
    pub fn start(&mut self, definitions: Vec<Definition>, start_mode: StartMode) -> (r: Result<
        (),
        StartDefinitionsError,
    >)
        requires
            old(self)@.wf(),
        ensures
            final(self)@.same_config(old(self)@),
            final(self)@.wf(),
            r is Ok <==> start_errors(old(self)@, definitions.deep_view(), start_mode).len() == 0,
            r matches Err(e) ==> final(self)@ == old(self)@ && e.errors.deep_view()
                == start_errors(old(self)@, definitions.deep_view(), start_mode),
            r is Ok && start_mode is AddOnly ==> final(self)@.instances == old(self)@.instances
                + fresh_instances(definitions.deep_view()),
            r is Ok && start_mode is ReplaceAll ==> final(self)@.instances == fresh_instances(
                definitions.deep_view(),
            ),
            r is Ok && start_mode is AddOnly ==> final(self)@.dom() == old(self)@.dom()
                + batch_names(definitions.deep_view()).to_set(),
    {
        let ghost batch = definitions.deep_view();
        let ghost existing = names_of(old(self)@.instances);
        let add_only = start_mode == StartMode::AddOnly;

        let mut errors: Vec<StartDefinitionError> = Vec::new();
        let mut accepted: Vec<String> = Vec::new();
        let mut i: usize = 0;
        proof {
            assert(batch.skip(0) =~= batch);
            assert(errors.deep_view() =~= Seq::<StartErrorView>::empty());
            assert(accepted.deep_view() =~= Seq::<Seq<char>>::empty());
            assert(errors.deep_view() + start_errors_rec(existing, accepted.deep_view(), batch, add_only)
                =~= start_errors_rec(existing, Seq::empty(), batch, add_only));
        }
        while i < definitions.len()
            invariant
                i <= definitions.len(),
                *self == *old(self),
                old(self)@.wf(),
                add_only == (start_mode is AddOnly),
                batch == definitions.deep_view(),
                existing == names_of(old(self)@.instances),
                start_errors_rec(existing, Seq::empty(), batch, add_only) == errors.deep_view()
                    + start_errors_rec(existing, accepted.deep_view(), batch.skip(i as int), add_only),
                accepted_after(existing, Seq::empty(), batch, add_only) == accepted_after(
                    existing,
                    accepted.deep_view(),
                    batch.skip(i as int),
                    add_only,
                ),
            decreases definitions.len() - i,
        {
            let ghost suffix = batch.skip(i as int);
            let ghost acc_prev = accepted.deep_view();
            let ghost errs_prev = errors.deep_view();
            let name = &definitions[i].name;
            let in_existing = self.contains_name(name);
            let in_accepted = vec_contains_string(&accepted, name);
            proof {
                assert(batch[i as int].name == name@);
                assert(suffix[0] == batch[i as int]);
                assert(suffix.drop_first() =~= batch.skip(i + 1));
            }
            if add_only && in_existing {
                errors.push(StartDefinitionError::AlreadyExists(name.clone()));
            } else if in_accepted {
                errors.push(StartDefinitionError::AlreadyExists(name.clone()));
            } else {
                accepted.push(name.clone());
            }
            proof {
                if (add_only && existing.contains(name@)) || acc_prev.contains(name@) {
                    assert(start_errors_rec(existing, acc_prev, suffix, add_only)
                        =~= seq![StartErrorView::AlreadyExists(name@)] + start_errors_rec(
                        existing,
                        acc_prev,
                        batch.skip(i + 1),
                        add_only,
                    ));
                    assert(errors.deep_view() =~= errs_prev.push(
                        StartErrorView::AlreadyExists(name@),
                    ));
                    assert(errs_prev + start_errors_rec(existing, acc_prev, suffix, add_only)
                        =~= errors.deep_view() + start_errors_rec(
                        existing,
                        accepted.deep_view(),
                        batch.skip(i + 1),
                        add_only,
                    ));
                } else {
                    assert(accepted.deep_view() =~= acc_prev.push(name@));
                    assert(start_errors_rec(existing, acc_prev, suffix, add_only)
                        == start_errors_rec(
                        existing,
                        accepted.deep_view(),
                        batch.skip(i + 1),
                        add_only,
                    ));
                    assert(accepted_after(existing, acc_prev, suffix, add_only) == accepted_after(
                        existing,
                        accepted.deep_view(),
                        batch.skip(i + 1),
                        add_only,
                    ));
                }
            }
            i = i + 1;
        }
        proof {
            assert(batch.skip(definitions.len() as int) =~= Seq::<DefinitionView>::empty());
            assert(errors.deep_view() + Seq::<StartErrorView>::empty() =~= errors.deep_view());
        }

        if !add_only && !self.allow_protected_deletion {
            if !vec_contains_string(&accepted, &self.protected_name) {
                errors.push(
                    StartDefinitionError::DeletionDisallowed(self.protected_name.clone()),
                );
            }
        }
        proof {
            assert(errors.deep_view() =~= start_errors(old(self)@, batch, start_mode));
        }

        if errors.len() > 0 {
            return Err(StartDefinitionsError { errors });
        }
        proof {
            lemma_validation_ok(existing, Seq::empty(), batch, add_only);
        }

        // Teardown precedes every spawn: in replace-all mode each running
        // worker is cancelled and joined here, before the loop below starts
        // any successor.
        if !add_only {
            while self.definitions.len() > 0
                invariant
                    self.protected_name == old(self).protected_name,
                    self.allow_protected_deletion == old(self).allow_protected_deletion,
                decreases self.definitions.len(),
            {
                if let Some(mut inst) = self.definitions.pop() {
                    inst.end();
                }
            }
        }
        let ghost base: Seq<RunningView> = if add_only {
            old(self)@.instances
        } else {
            Seq::empty()
        };
        proof {
            assert(self@.instances =~= base);
        }

        let ghost nbase = base.len();
        let mut defs = definitions;
        while defs.len() > 0
            invariant
                defs@.len() <= batch.len(),
                nbase == base.len(),
                forall|j: int|
                    0 <= j < defs@.len() ==> (#[trigger] defs@[j])@ == batch[batch.len()
                        - defs@.len() + j],
                self.definitions@.len() == nbase + batch.len() - defs@.len(),
                forall|j: int| 0 <= j < nbase ==> (#[trigger] self.definitions@[j])@ == base[j],
                forall|j: int|
                    nbase <= j < self.definitions@.len() ==> (#[trigger] self.definitions@[j])@
                        == (RunningView {
                        definition: batch[j - nbase],
                        worker: WorkerModel::initial(),
                    }),
                self.protected_name == old(self).protected_name,
                self.allow_protected_deletion == old(self).allow_protected_deletion,
            decreases defs.len(),
        {
            let d = defs.remove(0);
            let rd = d.run();
            self.definitions.push(rd);
        }
        proof {
            assert(final(self)@.instances =~= base + fresh_instances(batch));
            lemma_start_result_wf(old(self)@, batch, add_only, final(self)@);
            if add_only {
                assert(final(self)@.names() =~= existing + batch_names(batch));
                lemma_to_set_concat(existing, batch_names(batch));
            }
        }
        Ok(())
    }
}

/// The `DoesNotExist` errors of a stop batch: one for each requested name not
/// present in the registry, in request order.
pub open spec fn dne_errors(registry: Seq<Seq<char>>, names: Seq<Seq<char>>) -> Seq<StopErrorView>
    decreases names.len(),
{
    if names.len() == 0 {
        Seq::empty()
    } else {
        let head: Seq<StopErrorView> = if !registry.contains(names[0]) {
            seq![StopErrorView::DoesNotExist(names[0])]
        } else {
            Seq::empty()
        };
        head + dne_errors(registry, names.drop_first())
    }
}

/// The `DeletionDisallowed` errors of a stop batch: one for each request for
/// the protected name while its deletion is forbidden, in request order.
pub open spec fn protected_stop_errors(
    names: Seq<Seq<char>>,
    allow: bool,
    protected: Seq<char>,
) -> Seq<StopErrorView>
    decreases names.len(),
{
    if names.len() == 0 {
        Seq::empty()
    } else {
        let head: Seq<StopErrorView> = if names[0] == protected && !allow {
            seq![StopErrorView::DeletionDisallowed(names[0])]
        } else {
            Seq::empty()
        };
        head + protected_stop_errors(names.drop_first(), allow, protected)
    }
}

/// Every validation error of a stop batch against a supervisor state: first
/// the names that are not running, then the protected-name refusals.
pub open spec fn stop_errors(s: SupervisorView, names: Seq<Seq<char>>) -> Seq<StopErrorView> {
    dne_errors(names_of(s.instances), names) + protected_stop_errors(
        names,
        s.allow_protected_deletion,
        s.protected_name,
    )
}

/// When the configuration allows deleting the protected name, a stop batch
/// never earns a `DeletionDisallowed` error.
pub proof fn lemma_protected_stop_none(names: Seq<Seq<char>>, protected: Seq<char>)
    ensures
        protected_stop_errors(names, true, protected) == Seq::<StopErrorView>::empty(),
    decreases names.len(),
{
    if names.len() > 0 {
        lemma_protected_stop_none(names.drop_first(), protected);
        assert(protected_stop_errors(names, true, protected) =~= Seq::<StopErrorView>::empty());
    }
}

/// A stop batch that names only running definitions, and never the protected
/// name while its deletion is forbidden, validates without error: such a batch
/// is owed success.
pub proof fn lemma_valid_stop_no_errors(s: SupervisorView, names: Seq<Seq<char>>)
    requires
        forall|i: int| 0 <= i < names.len() ==> s.contains_name(#[trigger] names[i]),
        forall|i: int|
            0 <= i < names.len() ==> !(#[trigger] names[i] == s.protected_name
                && !s.allow_protected_deletion),
    ensures
        stop_errors(s, names).len() == 0,
{
    lemma_all_present_no_dne(names_of(s.instances), names);
    lemma_unprotected_no_stop_errors(names, s.allow_protected_deletion, s.protected_name);
}

proof fn lemma_all_present_no_dne(registry: Seq<Seq<char>>, names: Seq<Seq<char>>)
    requires
        forall|i: int| 0 <= i < names.len() ==> registry.contains(#[trigger] names[i]),
    ensures
        dne_errors(registry, names).len() == 0,
    decreases names.len(),
{
    if names.len() > 0 {
        assert(registry.contains(names[0]));
        assert forall|i: int| 0 <= i < names.drop_first().len() implies registry.contains(
            #[trigger] names.drop_first()[i],
        ) by {
            assert(names.drop_first()[i] == names[i + 1]);
        }
        lemma_all_present_no_dne(registry, names.drop_first());
    }
}

proof fn lemma_unprotected_no_stop_errors(
    names: Seq<Seq<char>>,
    allow: bool,
    protected: Seq<char>,
)
    requires
        forall|i: int| 0 <= i < names.len() ==> !(#[trigger] names[i] == protected && !allow),
    ensures
        protected_stop_errors(names, allow, protected).len() == 0,
    decreases names.len(),
{
    if names.len() > 0 {
        assert(!(names[0] == protected && !allow));
        assert forall|i: int| 0 <= i < names.drop_first().len() implies !(
        #[trigger] names.drop_first()[i] == protected && !allow) by {
            assert(names.drop_first()[i] == names[i + 1]);
        }
        lemma_unprotected_no_stop_errors(names.drop_first(), allow, protected);
    }
}

/// The predicate on registry instances that a stop batch leaves in place.
pub open spec fn keeps(names: Seq<Seq<char>>) -> spec_fn(RunningView) -> bool {
    |inst: RunningView| !names.contains(inst.definition.name)
}

/// Filtering a registry keeps it well formed: the surviving instances keep
/// their unique names and well-formed workers.
pub proof fn lemma_filter_wf(s: Seq<RunningView>, pred: spec_fn(RunningView) -> bool)
    requires
        forall|i: int, j: int|
            0 <= i < j < s.len() ==> s[i].definition.name != s[j].definition.name,
        forall|i: int| 0 <= i < s.len() ==> (#[trigger] s[i]).worker.wf(),
    ensures
        forall|i: int, j: int|
            0 <= i < j < s.filter(pred).len() ==> s.filter(pred)[i].definition.name != s.filter(
                pred,
            )[j].definition.name,
        forall|i: int|
            0 <= i < s.filter(pred).len() ==> (#[trigger] s.filter(pred)[i]).worker.wf(),
    decreases s.len(),
{
    reveal(Seq::filter);
    if s.len() > 0 {
        let prefix = s.drop_last();
        lemma_filter_wf(prefix, pred);
        let f = s.filter(pred);
        let fp = prefix.filter(pred);
        if pred(s.last()) {
            assert(f == fp.push(s.last()));
            assert forall|i: int, j: int|
                0 <= i < j < f.len() implies f[i].definition.name != f[j].definition.name by {
                if j == f.len() - 1 {
                    assert(f[i] == fp[i]);
                    assert(fp.contains(fp[i]));
                    prefix.lemma_filter_contains_rev(pred, fp[i]);
                    let k = choose|k: int| 0 <= k < prefix.len() && prefix[k] == fp[i];
                    assert(s[k] == fp[i]);
                    assert(s[k].definition.name != s[s.len() - 1].definition.name);
                } else {
                    assert(f[i] == fp[i] && f[j] == fp[j]);
                }
            }
            assert forall|i: int| 0 <= i < f.len() implies (#[trigger] f[i]).worker.wf() by {
                if i < f.len() - 1 {
                    assert(f[i] == fp[i]);
                } else {
                    assert(f[i] == s.last());
                    assert(s[s.len() - 1].worker.wf());
                }
            }
        }
    }
}

/// Stopping a set of names removes exactly those names from the registry's
/// key set.
pub proof fn lemma_stop_dom(insts: Seq<RunningView>, names: Seq<Seq<char>>)
    ensures
        names_of(insts.filter(keeps(names))).to_set() == names_of(insts).to_set().difference(
            names.to_set(),
        ),
{
    let pred = keeps(names);
    let f = insts.filter(pred);
    assert forall|x: Seq<char>| names_of(f).to_set().contains(x) implies names_of(
        insts,
    ).to_set().difference(names.to_set()).contains(x) by {
        let i = choose|i: int| 0 <= i < names_of(f).len() && names_of(f)[i] == x;
        assert(f[i].definition.name == x);
        insts.lemma_filter_pred(pred, i);
        assert(f.contains(f[i]));
        insts.lemma_filter_contains_rev(pred, f[i]);
        let k = choose|k: int| 0 <= k < insts.len() && insts[k] == f[i];
        assert(names_of(insts)[k] == x);
    }
    assert forall|x: Seq<char>| names_of(insts).to_set().difference(names.to_set()).contains(
        x,
    ) implies names_of(f).to_set().contains(x) by {
        let k = choose|k: int| 0 <= k < names_of(insts).len() && names_of(insts)[k] == x;
        assert(insts[k].definition.name == x);
        assert(pred(insts[k]));
        insts.lemma_filter_contains(pred, k);
        let m = choose|m: int| 0 <= m < f.len() && f[m] == insts[k];
        assert(names_of(f)[m] == x);
    }
    assert(names_of(f).to_set() =~= names_of(insts).to_set().difference(names.to_set()));
}

impl DefinitionsSupervisor {
    /// Stops the named definitions.
    ///
    /// The batch is validated as a whole first: a name that is not running is
    /// reported as `DoesNotExist`, a request to stop the protected name while
    /// its deletion is forbidden as `DeletionDisallowed`, every offending name
    /// together.  On any error nothing is stopped; otherwise each named
    /// instance is cancelled, joined, and removed from the registry.
    pub fn stop(&mut self, definition_names: Vec<String>) -> (r: Result<(), StopDefinitionsError>)
        requires
            old(self)@.wf(),
        ensures
            final(self)@.same_config(old(self)@),
            final(self)@.wf(),
            r is Ok <==> stop_errors(old(self)@, definition_names.deep_view()).len() == 0,
            r matches Err(e) ==> final(self)@ == old(self)@ && e.errors.deep_view() == stop_errors(
                old(self)@,
                definition_names.deep_view(),
            ),
            r is Ok ==> final(self)@.instances == old(self)@.instances.filter(
                keeps(definition_names.deep_view()),
            ),
            r is Ok ==> final(self)@.dom() == old(self)@.dom().difference(
                definition_names.deep_view().to_set(),
            ),
    {
        let ghost names = definition_names.deep_view();
        let ghost registry = names_of(old(self)@.instances);

        let mut errors: Vec<StopDefinitionError> = Vec::new();
        let mut i: usize = 0;
        proof {
            assert(names.skip(0) =~= names);
            assert(errors.deep_view() =~= Seq::<StopErrorView>::empty());
            assert(errors.deep_view() + dne_errors(registry, names) =~= dne_errors(
                registry,
                names,
            ));
        }
        while i < definition_names.len()
            invariant
                i <= definition_names.len(),
                *self == *old(self),
                old(self)@.wf(),
                names == definition_names.deep_view(),
                registry == names_of(old(self)@.instances),
                dne_errors(registry, names) == errors.deep_view() + dne_errors(
                    registry,
                    names.skip(i as int),
                ),
            decreases definition_names.len() - i,
        {
            let ghost suffix = names.skip(i as int);
            let ghost errs_prev = errors.deep_view();
            let name = &definition_names[i];
            proof {
                assert(suffix[0] == names[i as int]);
                assert(names[i as int] == name@);
                assert(suffix.drop_first() =~= names.skip(i + 1));
            }
            if !self.contains_name(name) {
                errors.push(StopDefinitionError::DoesNotExist(name.clone()));
                proof {
                    assert(errors.deep_view() =~= errs_prev.push(
                        StopErrorView::DoesNotExist(name@),
                    ));
                    assert(errs_prev + dne_errors(registry, suffix) =~= errors.deep_view()
                        + dne_errors(registry, names.skip(i + 1)));
                }
            } else {
                proof {
                    assert(errs_prev + dne_errors(registry, suffix) =~= errors.deep_view()
                        + dne_errors(registry, names.skip(i + 1)));
                }
            }
            i = i + 1;
        }
        proof {
            assert(names.skip(definition_names.len() as int) =~= Seq::<Seq<char>>::empty());
            assert(errors.deep_view() + Seq::<StopErrorView>::empty() =~= errors.deep_view());
            assert(errors.deep_view() == dne_errors(registry, names));
        }

        let ghost allow = self.allow_protected_deletion;
        let ghost protected = old(self)@.protected_name;
        if !self.allow_protected_deletion {
            let mut j: usize = 0;
            proof {
                assert(names.skip(0) =~= names);
                assert(errors.deep_view() + protected_stop_errors(names, allow, protected)
                    =~= dne_errors(registry, names) + protected_stop_errors(
                    names,
                    allow,
                    protected,
                ));
            }
            while j < definition_names.len()
                invariant
                    j <= definition_names.len(),
                    *self == *old(self),
                    !old(self)@.allow_protected_deletion,
                    allow == old(self)@.allow_protected_deletion,
                    protected == old(self)@.protected_name,
                    names == definition_names.deep_view(),
                    registry == names_of(old(self)@.instances),
                    dne_errors(registry, names) + protected_stop_errors(names, allow, protected)
                        == errors.deep_view() + protected_stop_errors(
                        names.skip(j as int),
                        allow,
                        protected,
                    ),
                decreases definition_names.len() - j,
            {
                let ghost suffix = names.skip(j as int);
                let ghost errs_prev = errors.deep_view();
                let name = &definition_names[j];
                proof {
                    assert(suffix[0] == names[j as int]);
                    assert(names[j as int] == name@);
                    assert(suffix.drop_first() =~= names.skip(j + 1));
                }
                if *name == self.protected_name {
                    errors.push(StopDefinitionError::DeletionDisallowed(name.clone()));
                    proof {
                        assert(errors.deep_view() =~= errs_prev.push(
                            StopErrorView::DeletionDisallowed(name@),
                        ));
                        assert(errs_prev + protected_stop_errors(suffix, allow, protected)
                            =~= errors.deep_view() + protected_stop_errors(
                            names.skip(j + 1),
                            allow,
                            protected,
                        ));
                    }
                } else {
                    proof {
                        assert(errs_prev + protected_stop_errors(suffix, allow, protected)
                            =~= errors.deep_view() + protected_stop_errors(
                            names.skip(j + 1),
                            allow,
                            protected,
                        ));
                    }
                }
                j = j + 1;
            }
            proof {
                assert(names.skip(definition_names.len() as int) =~= Seq::<Seq<char>>::empty());
                assert(errors.deep_view() + Seq::<StopErrorView>::empty() =~= errors.deep_view());
            }
        } else {
            proof {
                lemma_protected_stop_none(names, protected);
                assert(errors.deep_view() + Seq::<StopErrorView>::empty() =~= errors.deep_view());
            }
        }
        proof {
            assert(errors.deep_view() == stop_errors(old(self)@, names));
        }

        if errors.len() > 0 {
            return Err(StopDefinitionsError { errors });
        }

        // Every stopped worker is cancelled and joined before its instance
        // leaves the registry; the survivors keep their order.
        let ghost insts = old(self)@.instances;
        let ghost pred = keeps(names);
        let mut kept: Vec<RunningDefinition> = Vec::new();
        proof {
            assert(insts.take(0) =~= Seq::<RunningView>::empty());
            reveal(Seq::filter);
            assert(kept.deep_view() =~= insts.take(0).filter(pred));
        }
        while self.definitions.len() > 0
            invariant
                self.definitions@.len() <= insts.len(),
                insts == old(self)@.instances,
                names == definition_names.deep_view(),
                pred == keeps(names),
                forall|j: int|
                    0 <= j < self.definitions@.len() ==> (#[trigger] self.definitions@[j])@
                        == insts[insts.len() - self.definitions@.len() + j],
                kept.deep_view() == insts.take(insts.len() - self.definitions@.len()).filter(
                    pred,
                ),
                self.protected_name == old(self).protected_name,
                self.allow_protected_deletion == old(self).allow_protected_deletion,
            decreases self.definitions.len(),
        {
            let ghost k = insts.len() - self.definitions@.len();
            let mut inst = self.definitions.remove(0);
            proof {
                assert(inst@ == insts[k as int]);
                reveal(Seq::filter);
                assert(insts.take(k + 1).drop_last() =~= insts.take(k as int));
                assert(insts.take(k + 1).last() == insts[k as int]);
            }
            if vec_contains_string(&definition_names, &inst.definition.name) {
                inst.end();
                proof {
                    assert(!pred(insts[k as int]));
                    assert(kept.deep_view() =~= insts.take(k + 1).filter(pred));
                }
            } else {
                kept.push(inst);
                proof {
                    assert(pred(insts[k as int]));
                    assert(kept.deep_view() =~= insts.take(k + 1).filter(pred));
                }
            }
        }
        self.definitions = kept;
        proof {
            assert(insts.take(insts.len() as int) =~= insts);
            assert(final(self)@.instances == insts.filter(pred));
            lemma_filter_wf(insts, pred);
            lemma_stop_dom(insts, names);
            assert(names_of(final(self)@.instances) =~= names_of(insts.filter(pred)));
        }
        Ok(())
    }

    /// Stops every running definition and empties the registry.  This is the
    /// shutdown path: it bypasses the protected-name rule, and every worker is
    /// cancelled and joined.
    pub fn end(&mut self)
        ensures
            final(self)@.same_config(old(self)@),
            final(self)@.instances == Seq::<RunningView>::empty(),
            final(self)@.wf(),
    {
        while self.definitions.len() > 0
            invariant
                self.protected_name == old(self).protected_name,
                self.allow_protected_deletion == old(self).allow_protected_deletion,
            decreases self.definitions.len(),
        {
            if let Some(mut inst) = self.definitions.pop() {
                inst.end();
            }
        }
        proof {
            assert(final(self)@.instances =~= Seq::<RunningView>::empty());
        }
    }

    /// Seeds the registry from a persisted snapshot, if one was found: the
    /// snapshot's definitions are reloaded and started as an add-only batch.
    /// With no snapshot, nothing changes.
    pub fn load_or_create_defs(&mut self, snapshot: Option<Vec<FSDefinition>>) -> (r: Result<
        (),
        StartDefinitionsError,
    >)
        requires
            old(self)@.wf(),
        ensures
            final(self)@.same_config(old(self)@),
            final(self)@.wf(),
            snapshot is None ==> r is Ok && final(self)@ == old(self)@,
            snapshot matches Some(defs) ==> {
                &&& (r is Ok <==> start_errors(old(self)@, defs.deep_view(), StartMode::AddOnly).len()
                    == 0)
                &&& (r matches Err(e) ==> final(self)@ == old(self)@ && e.errors.deep_view()
                    == start_errors(old(self)@, defs.deep_view(), StartMode::AddOnly))
                &&& (r is Ok ==> final(self)@.instances == old(self)@.instances + fresh_instances(
                    defs.deep_view(),
                ))
            },
    {
        match snapshot {
            None => Ok(()),
            Some(fs_defs) => {
                let ghost fsv = fs_defs.deep_view();
                let mut defs: Vec<Definition> = Vec::new();
                let mut rem = fs_defs;
                while rem.len() > 0
                    invariant
                        defs@.len() + rem@.len() == fsv.len(),
                        forall|j: int| 0 <= j < defs@.len() ==> (#[trigger] defs@[j])@ == fsv[j],
                        forall|j: int|
                            0 <= j < rem@.len() ==> (#[trigger] rem@[j])@ == fsv[defs@.len() + j],
                    decreases rem.len(),
                {
                    let fd = rem.remove(0);
                    defs.push(Definition::from(fd));
                }
                proof {
                    assert(defs.deep_view() =~= fsv);
                }
                self.start(defs, StartMode::AddOnly)
            },
        }
    }

    /// The persisted projection of the registry: every running definition's
    /// static configuration, in registry order.  This is what is written to
    /// the snapshot file after each mutating batch.
    pub fn snapshot_defs(&self) -> (r: Vec<FSDefinition>)
        ensures
            r.deep_view() == self@.instances.map_values(|inst: RunningView| inst.definition),
    {
        let mut r: Vec<FSDefinition> = Vec::new();
        let mut i: usize = 0;
        while i < self.definitions.len()
            invariant
                i <= self.definitions.len(),
                r@.len() == i,
                forall|j: int| 0 <= j < i ==> (#[trigger] r@[j])@ == self@.instances[j].definition,
            decreases self.definitions.len() - i,
        {
            let d = duplicate_definition(&self.definitions[i].definition);
            r.push(FSDefinition::from(d));
            i = i + 1;
        }
        proof {
            assert(r.deep_view() =~= self@.instances.map_values(
                |inst: RunningView| inst.definition,
            ));
        }
        r
    }
}

/// The index of the one instance carrying this name.
pub open spec fn index_of_name(instances: Seq<RunningView>, name: Seq<char>) -> int {
    choose|i: int| 0 <= i < instances.len() && instances[i].definition.name == name
}

/// The one instance carrying this name.
pub open spec fn instance_named(instances: Seq<RunningView>, name: Seq<char>) -> RunningView {
    instances[index_of_name(instances, name)]
}

/// The error of querying a definition name that is not running.
#[derive(Debug)]
pub struct NameNotFound {
    pub name: String,
}

/// The error of attaching a boundary node through the supervisor.
#[derive(Debug)]
pub enum AddBoundaryNodeError {
    /// No definition of this name is running.
    NotFound(String),
    /// The definition already carries a boundary node of this name.
    AlreadyExists(String),
}

pub ghost enum AddBnErrorView {
    NotFound(Seq<char>),
    AlreadyExists(Seq<char>),
}

impl View for AddBoundaryNodeError {
    type V = AddBnErrorView;

    open spec fn view(&self) -> AddBnErrorView {
        match self {
            AddBoundaryNodeError::NotFound(name) => AddBnErrorView::NotFound(name@),
            AddBoundaryNodeError::AlreadyExists(name) => AddBnErrorView::AlreadyExists(name@),
        }
    }
}

impl DefinitionsSupervisor {
    /// The registry position of the named instance, when one is running.
    fn find_index(&self, name: &String) -> (r: Option<usize>)
        requires
            self@.wf(),
        ensures
            r is Some <==> self@.contains_name(name@),
            r matches Some(i) ==> i < self@.instances.len() && i as int == index_of_name(
                self@.instances,
                name@,
            ) && self@.instances[i as int].definition.name == name@,
    {
        let mut i: usize = 0;
        while i < self.definitions.len()
            invariant
                i <= self.definitions.len(),
                self@.wf(),
                forall|j: int| 0 <= j < i ==> self@.instances[j].definition.name != name@,
            decreases self.definitions.len() - i,
        {
            if self.definitions[i].definition.name == *name {
                proof {
                    assert(self@.instances[i as int].definition.name == name@);
                    assert(self@.names()[i as int] == name@);
                    let j = index_of_name(self@.instances, name@);
                    assert(0 <= j < self@.instances.len() && self@.instances[j].definition.name
                        == name@);
                }
                return Some(i);
            }
            i = i + 1;
        }
        proof {
            if self@.contains_name(name@) {
                let w = choose|w: int|
                    0 <= w < self@.names().len() && self@.names()[w] == name@;
                assert(self@.instances[w].definition.name == name@);
            }
        }
        None
    }

    /// The target groups of one job type served by the named definition, read
    /// from its worker's most recently loaded local state.  A name that is not
    /// running is reported as not found; no fetching is ever triggered.
    pub fn get_target_groups(&self, name: &String, job_type: &String) -> (r: Result<
        Vec<TargetGroup>,
        NameNotFound,
    >)
        requires
            self@.wf(),
        ensures
            r is Ok <==> self@.contains_name(name@),
            r matches Ok(groups) ==> groups.deep_view() == instance_named(
                self@.instances,
                name@,
            ).worker.target_groups.filter(|g: TargetGroupView| g.job_type == job_type@),
            r matches Err(e) ==> e.name@ == name@,
    {
        match self.find_index(name) {
            Some(i) => Ok(self.definitions[i].get_target_groups(job_type)),
            None => Err(NameNotFound { name: name.clone() }),
        }
    }

    /// Attaches a boundary-node target to the named running definition.  A
    /// name that is not running is reported as not found; a duplicate
    /// boundary-node name within that definition is refused; an instance whose
    /// worker has already exited silently drops the request.
    pub fn add_boundary_node(&mut self, name: &String, target: BoundaryNode) -> (r: Result<
        (),
        AddBoundaryNodeError,
    >)
        requires
            old(self)@.wf(),
        ensures
            final(self)@.same_config(old(self)@),
            final(self)@.wf(),
            r is Ok || final(self)@ == old(self)@,
            !old(self)@.contains_name(name@) ==> final(self)@ == old(self)@ && (r matches Err(e)
                && e@ == AddBnErrorView::NotFound(name@)),
            old(self)@.contains_name(name@) ==> ({
                let idx = index_of_name(old(self)@.instances, name@);
                let inst = old(self)@.instances[idx];
                &&& (inst.worker.is_terminal() ==> r is Ok && final(self)@ == old(self)@)
                &&& (!inst.worker.is_terminal() ==> {
                    &&& (r is Ok <==> !has_boundary_node(
                        inst.definition.boundary_nodes,
                        target@.name,
                    ))
                    &&& (r matches Err(e) ==> e@ == AddBnErrorView::AlreadyExists(target@.name))
                    &&& (r is Ok ==> final(self)@.instances == old(self)@.instances.update(
                        idx,
                        RunningView {
                            definition: DefinitionView {
                                boundary_nodes: inst.definition.boundary_nodes.push(target@),
                                ..inst.definition
                            },
                            worker: inst.worker,
                        },
                    ))
                })
            }),
    {
        match self.find_index(name) {
            None => Err(AddBoundaryNodeError::NotFound(name.clone())),
            Some(i) => {
                let ghost before = self@.instances;
                let ghost idx = i as int;
                let mut inst = self.definitions.remove(i);
                let res = inst.add_boundary_node(target);
                self.definitions.insert(i, inst);
                proof {
                    assert forall|j: int| 0 <= j < final(self)@.instances.len() && j != idx implies
                        final(self)@.instances[j] == before[j] by {
                        if j < idx {
                            assert(self.definitions@[j] == old(self).definitions@[j]);
                        } else {
                            assert(self.definitions@[j] == old(self).definitions@[j]);
                        }
                    }
                    assert(final(self)@.instances.len() == before.len());
                    if res is Ok && !before[idx].worker.is_terminal() {
                        assert(final(self)@.instances =~= before.update(
                            idx,
                            RunningView {
                                definition: DefinitionView {
                                    boundary_nodes: before[idx].definition.boundary_nodes.push(
                                        target@,
                                    ),
                                    ..before[idx].definition
                                },
                                worker: before[idx].worker,
                            },
                        ));
                    } else {
                        assert(final(self)@.instances =~= before);
                    }
                    assert forall|a: int, b: int|
                        0 <= a < b < final(self)@.instances.len() implies final(self)@.instances[a].definition.name
                        != final(self)@.instances[b].definition.name by {
                        assert(final(self)@.instances[a].definition.name
                            == before[a].definition.name);
                        assert(final(self)@.instances[b].definition.name
                            == before[b].definition.name);
                    }
                    assert forall|a: int| 0 <= a < final(self)@.instances.len() implies (
                    #[trigger] final(self)@.instances[a]).worker.wf() by {
                        assert(final(self)@.instances[a].worker == before[a].worker);
                    }
                }
                match res {
                    Ok(()) => Ok(()),
                    Err(e) => Err(AddBoundaryNodeError::AlreadyExists(e.name)),
                }
            },
        }
    }
}

proof fn lemma_rec_reports_existing(
    existing: Seq<Seq<char>>,
    accepted: Seq<Seq<char>>,
    batch: Seq<DefinitionView>,
    i: int,
)
    requires
        0 <= i < batch.len(),
        existing.contains(batch[i].name),
    ensures
        start_errors_rec(existing, accepted, batch, true).contains(
            StartErrorView::AlreadyExists(batch[i].name),
        ),
    decreases batch.len(),
{
    let name = batch[0].name;
    let rest = batch.drop_first();
    let errs = start_errors_rec(existing, accepted, batch, true);
    if existing.contains(name) || accepted.contains(name) {
        let tail = start_errors_rec(existing, accepted, rest, true);
        if i == 0 {
            assert(errs[0] == StartErrorView::AlreadyExists(name));
        } else {
            assert(rest[i - 1] == batch[i]);
            lemma_rec_reports_existing(existing, accepted, rest, i - 1);
            let w = choose|w: int|
                0 <= w < tail.len() && tail[w] == StartErrorView::AlreadyExists(batch[i].name);
            assert(errs[1 + w] == tail[w]);
        }
    } else {
        assert(i != 0);
        assert(rest[i - 1] == batch[i]);
        lemma_rec_reports_existing(existing, accepted.push(name), rest, i - 1);
    }
}

/// An add-only start batch that names a running definition is refused: the
/// batch's errors carry `AlreadyExists` for that name, so the whole batch
/// fails and the registry stays unchanged.
pub proof fn lemma_add_only_rejects_existing(
    s: SupervisorView,
    batch: Seq<DefinitionView>,
    i: int,
)
    requires
        0 <= i < batch.len(),
        s.contains_name(batch[i].name),
    ensures
        start_errors(s, batch, StartMode::AddOnly).contains(
            StartErrorView::AlreadyExists(batch[i].name),
        ),
        start_errors(s, batch, StartMode::AddOnly).len() > 0,
{
    lemma_rec_reports_existing(names_of(s.instances), Seq::empty(), batch, i);
    let errs = start_errors(s, batch, StartMode::AddOnly);
    let w = choose|w: int|
        0 <= w < errs.len() && errs[w] == StartErrorView::AlreadyExists(batch[i].name);
    assert(errs.len() > 0);
}

proof fn lemma_accepted_subset(
    existing: Seq<Seq<char>>,
    accepted: Seq<Seq<char>>,
    batch: Seq<DefinitionView>,
    add_only: bool,
    x: Seq<char>,
)
    requires
        accepted_after(existing, accepted, batch, add_only).contains(x),
    ensures
        accepted.contains(x) || batch_names(batch).contains(x),
    decreases batch.len(),
{
    if batch.len() > 0 {
        let name = batch[0].name;
        let rest = batch.drop_first();
        if (add_only && existing.contains(name)) || accepted.contains(name) {
            lemma_accepted_subset(existing, accepted, rest, add_only, x);
            if batch_names(rest).contains(x) {
                let w = choose|w: int|
                    0 <= w < batch_names(rest).len() && batch_names(rest)[w] == x;
                assert(batch_names(batch)[w + 1] == batch[w + 1].name);
                assert(rest[w] == batch[w + 1]);
            }
        } else {
            lemma_accepted_subset(existing, accepted.push(name), rest, add_only, x);
            if accepted.push(name).contains(x) {
                let w = choose|w: int|
                    0 <= w < accepted.push(name).len() && accepted.push(name)[w] == x;
                if w < accepted.len() {
                    assert(accepted[w] == x);
                } else {
                    assert(batch_names(batch)[0] == name);
                }
            } else if batch_names(rest).contains(x) {
                let w = choose|w: int|
                    0 <= w < batch_names(rest).len() && batch_names(rest)[w] == x;
                assert(batch_names(batch)[w + 1] == batch[w + 1].name);
                assert(rest[w] == batch[w + 1]);
            }
        }
    }
}

/// A replace-all batch that omits the protected name, while the configuration
/// forbids deleting it, is refused: the batch's errors carry
/// `DeletionDisallowed` for the protected name, so the whole batch fails and
/// the registry stays unchanged.
pub proof fn lemma_replace_all_requires_protected(s: SupervisorView, batch: Seq<DefinitionView>)
    requires
        !s.allow_protected_deletion,
        !batch_names(batch).contains(s.protected_name),
    ensures
        start_errors(s, batch, StartMode::ReplaceAll).contains(
            StartErrorView::DeletionDisallowed(s.protected_name),
        ),
        start_errors(s, batch, StartMode::ReplaceAll).len() > 0,
{
    let existing = names_of(s.instances);
    let acc = accepted_after(existing, Seq::empty(), batch, false);
    if acc.contains(s.protected_name) {
        lemma_accepted_subset(existing, Seq::empty(), batch, false, s.protected_name);
    }
    let rec = start_errors_rec(existing, Seq::empty(), batch, false);
    let errs = start_errors(s, batch, StartMode::ReplaceAll);
    assert(errs == rec + seq![StartErrorView::DeletionDisallowed(s.protected_name)]);
    assert(errs[errs.len() - 1] == StartErrorView::DeletionDisallowed(s.protected_name));
}

/// A start batch whose names are pairwise distinct, none already accepted,
/// and (in add-only mode) none already running, validates without error: such
/// a batch is owed success.
pub proof fn lemma_valid_batch_no_errors(
    existing: Seq<Seq<char>>,
    accepted: Seq<Seq<char>>,
    batch: Seq<DefinitionView>,
    add_only: bool,
)
    requires
        forall|i: int, j: int| 0 <= i < j < batch.len() ==> batch[i].name != batch[j].name,
        forall|i: int| 0 <= i < batch.len() ==> !accepted.contains(#[trigger] batch[i].name),
        add_only ==> forall|i: int|
            0 <= i < batch.len() ==> !existing.contains(#[trigger] batch[i].name),
    ensures
        start_errors_rec(existing, accepted, batch, add_only).len() == 0,
    decreases batch.len(),
{
    if batch.len() > 0 {
        let name = batch[0].name;
        let rest = batch.drop_first();
        assert(!accepted.contains(batch[0].name));
        assert forall|i: int| 0 <= i < rest.len() implies !accepted.push(name).contains(
            #[trigger] rest[i].name,
        ) by {
            assert(rest[i] == batch[i + 1]);
            if accepted.push(name).contains(rest[i].name) {
                let w = choose|w: int|
                    0 <= w < accepted.push(name).len() && accepted.push(name)[w] == rest[i].name;
                if w < accepted.len() {
                    assert(accepted[w] == batch[i + 1].name);
                } else {
                    assert(batch[0].name == batch[i + 1].name);
                }
            }
        }
        assert forall|i: int, j: int| 0 <= i < j < rest.len() implies rest[i].name
            != rest[j].name by {
            assert(rest[i] == batch[i + 1]);
            assert(rest[j] == batch[j + 1]);
        }
        if add_only {
            assert forall|i: int| 0 <= i < rest.len() implies !existing.contains(
                #[trigger] rest[i].name,
            ) by {
                assert(rest[i] == batch[i + 1]);
            }
        }
        lemma_valid_batch_no_errors(existing, accepted.push(name), rest, add_only);
    }
}

/// The persist-then-reload round trip: take the snapshot of a well-formed
/// registry and hand it, as the add-only start batch that reloading produces,
/// to a supervisor with an empty registry.  The batch validates without error,
/// and the definitions it starts carry field-for-field the registry's own.
pub proof fn lemma_snapshot_round_trip(s: SupervisorView, fresh_sup: SupervisorView)
    requires
        s.wf(),
        fresh_sup.instances == Seq::<RunningView>::empty(),
    ensures
        ({
            let snapshot = s.instances.map_values(|inst: RunningView| inst.definition);
            &&& start_errors(fresh_sup, snapshot, StartMode::AddOnly).len() == 0
            &&& fresh_instances(snapshot).map_values(|inst: RunningView| inst.definition)
                == s.instances.map_values(|inst: RunningView| inst.definition)
        }),
{
    let snapshot = s.instances.map_values(|inst: RunningView| inst.definition);
    assert forall|i: int, j: int| 0 <= i < j < snapshot.len() implies snapshot[i].name
        != snapshot[j].name by {
        assert(snapshot[i] == s.instances[i].definition);
        assert(snapshot[j] == s.instances[j].definition);
    }
    assert(names_of(fresh_sup.instances).len() == 0);
    lemma_valid_batch_no_errors(
        names_of(fresh_sup.instances),
        Seq::empty(),
        snapshot,
        true,
    );
    assert(fresh_instances(snapshot).map_values(|inst: RunningView| inst.definition)
        =~= s.instances.map_values(|inst: RunningView| inst.definition));
}

/// The backoff schedule for writing the snapshot file: a bounded number of
/// attempts with exponentially increasing delays, in milliseconds.  The
/// snapshot file may be shared with cooperating processes, so transient write
/// contention is retried this many times and then given up on; persistence is
/// best effort and never fails the mutating operation that triggered it.
pub fn persist_retry_delays() -> (r: Vec<u64>)
    ensures
        r@.len() == 5,
        r@[0] == 10,
        forall|i: int| 1 <= i < r@.len() ==> #[trigger] r@[i] == 2 * r@[i - 1],
{
    let mut r: Vec<u64> = Vec::new();
    r.push(10);
    r.push(20);
    r.push(40);
    r.push(80);
    r.push(160);
    r
}

/// The key set of a concatenation is the union of the key sets.
pub proof fn lemma_to_set_concat(a: Seq<Seq<char>>, b: Seq<Seq<char>>)
    ensures
        (a + b).to_set() == a.to_set() + b.to_set(),
{
    assert forall|x: Seq<char>| (a + b).to_set().contains(x) implies (a.to_set()
        + b.to_set()).contains(x) by {
        let w = choose|w: int| 0 <= w < (a + b).len() && (a + b)[w] == x;
        if w < a.len() {
            assert(a[w] == x);
        } else {
            assert(b[w - a.len()] == x);
        }
    }
    assert forall|x: Seq<char>| (a.to_set() + b.to_set()).contains(x) implies (a
        + b).to_set().contains(x) by {
        if a.to_set().contains(x) {
            let w = choose|w: int| 0 <= w < a.len() && a[w] == x;
            assert((a + b)[w] == x);
        } else {
            let w = choose|w: int| 0 <= w < b.len() && b[w] == x;
            assert((a + b)[a.len() + w] == x);
        }
    }
    assert((a + b).to_set() =~= a.to_set() + b.to_set());
}

/// After a valid start batch, the registry is well formed again: the surviving
/// instances keep their unique names, and the incoming ones were checked
/// against them and against each other.
proof fn lemma_start_result_wf(
    before: SupervisorView,
    batch: Seq<DefinitionView>,
    add_only: bool,
    after: SupervisorView,
)
    requires
        before.wf(),
        start_errors_rec(names_of(before.instances), Seq::empty(), batch, add_only).len() == 0,
        add_only ==> after.instances == before.instances + fresh_instances(batch),
        !add_only ==> after.instances == fresh_instances(batch),
    ensures
        after.wf(),
{
    lemma_validation_ok(names_of(before.instances), Seq::empty(), batch, add_only);
    let base: Seq<RunningView> = if add_only {
        before.instances
    } else {
        Seq::empty()
    };
    assert(after.instances =~= base + fresh_instances(batch));
    assert forall|i: int, j: int|
        0 <= i < j < after.instances.len() implies after.instances[i].definition.name
        != after.instances[j].definition.name by {
        let n = base.len() as int;
        if j >= n {
            assert(after.instances[j] == fresh_instances(batch)[j - n]);
            assert(fresh_instances(batch)[j - n].definition.name == batch[j - n].name);
            if i >= n {
                assert(after.instances[i] == fresh_instances(batch)[i - n]);
            } else {
                assert(after.instances[i] == before.instances[i]);
                assert(names_of(before.instances)[i] == before.instances[i].definition.name);
                assert(!names_of(before.instances).contains(batch[j - n].name));
            }
        } else {
            assert(after.instances[i] == before.instances[i]);
            assert(after.instances[j] == before.instances[j]);
        }
    }
    assert forall|i: int| 0 <= i < after.instances.len() implies (#[trigger] after.instances[i]).worker.wf() by {
        let n = base.len() as int;
        if i >= n {
            assert(after.instances[i] == fresh_instances(batch)[i - n]);
            assert(fresh_instances(batch)[i - n].worker == WorkerModel::initial());
        } else {
            assert(after.instances[i] == before.instances[i]);
        }
    }
}

/// Whether a string list holds this text.
pub fn vec_contains_string(v: &Vec<String>, name: &String) -> (r: bool)
    ensures
        r == v.deep_view().contains(name@),
{
    let mut i: usize = 0;
    while i < v.len()
        invariant
            i <= v.len(),
            forall|j: int| 0 <= j < i ==> v.deep_view()[j] != name@,
        decreases v.len() - i,
    {
        if v[i] == *name {
            proof {
                assert(v.deep_view()[i as int] == name@);
            }
            return true;
        }
        i = i + 1;
    }
    false
}

} // verus!
