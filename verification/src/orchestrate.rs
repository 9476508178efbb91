//! The checkout orchestrator: materializes two item collections from a pair
//! of version-control references by mutating one shared working tree, while
//! guaranteeing that the original repository state is restored on every
//! exit path.
//!
//! The orchestrator is a state machine: it answers each reported event with
//! the next action to perform, and the caller carries the actions out
//! against the real repository. Every path that reaches a checkout funnels
//! through a restoration of the captured [`RepositoryState`] before the
//! machine stops, whether extraction succeeded or failed; only the
//! dirty-tree abort stops before any mutation.

use vstd::prelude::*;

use crate::item::PublicItem;

verus! {

/// How to return a working tree to its starting point: the branch it was
/// on, or the exact commit it was detached at.
#[derive(Debug, Clone, PartialEq, Eq)]
pub enum RepositoryState {
    Branch(String),
    Detached(String),
}

/// What the caller must do next against the repository.
#[derive(Debug, Clone, PartialEq, Eq)]
pub enum OrchestratorAction {
    /// List the tracked files with uncommitted modifications that a
    /// checkout would overwrite.
    CheckTree,
    /// Record the current branch, or the current commit if detached.
    CaptureState,
    /// Check out the given reference.
    Checkout(String),
    /// Build the checked-out tree and extract its item collection.
    Extract,
    /// Return the working tree to the given captured state.
    Restore(RepositoryState),
    /// The run is over; read the outcome from the machine.
    Stop,
}

/// What the caller reports back after performing an action.
#[derive(Debug, Clone, PartialEq, Eq)]
pub enum OrchestratorEvent {
    /// The conflicting tracked files found by `CheckTree`; empty means the
    /// tree is clean.
    TreeStatus(Vec<String>),
    /// The state recorded by `CaptureState`.
    StateCaptured(RepositoryState),
    CheckoutOk,
    CheckoutFailed(String),
    /// The item collection extracted by `Extract`.
    Extracted(Vec<PublicItem>),
    ExtractFailed(String),
    RestoreOk,
    RestoreFailed(String),
}

/// How a run ended. Every variant is reported distinctly: a restoration
/// failure in particular outranks whatever failure preceded it, since it
/// means the repository was left in an unexpected state.
#[derive(Debug, Clone, PartialEq, Eq)]
pub enum DiffOutcome {
    /// Both references were extracted and the repository was restored.
    Completed { old_items: Vec<PublicItem>, new_items: Vec<PublicItem> },
    /// The tree had uncommitted changes and force was not set; nothing was
    /// checked out.
    DirtyTreeAborted { files: Vec<String> },
    /// A checkout failed; the repository was restored afterwards.
    CheckoutFailed { message: String },
    /// A build or extraction failed; the repository was restored
    /// afterwards.
    ExtractionFailed { message: String },
    /// The final restoration itself failed: the repository may be left
    /// checked out at an unexpected reference.
    RestorationFailed { message: String },
}

/// The orchestrator's state. Each variant holds exactly the data the
/// remaining steps still need; everything else has been moved into the
/// actions already issued.
#[derive(Debug, Clone, PartialEq, Eq)]
pub enum Orchestrator {
    /// Waiting for the dirty-tree check.
    Clean { old_ref: String, new_ref: String, force: bool },
    /// Waiting for the repository state to be captured.
    Capturing { old_ref: String, new_ref: String },
    /// Waiting for the checkout of the old reference.
    CheckingOutOld { new_ref: String, captured: RepositoryState },
    /// Waiting for the extraction of the old reference's items.
    ExtractingOld { new_ref: String, captured: RepositoryState },
    /// Waiting for the checkout of the new reference.
    CheckingOutNew { captured: RepositoryState, old_items: Vec<PublicItem> },
    /// Waiting for the extraction of the new reference's items.
    ExtractingNew { captured: RepositoryState, old_items: Vec<PublicItem> },
    /// Waiting for the restoration of the captured state; the outcome to
    /// deliver afterwards is already decided.
    Restoring { pending: DiffOutcome },
    /// The run is over.
    Done { outcome: DiffOutcome },
}

/// Whether the machine accepts the event: each waiting state accepts
/// exactly the reports of the action it issued.
pub open spec fn accepts(m: Orchestrator, ev: OrchestratorEvent) -> bool {
    match (m, ev) {
        (Orchestrator::Clean { .. }, OrchestratorEvent::TreeStatus(_)) => true,
        (Orchestrator::Capturing { .. }, OrchestratorEvent::StateCaptured(_)) => true,
        (Orchestrator::CheckingOutOld { .. }, OrchestratorEvent::CheckoutOk) => true,
        (Orchestrator::CheckingOutOld { .. }, OrchestratorEvent::CheckoutFailed(_)) => true,
        (Orchestrator::ExtractingOld { .. }, OrchestratorEvent::Extracted(_)) => true,
        (Orchestrator::ExtractingOld { .. }, OrchestratorEvent::ExtractFailed(_)) => true,
        (Orchestrator::CheckingOutNew { .. }, OrchestratorEvent::CheckoutOk) => true,
        (Orchestrator::CheckingOutNew { .. }, OrchestratorEvent::CheckoutFailed(_)) => true,
        (Orchestrator::ExtractingNew { .. }, OrchestratorEvent::Extracted(_)) => true,
        (Orchestrator::ExtractingNew { .. }, OrchestratorEvent::ExtractFailed(_)) => true,
        (Orchestrator::Restoring { .. }, OrchestratorEvent::RestoreOk) => true,
        (Orchestrator::Restoring { .. }, OrchestratorEvent::RestoreFailed(_)) => true,
        _ => false,
    }
}

/// The complete transition function of the orchestrator.
pub open spec fn step_spec(m: Orchestrator, ev: OrchestratorEvent) -> (Orchestrator,
    OrchestratorAction) {
    match (m, ev) {
        (
            Orchestrator::Clean { old_ref, new_ref, force },
            OrchestratorEvent::TreeStatus(files),
        ) => {
            if files.len() > 0 && !force {
                (
                    Orchestrator::Done { outcome: DiffOutcome::DirtyTreeAborted { files } },
                    OrchestratorAction::Stop,
                )
            } else {
                (
                    Orchestrator::Capturing { old_ref, new_ref },
                    OrchestratorAction::CaptureState,
                )
            }
        },
        (
            Orchestrator::Capturing { old_ref, new_ref },
            OrchestratorEvent::StateCaptured(state),
        ) => {
            (
                Orchestrator::CheckingOutOld { new_ref, captured: state },
                OrchestratorAction::Checkout(old_ref),
            )
        },
        (Orchestrator::CheckingOutOld { new_ref, captured }, OrchestratorEvent::CheckoutOk) => {
            (
                Orchestrator::ExtractingOld { new_ref, captured },
                OrchestratorAction::Extract,
            )
        },
        (
            Orchestrator::CheckingOutOld { new_ref, captured },
            OrchestratorEvent::CheckoutFailed(message),
        ) => {
            (
                Orchestrator::Restoring { pending: DiffOutcome::CheckoutFailed { message } },
                OrchestratorAction::Restore(captured),
            )
        },
        (
            Orchestrator::ExtractingOld { new_ref, captured },
            OrchestratorEvent::Extracted(items),
        ) => {
            (
                Orchestrator::CheckingOutNew { captured, old_items: items },
                OrchestratorAction::Checkout(new_ref),
            )
        },
        (
            Orchestrator::ExtractingOld { new_ref, captured },
            OrchestratorEvent::ExtractFailed(message),
        ) => {
            (
                Orchestrator::Restoring { pending: DiffOutcome::ExtractionFailed { message } },
                OrchestratorAction::Restore(captured),
            )
        },
        (
            Orchestrator::CheckingOutNew { captured, old_items },
            OrchestratorEvent::CheckoutOk,
        ) => {
            (
                Orchestrator::ExtractingNew { captured, old_items },
                OrchestratorAction::Extract,
            )
        },
        (
            Orchestrator::CheckingOutNew { captured, old_items },
            OrchestratorEvent::CheckoutFailed(message),
        ) => {
            (
                Orchestrator::Restoring { pending: DiffOutcome::CheckoutFailed { message } },
                OrchestratorAction::Restore(captured),
            )
        },
        (
            Orchestrator::ExtractingNew { captured, old_items },
            OrchestratorEvent::Extracted(items),
        ) => {
            (
                Orchestrator::Restoring {
                    pending: DiffOutcome::Completed { old_items, new_items: items },
                },
                OrchestratorAction::Restore(captured),
            )
        },
        (
            Orchestrator::ExtractingNew { captured, old_items },
            OrchestratorEvent::ExtractFailed(message),
        ) => {
            (
                Orchestrator::Restoring { pending: DiffOutcome::ExtractionFailed { message } },
                OrchestratorAction::Restore(captured),
            )
        },
        (Orchestrator::Restoring { pending }, OrchestratorEvent::RestoreOk) => {
            (Orchestrator::Done { outcome: pending }, OrchestratorAction::Stop)
        },
        (Orchestrator::Restoring { pending }, OrchestratorEvent::RestoreFailed(message)) => {
            (
                Orchestrator::Done { outcome: DiffOutcome::RestorationFailed { message } },
                OrchestratorAction::Stop,
            )
        },
        (m, _) => (m, OrchestratorAction::Stop),
    }
}

/// Drives the machine over a sequence of events: the final machine and
/// every action issued along the way, in order.
pub open spec fn run_steps(m: Orchestrator, events: Seq<OrchestratorEvent>) -> (Orchestrator,
    Seq<OrchestratorAction>)
    decreases events.len(),
{
    if events.len() == 0 {
        (m, Seq::empty())
    } else {
        let next = step_spec(m, events[0]);
        let rest = run_steps(next.0, events.skip(1));
        (rest.0, seq![next.1] + rest.1)
    }
}

/// Where a repository ends up after the checkout and restore actions of a
/// run, starting from the given state.
pub open spec fn final_position(
    start: RepositoryState,
    actions: Seq<OrchestratorAction>,
) -> RepositoryState
    decreases actions.len(),
{
    if actions.len() == 0 {
        start
    } else {
        match actions.last() {
            OrchestratorAction::Checkout(r) => RepositoryState::Detached(r),
            OrchestratorAction::Restore(st) => st,
            _ => final_position(start, actions.drop_last()),
        }
    }
}

/// A finished machine stays finished and issues nothing but `Stop`,
/// whatever events are still reported to it.
pub proof fn lemma_done_inert(m: Orchestrator, events: Seq<OrchestratorEvent>)
    requires
        m is Done,
    ensures
        run_steps(m, events).0 == m,
        forall|i: int| 0 <= i < run_steps(m, events).1.len() ==> run_steps(m, events).1[i]
            == OrchestratorAction::Stop,
    decreases events.len(),
{
    if events.len() > 0 {
        lemma_done_inert(m, events.skip(1));
    }
}

/// A dirty tree without the force flag aborts before any mutation: the
/// machine stops at once with the itemized list of conflicting files, and
/// no checkout is ever issued, whatever is reported afterwards.
pub proof fn lemma_dirty_tree_aborts(
    old_ref: String,
    new_ref: String,
    files: Vec<String>,
    later: Seq<OrchestratorEvent>,
)
    requires
        files.len() > 0,
    ensures
        ({
            let m0 = Orchestrator::Clean { old_ref, new_ref, force: false };
            let r = run_steps(m0, seq![OrchestratorEvent::TreeStatus(files)] + later);
            &&& r.0 == (Orchestrator::Done {
                outcome: DiffOutcome::DirtyTreeAborted { files },
            })
            &&& forall|i: int| 0 <= i < r.1.len() ==> !(r.1[i] is Checkout)
        }),
{
    let m0 = Orchestrator::Clean { old_ref, new_ref, force: false };
    let events = seq![OrchestratorEvent::TreeStatus(files)] + later;
    let m1 = Orchestrator::Done { outcome: DiffOutcome::DirtyTreeAborted { files } };
    assert(step_spec(m0, events[0]) == (m1, OrchestratorAction::Stop));
    assert(events.skip(1) =~= later);
    lemma_done_inert(m1, later);
}

/// The complete event script of a successful run: a clean tree, a captured
/// state, then checkout and extraction of each reference, then a
/// successful restoration.
pub open spec fn successful_run_events(
    clean_files: Vec<String>,
    st: RepositoryState,
    old_items: Vec<PublicItem>,
    new_items: Vec<PublicItem>,
) -> Seq<OrchestratorEvent> {
    seq![
        OrchestratorEvent::TreeStatus(clean_files),
        OrchestratorEvent::StateCaptured(st),
        OrchestratorEvent::CheckoutOk,
        OrchestratorEvent::Extracted(old_items),
        OrchestratorEvent::CheckoutOk,
        OrchestratorEvent::Extracted(new_items),
        OrchestratorEvent::RestoreOk,
    ]
}

/// A run over a clean tree that checks out and extracts both references
/// completes with both item collections, and the repository ends exactly
/// at the captured starting state, branch or detached commit alike.
pub proof fn lemma_successful_run_restores(
    old_ref: String,
    new_ref: String,
    force: bool,
    clean_files: Vec<String>,
    st: RepositoryState,
    old_items: Vec<PublicItem>,
    new_items: Vec<PublicItem>,
)
    requires
        clean_files@.len() == 0,
    ensures
        ({
            let m0 = Orchestrator::Clean { old_ref, new_ref, force };
            let r = run_steps(
                m0,
                successful_run_events(clean_files, st, old_items, new_items),
            );
            &&& r.0 == (Orchestrator::Done {
                outcome: DiffOutcome::Completed { old_items, new_items },
            })
            &&& r.1.contains(OrchestratorAction::Restore(st))
            &&& final_position(st, r.1) == st
        }),
{
    let m0 = Orchestrator::Clean { old_ref, new_ref, force };
    let events = successful_run_events(clean_files, st, old_items, new_items);
    let r = run_steps(m0, events);
    reveal_with_fuel(run_steps, 9);
    assert(events.skip(1).skip(1) =~= events.skip(2));
    assert(events.skip(2).skip(1) =~= events.skip(3));
    assert(events.skip(3).skip(1) =~= events.skip(4));
    assert(events.skip(4).skip(1) =~= events.skip(5));
    assert(events.skip(5).skip(1) =~= events.skip(6));
    assert(events.skip(6).skip(1) =~= events.skip(7));
    assert(events.skip(7) =~= Seq::<OrchestratorEvent>::empty());
    assert(r.1 =~= seq![
        OrchestratorAction::CaptureState,
        OrchestratorAction::Checkout(old_ref),
        OrchestratorAction::Extract,
        OrchestratorAction::Checkout(new_ref),
        OrchestratorAction::Extract,
        OrchestratorAction::Restore(st),
        OrchestratorAction::Stop,
    ]);
    assert(r.1[5] == OrchestratorAction::Restore(st));
    assert(r.1.contains(OrchestratorAction::Restore(st)));
    assert(r.1.last() == OrchestratorAction::Stop);
    assert(final_position(st, r.1) == final_position(st, r.1.drop_last()));
    assert(r.1.drop_last().last() == OrchestratorAction::Restore(st));
    assert(final_position(st, r.1.drop_last()) == st);
}

/// The event script of a run whose extraction fails at the first or at
/// the second reference, followed by a successful restoration.
pub open spec fn failing_extraction_events(
    clean_files: Vec<String>,
    st: RepositoryState,
    old_items: Vec<PublicItem>,
    message: String,
    fail_at_first: bool,
) -> Seq<OrchestratorEvent> {
    if fail_at_first {
        seq![
            OrchestratorEvent::TreeStatus(clean_files),
            OrchestratorEvent::StateCaptured(st),
            OrchestratorEvent::CheckoutOk,
            OrchestratorEvent::ExtractFailed(message),
            OrchestratorEvent::RestoreOk,
        ]
    } else {
        seq![
            OrchestratorEvent::TreeStatus(clean_files),
            OrchestratorEvent::StateCaptured(st),
            OrchestratorEvent::CheckoutOk,
            OrchestratorEvent::Extracted(old_items),
            OrchestratorEvent::CheckoutOk,
            OrchestratorEvent::ExtractFailed(message),
            OrchestratorEvent::RestoreOk,
        ]
    }
}

/// Even when extraction fails at either reference, the repository is
/// restored to exactly the captured starting state before the run stops,
/// and the failure is reported as an extraction failure.
pub proof fn lemma_failed_extraction_restores(
    old_ref: String,
    new_ref: String,
    force: bool,
    clean_files: Vec<String>,
    st: RepositoryState,
    old_items: Vec<PublicItem>,
    message: String,
    fail_at_first: bool,
)
    requires
        clean_files@.len() == 0,
    ensures
        ({
            let m0 = Orchestrator::Clean { old_ref, new_ref, force };
            let r = run_steps(
                m0,
                failing_extraction_events(clean_files, st, old_items, message, fail_at_first),
            );
            &&& r.0 == (Orchestrator::Done {
                outcome: DiffOutcome::ExtractionFailed { message },
            })
            &&& r.1.contains(OrchestratorAction::Restore(st))
            &&& final_position(st, r.1) == st
        }),
{
    let m0 = Orchestrator::Clean { old_ref, new_ref, force };
    let events = failing_extraction_events(clean_files, st, old_items, message, fail_at_first);
    let r = run_steps(m0, events);
    reveal_with_fuel(run_steps, 9);
    assert(events.skip(1).skip(1) =~= events.skip(2));
    assert(events.skip(2).skip(1) =~= events.skip(3));
    assert(events.skip(3).skip(1) =~= events.skip(4));
    if fail_at_first {
        assert(events.skip(4).skip(1) =~= events.skip(5));
        assert(events.skip(5) =~= Seq::<OrchestratorEvent>::empty());
        assert(r.1 =~= seq![
            OrchestratorAction::CaptureState,
            OrchestratorAction::Checkout(old_ref),
            OrchestratorAction::Extract,
            OrchestratorAction::Restore(st),
            OrchestratorAction::Stop,
        ]);
        assert(r.1[3] == OrchestratorAction::Restore(st));
        assert(r.1.contains(OrchestratorAction::Restore(st)));
        assert(r.1.last() == OrchestratorAction::Stop);
        assert(final_position(st, r.1) == final_position(st, r.1.drop_last()));
        assert(r.1.drop_last().last() == OrchestratorAction::Restore(st));
        assert(final_position(st, r.1.drop_last()) == st);
    } else {
        assert(events.skip(4).skip(1) =~= events.skip(5));
        assert(events.skip(5).skip(1) =~= events.skip(6));
        assert(events.skip(6).skip(1) =~= events.skip(7));
        assert(events.skip(7) =~= Seq::<OrchestratorEvent>::empty());
        assert(r.1 =~= seq![
            OrchestratorAction::CaptureState,
            OrchestratorAction::Checkout(old_ref),
            OrchestratorAction::Extract,
            OrchestratorAction::Checkout(new_ref),
            OrchestratorAction::Extract,
            OrchestratorAction::Restore(st),
            OrchestratorAction::Stop,
        ]);
        assert(r.1[5] == OrchestratorAction::Restore(st));
        assert(r.1.contains(OrchestratorAction::Restore(st)));
        assert(r.1.last() == OrchestratorAction::Stop);
        assert(final_position(st, r.1) == final_position(st, r.1.drop_last()));
        assert(r.1.drop_last().last() == OrchestratorAction::Restore(st));
        assert(final_position(st, r.1.drop_last()) == st);
    }
}

/// With the force flag set, a dirty tree does not stop the run: it
/// proceeds exactly as over a clean tree and completes, restoring the
/// captured state.
pub proof fn lemma_forced_run_proceeds(
    old_ref: String,
    new_ref: String,
    dirty_files: Vec<String>,
    st: RepositoryState,
    old_items: Vec<PublicItem>,
    new_items: Vec<PublicItem>,
)
    ensures
        ({
            let m0 = Orchestrator::Clean { old_ref, new_ref, force: true };
            let r = run_steps(
                m0,
                successful_run_events(dirty_files, st, old_items, new_items),
            );
            &&& r.0 == (Orchestrator::Done {
                outcome: DiffOutcome::Completed { old_items, new_items },
            })
            &&& final_position(st, r.1) == st
        }),
{
    let m0 = Orchestrator::Clean { old_ref, new_ref, force: true };
    let events = successful_run_events(dirty_files, st, old_items, new_items);
    let r = run_steps(m0, events);
    reveal_with_fuel(run_steps, 9);
    assert(events.skip(1).skip(1) =~= events.skip(2));
    assert(events.skip(2).skip(1) =~= events.skip(3));
    assert(events.skip(3).skip(1) =~= events.skip(4));
    assert(events.skip(4).skip(1) =~= events.skip(5));
    assert(events.skip(5).skip(1) =~= events.skip(6));
    assert(events.skip(6).skip(1) =~= events.skip(7));
    assert(events.skip(7) =~= Seq::<OrchestratorEvent>::empty());
    assert(r.1 =~= seq![
        OrchestratorAction::CaptureState,
        OrchestratorAction::Checkout(old_ref),
        OrchestratorAction::Extract,
        OrchestratorAction::Checkout(new_ref),
        OrchestratorAction::Extract,
        OrchestratorAction::Restore(st),
        OrchestratorAction::Stop,
    ]);
    assert(r.1.last() == OrchestratorAction::Stop);
    assert(final_position(st, r.1) == final_position(st, r.1.drop_last()));
    assert(r.1.drop_last().last() == OrchestratorAction::Restore(st));
    assert(final_position(st, r.1.drop_last()) == st);
}

impl Orchestrator {
    /// Starts a run for the given pair of references. The first action is
    /// always the dirty-tree guard.
    pub fn new(old_ref: String, new_ref: String, force: bool) -> (r: (
        Orchestrator,
        OrchestratorAction,
    ))
        ensures
            r.0 == (Orchestrator::Clean { old_ref, new_ref, force }),
            r.1 == OrchestratorAction::CheckTree,
    {
        (Orchestrator::Clean { old_ref, new_ref, force }, OrchestratorAction::CheckTree)
    }

    /// Whether this machine accepts the given event next.
    pub fn accepts_event(&self, ev: &OrchestratorEvent) -> (r: bool)
        ensures
            r == accepts(*self, *ev),
    {
        match (self, ev) {
            (Orchestrator::Clean { .. }, OrchestratorEvent::TreeStatus(_)) => true,
            (Orchestrator::Capturing { .. }, OrchestratorEvent::StateCaptured(_)) => true,
            (Orchestrator::CheckingOutOld { .. }, OrchestratorEvent::CheckoutOk) => true,
            (Orchestrator::CheckingOutOld { .. }, OrchestratorEvent::CheckoutFailed(_)) => true,
            (Orchestrator::ExtractingOld { .. }, OrchestratorEvent::Extracted(_)) => true,
            (Orchestrator::ExtractingOld { .. }, OrchestratorEvent::ExtractFailed(_)) => true,
            (Orchestrator::CheckingOutNew { .. }, OrchestratorEvent::CheckoutOk) => true,
            (Orchestrator::CheckingOutNew { .. }, OrchestratorEvent::CheckoutFailed(_)) => true,
            (Orchestrator::ExtractingNew { .. }, OrchestratorEvent::Extracted(_)) => true,
            (Orchestrator::ExtractingNew { .. }, OrchestratorEvent::ExtractFailed(_)) => true,
            (Orchestrator::Restoring { .. }, OrchestratorEvent::RestoreOk) => true,
            (Orchestrator::Restoring { .. }, OrchestratorEvent::RestoreFailed(_)) => true,
            _ => false,
        }
    }

    /// Whether the run is over.
    pub fn is_done(&self) -> (r: bool)
        ensures
            r == (self matches Orchestrator::Done { .. }),
    {
        matches!(self, Orchestrator::Done { .. })
    }

    /// Reports the event resulting from the last issued action and returns
    /// the machine's next state together with the next action to perform.
    pub fn step(self, ev: OrchestratorEvent) -> (r: (Orchestrator, OrchestratorAction))
        requires
            accepts(self, ev),
        ensures
            r == step_spec(self, ev),
    {
        match (self, ev) {
            (
                Orchestrator::Clean { old_ref, new_ref, force },
                OrchestratorEvent::TreeStatus(files),
            ) => {
                if files.len() > 0 && !force {
                    (
                        Orchestrator::Done { outcome: DiffOutcome::DirtyTreeAborted { files } },
                        OrchestratorAction::Stop,
                    )
                } else {
                    (
                        Orchestrator::Capturing { old_ref, new_ref },
                        OrchestratorAction::CaptureState,
                    )
                }
            },
            (
                Orchestrator::Capturing { old_ref, new_ref },
                OrchestratorEvent::StateCaptured(state),
            ) => {
                (
                    Orchestrator::CheckingOutOld { new_ref, captured: state },
                    OrchestratorAction::Checkout(old_ref),
                )
            },
            (
                Orchestrator::CheckingOutOld { new_ref, captured },
                OrchestratorEvent::CheckoutOk,
            ) => {
                (
                    Orchestrator::ExtractingOld { new_ref, captured },
                    OrchestratorAction::Extract,
                )
            },
            (
                Orchestrator::CheckingOutOld { new_ref, captured },
                OrchestratorEvent::CheckoutFailed(message),
            ) => {
                (
                    Orchestrator::Restoring { pending: DiffOutcome::CheckoutFailed { message } },
                    OrchestratorAction::Restore(captured),
                )
            },
            (
                Orchestrator::ExtractingOld { new_ref, captured },
                OrchestratorEvent::Extracted(items),
            ) => {
                (
                    Orchestrator::CheckingOutNew { captured, old_items: items },
                    OrchestratorAction::Checkout(new_ref),
                )
            },
            (
                Orchestrator::ExtractingOld { new_ref, captured },
                OrchestratorEvent::ExtractFailed(message),
            ) => {
                (
                    Orchestrator::Restoring {
                        pending: DiffOutcome::ExtractionFailed { message },
                    },
                    OrchestratorAction::Restore(captured),
                )
            },
            (
                Orchestrator::CheckingOutNew { captured, old_items },
                OrchestratorEvent::CheckoutOk,
            ) => {
                (
                    Orchestrator::ExtractingNew { captured, old_items },
                    OrchestratorAction::Extract,
                )
            },
            (
                Orchestrator::CheckingOutNew { captured, old_items },
                OrchestratorEvent::CheckoutFailed(message),
            ) => {
                (
                    Orchestrator::Restoring { pending: DiffOutcome::CheckoutFailed { message } },
                    OrchestratorAction::Restore(captured),
                )
            },
            (
                Orchestrator::ExtractingNew { captured, old_items },
                OrchestratorEvent::Extracted(items),
            ) => {
                (
                    Orchestrator::Restoring {
                        pending: DiffOutcome::Completed { old_items, new_items: items },
                    },
                    OrchestratorAction::Restore(captured),
                )
            },
            (
                Orchestrator::ExtractingNew { captured, old_items },
                OrchestratorEvent::ExtractFailed(message),
            ) => {
                (
                    Orchestrator::Restoring {
                        pending: DiffOutcome::ExtractionFailed { message },
                    },
                    OrchestratorAction::Restore(captured),
                )
            },
            (Orchestrator::Restoring { pending }, OrchestratorEvent::RestoreOk) => {
                (Orchestrator::Done { outcome: pending }, OrchestratorAction::Stop)
            },
            (Orchestrator::Restoring { pending }, OrchestratorEvent::RestoreFailed(message)) => {
                (
                    Orchestrator::Done { outcome: DiffOutcome::RestorationFailed { message } },
                    OrchestratorAction::Stop,
                )
            },
            (m, _) => (m, OrchestratorAction::Stop),
        }
    }

    /// The outcome of a finished run.
    pub fn outcome(self) -> (r: Option<DiffOutcome>)
        ensures
            r == (match self {
                Orchestrator::Done { outcome } => Some(outcome),
                _ => None::<DiffOutcome>,
            }),
    {
        match self {
            Orchestrator::Done { outcome } => Some(outcome),
            _ => None,
        }
    }
}

} // verus!
