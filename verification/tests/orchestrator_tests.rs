//! Tests of the checkout orchestrator, driven against a simulated
//! repository working tree.

use public_api::diff::PublicItemsDiff;
use public_api::item::PublicItem;
use public_api::orchestrate::DiffOutcome;
use public_api::orchestrate::Orchestrator;
use public_api::orchestrate::OrchestratorAction;
use public_api::orchestrate::OrchestratorEvent;
use public_api::orchestrate::RepositoryState;
use public_api::resolve::classify_operand;
use public_api::resolve::CheckoutRecipe;

fn item_with_path(path: &str) -> PublicItem {
    PublicItem {
        prefix: String::from("prefix "),
        path: String::from(path),
        suffix: String::from(" suffix"),
        tokens: None,
    }
}

/// A simulated repository: its current position, its dirty tracked files,
/// and a log of every checkout performed against it.
struct FakeRepo {
    position: RepositoryState,
    dirty_files: Vec<String>,
    checkouts: Vec<String>,
}

/// Drives one orchestrator run against the simulated repository. Each
/// `Extract` action takes the next entry of `extractions`; an `Err` entry
/// simulates a failing build. `fail_restore` simulates a repository whose
/// restoration itself fails.
fn drive(
    repo: &mut FakeRepo,
    old_ref: &str,
    new_ref: &str,
    force: bool,
    mut extractions: Vec<Result<Vec<PublicItem>, String>>,
    fail_restore: bool,
) -> DiffOutcome {
    let (mut machine, mut action) = Orchestrator::new(
        String::from(old_ref),
        String::from(new_ref),
        force,
    );
    loop {
        let event = match action {
            OrchestratorAction::CheckTree => {
                OrchestratorEvent::TreeStatus(repo.dirty_files.clone())
            }
            OrchestratorAction::CaptureState => {
                OrchestratorEvent::StateCaptured(repo.position.clone())
            }
            OrchestratorAction::Checkout(reference) => {
                repo.checkouts.push(reference.clone());
                repo.position = RepositoryState::Detached(reference);
                OrchestratorEvent::CheckoutOk
            }
            OrchestratorAction::Extract => match extractions.remove(0) {
                Ok(items) => OrchestratorEvent::Extracted(items),
                Err(message) => OrchestratorEvent::ExtractFailed(message),
            },
            OrchestratorAction::Restore(state) => {
                if fail_restore {
                    OrchestratorEvent::RestoreFailed(String::from("restore failed"))
                } else {
                    repo.position = state;
                    OrchestratorEvent::RestoreOk
                }
            }
            OrchestratorAction::Stop => break,
        };
        assert!(machine.accepts_event(&event));
        let (next, next_action) = machine.step(event);
        machine = next;
        action = next_action;
    }
    machine.outcome().expect("the machine stopped, so it must hold an outcome")
}

#[test]
fn diff_public_items() {
    let mut repo = FakeRepo {
        position: RepositoryState::Branch(String::from("main")),
        dirty_files: vec![],
        checkouts: vec![],
    };
    let old_items = vec![item_with_path("kept"), item_with_path("gone")];
    let new_items = vec![item_with_path("kept"), item_with_path("fresh")];
    let outcome = drive(
        &mut repo,
        "v0.2.0",
        "v0.3.0",
        false,
        vec![Ok(old_items), Ok(new_items)],
        false,
    );
    let DiffOutcome::Completed { old_items, new_items } = outcome else {
        panic!("expected a completed run");
    };
    let diff = PublicItemsDiff::between(old_items, new_items);
    assert_eq!(diff.removed, vec![item_with_path("gone")]);
    assert_eq!(diff.added, vec![item_with_path("fresh")]);
    assert_eq!(repo.checkouts, vec!["v0.2.0", "v0.3.0"]);

    // Diffing checks out the references to compare. Afterwards the
    // original branch shall be restored to minimize user disturbance.
    assert_eq!(repo.position, RepositoryState::Branch(String::from("main")));
}

#[test]
fn diff_public_items_smart_diff() {
    // In smart mode the operands classify as references first, and the
    // orchestrator then runs over exactly those references.
    let first = classify_operand("v0.2.0", false, None).unwrap();
    let second = classify_operand("v0.3.0", false, None).unwrap();
    let CheckoutRecipe::FromReference(old_ref) = first else {
        panic!("expected a reference recipe");
    };
    let CheckoutRecipe::FromReference(new_ref) = second else {
        panic!("expected a reference recipe");
    };
    let mut repo = FakeRepo {
        position: RepositoryState::Branch(String::from("main")),
        dirty_files: vec![],
        checkouts: vec![],
    };
    let outcome = drive(
        &mut repo,
        old_ref.as_str(),
        new_ref.as_str(),
        false,
        vec![Ok(vec![]), Ok(vec![item_with_path("fresh")])],
        false,
    );
    assert!(matches!(outcome, DiffOutcome::Completed { .. }));
    assert_eq!(repo.position, RepositoryState::Branch(String::from("main")));
}

#[test]
fn diff_public_items_detached_head() {
    // Restoration works even when there is no current branch: the
    // repository returns to exactly the commit it was detached at.
    let commit = String::from("80b0c1d6343d9e96f8e82f6c67b05e1ca78df130");
    let mut repo = FakeRepo {
        position: RepositoryState::Detached(commit.clone()),
        dirty_files: vec![],
        checkouts: vec![],
    };
    let outcome = drive(
        &mut repo,
        "v0.2.0",
        "v0.3.0",
        false,
        vec![Ok(vec![]), Ok(vec![])],
        false,
    );
    assert!(matches!(outcome, DiffOutcome::Completed { .. }));
    assert_eq!(repo.position, RepositoryState::Detached(commit));
}

#[test]
fn diff_public_items_with_dirty_tree_fails() {
    // Diffing must not destroy uncommitted data: a dirty tracked file
    // aborts the run before any checkout, naming the conflicting files.
    let mut repo = FakeRepo {
        position: RepositoryState::Branch(String::from("main")),
        dirty_files: vec![String::from("src/lib.rs")],
        checkouts: vec![],
    };
    let outcome = drive(&mut repo, "v0.2.0", "v0.3.0", false, vec![], false);
    let DiffOutcome::DirtyTreeAborted { files } = outcome else {
        panic!("expected a dirty-tree abort");
    };
    assert_eq!(files, vec![String::from("src/lib.rs")]);
    assert!(repo.checkouts.is_empty());
    assert_eq!(repo.position, RepositoryState::Branch(String::from("main")));
}

#[test]
fn diff_public_items_with_dirty_tree_succeedes_with_force_option() {
    let mut repo = FakeRepo {
        position: RepositoryState::Branch(String::from("main")),
        dirty_files: vec![String::from("src/lib.rs")],
        checkouts: vec![],
    };
    let outcome = drive(
        &mut repo,
        "v0.2.0",
        "v0.3.0",
        true,
        vec![Ok(vec![]), Ok(vec![])],
        false,
    );
    assert!(matches!(outcome, DiffOutcome::Completed { .. }));
    assert_eq!(repo.checkouts, vec!["v0.2.0", "v0.3.0"]);
    assert_eq!(repo.position, RepositoryState::Branch(String::from("main")));
}

#[test]
fn diff_public_items_relative_refs() {
    // Relative references like HEAD and HEAD^ pass through classification
    // and checkout untouched, even as the second diff target.
    for operand in ["HEAD^", "HEAD"] {
        let recipe = classify_operand(operand, false, None).unwrap();
        assert_eq!(
            recipe,
            CheckoutRecipe::FromReference(String::from(operand))
        );
    }
    let commit = String::from("4a9a1b4b2c8dcb6bd3a05d0a22c31c3911828286");
    let mut repo = FakeRepo {
        position: RepositoryState::Detached(commit.clone()),
        dirty_files: vec![],
        checkouts: vec![],
    };
    let outcome = drive(
        &mut repo,
        "HEAD^",
        "HEAD",
        false,
        vec![Ok(vec![]), Ok(vec![])],
        false,
    );
    assert!(matches!(outcome, DiffOutcome::Completed { .. }));
    assert_eq!(repo.checkouts, vec!["HEAD^", "HEAD"]);
    assert_eq!(repo.position, RepositoryState::Detached(commit));
}

#[test]
fn extraction_failure_still_restores_the_branch() {
    let mut repo = FakeRepo {
        position: RepositoryState::Branch(String::from("main")),
        dirty_files: vec![],
        checkouts: vec![],
    };
    let outcome = drive(
        &mut repo,
        "v0.2.0",
        "v0.3.0",
        false,
        vec![Ok(vec![]), Err(String::from("build failed"))],
        false,
    );
    let DiffOutcome::ExtractionFailed { message } = outcome else {
        panic!("expected an extraction failure");
    };
    assert_eq!(message, "build failed");
    assert_eq!(repo.position, RepositoryState::Branch(String::from("main")));
}

#[test]
fn checkout_failure_still_restores_the_branch() {
    let mut repo = FakeRepo {
        position: RepositoryState::Branch(String::from("main")),
        dirty_files: vec![],
        checkouts: vec![],
    };
    let (machine, action) = Orchestrator::new(
        String::from("does-not-exist"),
        String::from("v0.3.0"),
        false,
    );
    assert_eq!(action, OrchestratorAction::CheckTree);
    let (machine, action) = machine.step(OrchestratorEvent::TreeStatus(vec![]));
    assert_eq!(action, OrchestratorAction::CaptureState);
    let (machine, action) = machine.step(OrchestratorEvent::StateCaptured(repo.position.clone()));
    assert_eq!(
        action,
        OrchestratorAction::Checkout(String::from("does-not-exist"))
    );
    let (machine, action) = machine.step(OrchestratorEvent::CheckoutFailed(String::from(
        "unknown reference",
    )));
    // An unknown reference is an error, not a silent fallback, and the
    // captured state is still restored.
    assert_eq!(
        action,
        OrchestratorAction::Restore(RepositoryState::Branch(String::from("main")))
    );
    let (machine, action) = machine.step(OrchestratorEvent::RestoreOk);
    assert_eq!(action, OrchestratorAction::Stop);
    let outcome = machine.outcome().unwrap();
    let DiffOutcome::CheckoutFailed { message } = outcome else {
        panic!("expected a checkout failure");
    };
    assert_eq!(message, "unknown reference");
}

#[test]
fn restoration_failure_is_reported_distinctly() {
    let mut repo = FakeRepo {
        position: RepositoryState::Branch(String::from("main")),
        dirty_files: vec![],
        checkouts: vec![],
    };
    let outcome = drive(
        &mut repo,
        "v0.2.0",
        "v0.3.0",
        false,
        vec![Ok(vec![]), Ok(vec![])],
        true,
    );
    let DiffOutcome::RestorationFailed { message } = outcome else {
        panic!("a failed restoration outranks the run's own result");
    };
    assert_eq!(message, "restore failed");
}
