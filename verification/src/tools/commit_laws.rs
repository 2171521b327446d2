//! A commit is atomic: it changes all that was planned, or nothing.

use vstd::prelude::*;

use super::commit::{
    advanced, advancing_stays_in_range, applied, begin, counted, error_of, in_range, injects,
    plan_items, stage_from, started, undo, undo_directories, CauseAbs, CauseKind, CommitAbs,
    CommitStep, ItemAbs, OutcomeAbs,
};
use super::patch_plan::{changed_paths, changes_abs, ChangeAbs, PlannedFileChange};

verus! {

/// A file: its content, and the permissions that it was given. A new file that
/// was given none has those that the system chooses.
pub struct FileState {
    pub content: Seq<u8>,
    pub permissions: Option<u32>,
}

/// Files by path.
pub type Files = Map<Seq<Seq<char>>, FileState>;

/// The workspace during a commit: its files, and those that were put aside, by
/// the number of the change.
pub struct Workspace {
    pub files: Files,
    pub staged: Map<int, FileState>,
    pub backups: Map<int, FileState>,
}

/// The file that a change writes.
pub open spec fn written_by(change: ChangeAbs) -> FileState {
    FileState { content: change.after->Some_0, permissions: change.after_permissions }
}

/// What a step does to the workspace when it is done. Renaming moves a file or,
/// where it fails, leaves everything as it was.
pub open spec fn performed(world: Workspace, changes: Seq<ChangeAbs>, step: CommitStep) -> Workspace {
    match step {
        CommitStep::Stage { index } => {
            let i = index as int;
            Workspace { staged: world.staged.insert(i, written_by(changes[i])), ..world }
        },
        CommitStep::Backup { index } => {
            let i = index as int;
            Workspace {
                files: world.files.remove(changes[i].relative),
                backups: world.backups.insert(i, world.files[changes[i].relative]),
                ..world
            }
        },
        CommitStep::Install { index } => {
            let i = index as int;
            Workspace {
                files: world.files.insert(changes[i].relative, world.staged[i]),
                ..world
            }
        },
        CommitStep::RemoveTarget { index } => Workspace {
            files: world.files.remove(changes[index as int].relative),
            ..world
        },
        CommitStep::Restore { index } => {
            let i = index as int;
            Workspace {
                files: world.files.insert(changes[i].relative, world.backups[i]),
                ..world
            }
        },
        CommitStep::RestoreCurrent { index } => {
            let i = index as int;
            Workspace {
                files: world.files.insert(changes[i].relative, world.backups[i]),
                ..world
            }
        },
        _ => world,
    }
}

/// The workspace after a step with that outcome.
pub open spec fn observed(
    world: Workspace,
    changes: Seq<ChangeAbs>,
    step: CommitStep,
    outcome: OutcomeAbs,
) -> Workspace {
    if outcome is Done {
        performed(world, changes, step)
    } else {
        world
    }
}

/// The files with the first `n` changes made.
pub open spec fn patched(files: Files, changes: Seq<ChangeAbs>, n: int) -> Files
    decreases n,
{
    if n <= 0 {
        files
    } else {
        let before = patched(files, changes, n - 1);
        match changes[n - 1].after {
            Some(_) => before.insert(changes[n - 1].relative, written_by(changes[n - 1])),
            None => before.remove(changes[n - 1].relative),
        }
    }
}

/// Whether the changes are planned for these files: each path occurs once, and
/// has the content before that the change says.
pub open spec fn fits(files: Files, changes: Seq<ChangeAbs>) -> bool {
    &&& changed_paths(changes).no_duplicates()
    &&& forall|i: int|
        0 <= i < changes.len() ==> match (#[trigger] changes[i]).before {
            Some(content) => files.contains_key(changes[i].relative)
                && files[changes[i].relative].content == content,
            None => !files.contains_key(changes[i].relative),
        }
}

/// Whether a commit is that of the changes.
pub open spec fn commits(items: Seq<ItemAbs>, changes: Seq<ChangeAbs>) -> bool {
    &&& items.len() == changes.len()
    &&& forall|i: int|
        0 <= i < items.len() ==> (#[trigger] items[i]).replaces == (changes[i].before is Some)
            && items[i].writes == (changes[i].after is Some)
}

/// What a plan tells a commit is what its changes say.
pub proof fn plans_tell_their_changes(changes: Seq<PlannedFileChange>)
    ensures
        commits(plan_items(changes), changes_abs(changes)),
{
}

/// A commit and a workspace after some outcomes, step by step.
pub open spec fn run(
    state: CommitAbs,
    world: Workspace,
    changes: Seq<ChangeAbs>,
    outcomes: Seq<OutcomeAbs>,
) -> (CommitAbs, Workspace)
    decreases outcomes.len(),
{
    if outcomes.len() == 0 {
        (state, world)
    } else {
        let (before, now) = run(state, world, changes, outcomes.drop_last());
        (
            advanced(before, outcomes.last()),
            observed(now, changes, before.step, outcomes.last()),
        )
    }
}

// ---------------------------------------------------------------------------
// What holds at every step
// ---------------------------------------------------------------------------

/// The files without the one whose change failed halfway.
spec fn without_current(files: Files, changes: Seq<ChangeAbs>, state: CommitAbs) -> Files {
    match state.cause {
        Some(cause) => if cause.kind == CauseKind::Install && changes[cause.index as int].before
            is Some {
            files.remove(changes[cause.index as int].relative)
        } else {
            files
        },
        None => files,
    }
}

/// Whether the old files of the first `n` changes are put aside.
spec fn has_backups(world: Workspace, files: Files, changes: Seq<ChangeAbs>, n: int) -> bool {
    forall|i: int|
        0 <= i < n && (#[trigger] changes[i]).before is Some ==> world.backups.contains_key(i)
            && world.backups[i] == files[changes[i].relative]
}

/// Whether the new files of the first `n` changes are staged.
spec fn has_staged(world: Workspace, changes: Seq<ChangeAbs>, n: int) -> bool {
    forall|i: int|
        0 <= i < n && (#[trigger] changes[i]).after is Some ==> world.staged[i] == written_by(
            changes[i],
        )
}

/// The old file of the change that failed is put aside.
spec fn has_current(world: Workspace, files: Files, changes: Seq<ChangeAbs>, state: CommitAbs) -> bool {
    state.cause matches Some(cause) && 0 <= cause.index < changes.len() && (cause.kind
        == CauseKind::Install && changes[cause.index as int].before is Some
        ==> world.backups[cause.index as int] == files[changes[cause.index as int].relative])
}

/// Rolling back: the first `n` changes are still made.
spec fn rolling(
    state: CommitAbs,
    world: Workspace,
    files: Files,
    changes: Seq<ChangeAbs>,
    n: int,
) -> bool {
    &&& 0 <= n <= changes.len()
    &&& has_current(world, files, changes, state)
    &&& state.cause->Some_0.kind == CauseKind::Install ==> n <= state.cause->Some_0.index
    &&& has_backups(world, files, changes, n)
    &&& world.files == without_current(patched(files, changes, n), changes, state)
}

/// What holds of a commit and its workspace at every step.
spec fn holds(
    state: CommitAbs,
    world: Workspace,
    files: Files,
    changes: Seq<ChangeAbs>,
) -> bool {
    let n = changes.len() as int;
    &&& in_range(state)
    &&& commits(state.items, changes)
    &&& match state.step {
        CommitStep::Prepare => world.files == files && state.failure is None && state.cause
            is None,
        CommitStep::Stage { index } => {
            &&& world.files == files
            &&& state.failure is None
            &&& state.cause is None
            &&& changes[index as int].after is Some
            &&& has_staged(world, changes, index as int)
        },
        CommitStep::Parents { index } => {
            &&& state.failure is None
            &&& state.cause is None
            &&& world.files == patched(files, changes, index as int)
            &&& changes[index as int].after is Some
            &&& has_staged(world, changes, n)
            &&& has_backups(world, files, changes, index as int)
        },
        CommitStep::Backup { index } => {
            &&& state.failure is None
            &&& state.cause is None
            &&& world.files == patched(files, changes, index as int)
            &&& changes[index as int].before is Some
            &&& has_staged(world, changes, n)
            &&& has_backups(world, files, changes, index as int)
        },
        CommitStep::Install { index } => {
            &&& state.failure is None
            &&& state.cause is None
            &&& world.files == (if changes[index as int].before is Some {
                patched(files, changes, index as int).remove(changes[index as int].relative)
            } else {
                patched(files, changes, index as int)
            })
            &&& changes[index as int].after is Some
            &&& has_staged(world, changes, n)
            &&& has_backups(world, files, changes, index + 1)
        },
        CommitStep::RemoveTarget { index } => state.failure is None && changes[index as int].after
            is Some && rolling(state, world, files, changes, index + 1),
        CommitStep::Restore { index } => {
            &&& state.failure is None
            &&& changes[index as int].before is Some
            &&& has_current(world, files, changes, state)
            &&& state.cause->Some_0.kind == CauseKind::Install ==> index
                < state.cause->Some_0.index
            &&& has_backups(world, files, changes, index + 1)
            &&& world.files == without_current(
                patched(files, changes, index as int).remove(changes[index as int].relative),
                changes,
                state,
            )
        },
        CommitStep::RemoveDirectory { index } => state.failure is None && rolling(
            state,
            world,
            files,
            changes,
            0,
        ),
        CommitStep::RestoreCurrent { index } => {
            &&& state.failure is None
            &&& state.cause matches Some(cause) && cause.kind == CauseKind::Install
                && cause.index == index
            &&& changes[index as int].before is Some
            &&& world.backups[index as int] == files[changes[index as int].relative]
            &&& world.files == files.remove(changes[index as int].relative)
        },
        CommitStep::Cleanup => ended(state, world, files, changes),
        CommitStep::Finished => ended(state, world, files, changes),
    }
}

/// What holds at the end: without a failure, everything is changed; with a
/// failure whose outcome is known, nothing is.
pub open spec fn ended(
    state: CommitAbs,
    world: Workspace,
    files: Files,
    changes: Seq<ChangeAbs>,
) -> bool {
    match state.failure {
        None => world.files == patched(files, changes, changes.len() as int),
        Some(error) => error.code == "execution_failed" ==> world.files == files,
    }
}

/// A change leaves the paths of the other changes as they were.
proof fn lemma_untouched(files: Files, changes: Seq<ChangeAbs>, n: int, j: int)
    requires
        fits(files, changes),
        0 <= n <= j < changes.len(),
    ensures
        patched(files, changes, n).contains_key(changes[j].relative) == files.contains_key(
            changes[j].relative,
        ),
        patched(files, changes, n).contains_key(changes[j].relative) ==> patched(
            files,
            changes,
            n,
        )[changes[j].relative] == files[changes[j].relative],
    decreases n,
{
    if n > 0 {
        lemma_untouched(files, changes, n - 1, j);
        let paths = changed_paths(changes);
        assert(paths[n - 1] != paths[j]);
    }
}

/// Removing and putting back what a change put aside gives what was before.
proof fn lemma_taken_back(files: Files, changes: Seq<ChangeAbs>, k: int)
    requires
        fits(files, changes),
        0 <= k < changes.len(),
    ensures
        changes[k].before is Some ==> patched(files, changes, k).remove(
            changes[k].relative,
        ).insert(changes[k].relative, files[changes[k].relative]) =~= patched(files, changes, k),
        changes[k].before is None ==> patched(files, changes, k).remove(changes[k].relative)
            =~= patched(files, changes, k),
        patched(files, changes, k + 1).remove(changes[k].relative) =~= patched(
            files,
            changes,
            k,
        ).remove(changes[k].relative),
{
    lemma_untouched(files, changes, k, k);
    assert(match changes[k].before {
        Some(content) => files.contains_key(changes[k].relative)
            && files[changes[k].relative].content == content,
        None => !files.contains_key(changes[k].relative),
    });
}

/// Rolling back the first `n` changes goes on.
proof fn lemma_undo_holds(
    state: CommitAbs,
    world: Workspace,
    files: Files,
    changes: Seq<ChangeAbs>,
    n: int,
)
    requires
        fits(files, changes),
        commits(state.items, changes),
        changes.len() <= usize::MAX,
        state.failure is None,
        rolling(state, world, files, changes, n),
    ensures
        holds(undo(state, n), world, files, changes),
    decreases n,
{
    super::commit::lemma_undo_in_range(state, n);
    if n <= 0 {
        lemma_directories_hold(state, world, files, changes, state.created as int);
    } else {
        lemma_taken_back(files, changes, n - 1);
        assert(state.items[n - 1].writes == (changes[n - 1].after is Some));
        assert(state.items[n - 1].replaces == (changes[n - 1].before is Some));
        if state.items[n - 1].writes {
        } else if state.items[n - 1].replaces {
        } else {
            lemma_undo_holds(state, world, files, changes, n - 1);
        }
    }
}

proof fn lemma_directories_hold(
    state: CommitAbs,
    world: Workspace,
    files: Files,
    changes: Seq<ChangeAbs>,
    n: int,
)
    requires
        fits(files, changes),
        commits(state.items, changes),
        changes.len() <= usize::MAX,
        n <= usize::MAX,
        state.failure is None,
        rolling(state, world, files, changes, 0),
    ensures
        holds(undo_directories(state, n), world, files, changes),
{
    let cause = state.cause->Some_0;
    assert(state.items[cause.index as int].replaces == (changes[cause.index as int].before
        is Some));
}

/// The change `i` and those after it are to be committed.
proof fn lemma_begin_holds(
    state: CommitAbs,
    world: Workspace,
    files: Files,
    changes: Seq<ChangeAbs>,
    i: int,
)
    requires
        fits(files, changes),
        commits(state.items, changes),
        changes.len() <= usize::MAX,
        0 <= i <= changes.len(),
        state.failure is None,
        state.cause is None,
        world.files == patched(files, changes, i),
        has_staged(world, changes, changes.len() as int),
        has_backups(world, files, changes, i),
    ensures
        holds(begin(state, i), world, files, changes),
    decreases changes.len() - i,
{
    super::commit::lemma_begin_in_range(state, i);
    if i < changes.len() {
        assert(state.items[i].writes == (changes[i].after is Some));
        assert(state.items[i].replaces == (changes[i].before is Some));
        if !state.items[i].writes && !state.items[i].replaces {
            lemma_taken_back(files, changes, i);
            assert(patched(files, changes, i + 1) =~= patched(files, changes, i));
            lemma_applied_holds(state, world, files, changes, i);
        }
    }
}

/// The change `i` has been committed.
proof fn lemma_applied_holds(
    state: CommitAbs,
    world: Workspace,
    files: Files,
    changes: Seq<ChangeAbs>,
    i: int,
)
    requires
        fits(files, changes),
        commits(state.items, changes),
        changes.len() <= usize::MAX,
        0 <= i < changes.len(),
        state.failure is None,
        state.cause is None,
        world.files == patched(files, changes, i + 1),
        has_staged(world, changes, changes.len() as int),
        has_backups(world, files, changes, i + 1),
    ensures
        holds(applied(state, i), world, files, changes),
    decreases changes.len() - i, 0int,
{
    if injects(state, i + 1) {
        let cause = CauseAbs {
            kind: CauseKind::Injected,
            index: i as usize,
            error: Seq::empty(),
        };
        lemma_undo_holds(
            CommitAbs { cause: Some(cause), ..state },
            world,
            files,
            changes,
            i + 1,
        );
    } else {
        lemma_begin_holds(state, world, files, changes, i + 1);
    }
}

/// The change `i` and those after it are to be staged.
proof fn lemma_stage_holds(
    state: CommitAbs,
    world: Workspace,
    files: Files,
    changes: Seq<ChangeAbs>,
    i: int,
)
    requires
        fits(files, changes),
        commits(state.items, changes),
        changes.len() <= usize::MAX,
        0 <= i <= changes.len(),
        state.failure is None,
        state.cause is None,
        world.files == files,
        has_staged(world, changes, i),
    ensures
        holds(stage_from(state, i), world, files, changes),
    decreases changes.len() - i,
{
    super::commit::lemma_stage_in_range(state, i);
    if i < changes.len() {
        assert(state.items[i].writes == (changes[i].after is Some));
        if !state.items[i].writes {
            lemma_stage_holds(state, world, files, changes, i + 1);
        }
    } else {
        lemma_begin_holds(state, world, files, changes, 0);
    }
}

/// What holds before a step holds after it, whatever its outcome.
proof fn lemma_step_holds(
    state: CommitAbs,
    world: Workspace,
    files: Files,
    changes: Seq<ChangeAbs>,
    outcome: OutcomeAbs,
)
    requires
        fits(files, changes),
        changes.len() <= usize::MAX,
        holds(state, world, files, changes),
    ensures
        holds(
            advanced(state, outcome),
            observed(world, changes, state.step, outcome),
            files,
            changes,
        ),
{
    advancing_stays_in_range(state, outcome);
    let next = counted(state, outcome);
    let now = observed(world, changes, state.step, outcome);
    let error = error_of(outcome);
    let n = changes.len() as int;
    if outcome is Done {
        match state.step {
            CommitStep::Prepare => {
                lemma_stage_holds(next, now, files, changes, 0);
            },
            CommitStep::Stage { index } => {
                lemma_stage_holds(next, now, files, changes, index + 1);
            },
            CommitStep::Parents { index } => {
                let i = index as int;
                assert(state.items[i].replaces == (changes[i].before is Some));
            },
            CommitStep::Backup { index } => {
                let i = index as int;
                assert(state.items[i].writes == (changes[i].after is Some));
                lemma_untouched(files, changes, i, i);
                assert(has_backups(now, files, changes, i + 1));
                if !state.items[i].writes {
                    assert(now.files =~= patched(files, changes, i + 1));
                    lemma_applied_holds(next, now, files, changes, i);
                }
            },
            CommitStep::Install { index } => {
                let i = index as int;
                assert(now.files =~= patched(files, changes, i + 1));
                lemma_applied_holds(next, now, files, changes, i);
            },
            CommitStep::RemoveTarget { index } => {
                let i = index as int;
                lemma_taken_back(files, changes, i);
                lemma_apart(files, changes, state, i);
                assert(state.items[i].replaces == (changes[i].before is Some));
                if !state.items[i].replaces {
                    assert(now.files =~= without_current(
                        patched(files, changes, i),
                        changes,
                        state,
                    ));
                    lemma_undo_holds(next, now, files, changes, i);
                } else {
                    assert(now.files =~= without_current(
                        patched(files, changes, i).remove(changes[i].relative),
                        changes,
                        state,
                    ));
                }
            },
            CommitStep::Restore { index } => {
                let i = index as int;
                lemma_taken_back(files, changes, i);
                lemma_apart(files, changes, state, i);
                assert(now.files =~= without_current(patched(files, changes, i), changes, state));
                lemma_undo_holds(next, now, files, changes, i);
            },
            CommitStep::RemoveDirectory { index } => {
                lemma_directories_hold(next, now, files, changes, index as int);
            },
            CommitStep::RestoreCurrent { index } => {
                let i = index as int;
                lemma_taken_back(files, changes, i);
                assert(match changes[i].before {
                    Some(content) => files.contains_key(changes[i].relative)
                        && files[changes[i].relative].content == content,
                    None => !files.contains_key(changes[i].relative),
                });
                assert(now.files =~= files);
            },
            CommitStep::Cleanup => {},
            CommitStep::Finished => {},
        }
    } else {
        reveal_strlit("execution_failed");
        reveal_strlit("outcome_unknown");
        assert("execution_failed"@.len() != "outcome_unknown"@.len());
        match state.step {
            CommitStep::Parents { index } => {
                let i = index as int;
                let cause = CauseAbs { kind: CauseKind::Parents, index, error };
                lemma_undo_holds(
                    CommitAbs { cause: Some(cause), ..next },
                    now,
                    files,
                    changes,
                    i,
                );
            },
            CommitStep::Backup { index } => {
                let i = index as int;
                let cause = CauseAbs { kind: CauseKind::Backup, index, error };
                lemma_undo_holds(
                    CommitAbs { cause: Some(cause), ..next },
                    now,
                    files,
                    changes,
                    i,
                );
            },
            CommitStep::Install { index } => {
                let i = index as int;
                let cause = CauseAbs { kind: CauseKind::Install, index, error };
                lemma_undo_holds(
                    CommitAbs { cause: Some(cause), ..next },
                    now,
                    files,
                    changes,
                    i,
                );
            },
            _ => {},
        }
    }
}

/// The change that failed has another path than the changes before it.
proof fn lemma_apart(files: Files, changes: Seq<ChangeAbs>, state: CommitAbs, i: int)
    requires
        fits(files, changes),
        state.cause matches Some(cause) && cause.index < changes.len(),
        0 <= i < changes.len(),
        state.cause->Some_0.kind == CauseKind::Install ==> i < state.cause->Some_0.index,
    ensures
        state.cause->Some_0.kind == CauseKind::Install
            ==> changes[state.cause->Some_0.index as int].relative != changes[i].relative,
{
    let paths = changed_paths(changes);
    let c = state.cause->Some_0.index as int;
    if i < c {
        assert(paths[i] != paths[c]);
    }
}

/// A commit is atomic. Whatever the outcomes of its steps, when it has
/// finished without a failure every planned change is made and nothing else;
/// when it has finished with `execution_failed`, the files are those that were
/// there before, with their content and their permissions. Only
/// `outcome_unknown` leaves anything else.
pub proof fn commits_are_atomic(
    items: Seq<ItemAbs>,
    fail_after: Option<usize>,
    world: Workspace,
    changes: Seq<ChangeAbs>,
    outcomes: Seq<OutcomeAbs>,
)
    requires
        fits(world.files, changes),
        commits(items, changes),
        changes.len() <= usize::MAX,
    ensures
        ({
            let (state, now) = run(started(items, fail_after), world, changes, outcomes);
            state.step is Finished ==> match state.failure {
                None => now.files == patched(world.files, changes, changes.len() as int),
                Some(error) => error.code == "execution_failed" ==> now.files == world.files,
            }
        }),
{
    lemma_run_holds(items, fail_after, world, changes, outcomes);
}

proof fn lemma_run_holds(
    items: Seq<ItemAbs>,
    fail_after: Option<usize>,
    world: Workspace,
    changes: Seq<ChangeAbs>,
    outcomes: Seq<OutcomeAbs>,
)
    requires
        fits(world.files, changes),
        commits(items, changes),
        changes.len() <= usize::MAX,
    ensures
        ({
            let (state, now) = run(started(items, fail_after), world, changes, outcomes);
            holds(state, now, world.files, changes)
        }),
    decreases outcomes.len(),
{
    if outcomes.len() > 0 {
        lemma_run_holds(items, fail_after, world, changes, outcomes.drop_last());
        let (before, now) = run(
            started(items, fail_after),
            world,
            changes,
            outcomes.drop_last(),
        );
        lemma_step_holds(before, now, world.files, changes, outcomes.last());
    }
}

/// After a commit the files are those that the changes say, with the
/// permissions that the changes say, and every other file is as it was.
pub proof fn patched_files(files: Files, changes: Seq<ChangeAbs>, path: Seq<Seq<char>>)
    requires
        fits(files, changes),
    ensures
        ({
            let after = patched(files, changes, changes.len() as int);
            &&& forall|i: int|
                0 <= i < changes.len()
                    && (#[trigger] changes[i]).relative == path ==> match changes[i].after {
                    Some(_) => after.contains_key(path) && after[path] == written_by(changes[i]),
                    None => !after.contains_key(path),
                }
            &&& !changed_paths(changes).contains(path) ==> after.contains_key(path)
                == files.contains_key(path) && (files.contains_key(path) ==> after[path]
                == files[path])
        }),
{
    lemma_patched(files, changes, changes.len() as int, path);
}

proof fn lemma_patched(files: Files, changes: Seq<ChangeAbs>, n: int, path: Seq<Seq<char>>)
    requires
        fits(files, changes),
        0 <= n <= changes.len(),
    ensures
        ({
            let after = patched(files, changes, n);
            &&& forall|i: int|
                0 <= i < n && (#[trigger] changes[i]).relative == path ==> match changes[i].after {
                    Some(_) => after.contains_key(path) && after[path] == written_by(changes[i]),
                    None => !after.contains_key(path),
                }
            &&& (forall|i: int| 0 <= i < n ==> (#[trigger] changes[i]).relative != path)
                ==> after.contains_key(path) == files.contains_key(path) && (files.contains_key(
                path,
            ) ==> after[path] == files[path])
            &&& !changed_paths(changes).contains(path) ==> after.contains_key(path)
                == files.contains_key(path) && (files.contains_key(path) ==> after[path]
                == files[path])
        }),
    decreases n,
{
    if n > 0 {
        lemma_patched(files, changes, n - 1, path);
        let paths = changed_paths(changes);
        assert(paths[n - 1] == changes[n - 1].relative);
        assert forall|i: int| 0 <= i < n - 1 implies (#[trigger] changes[i]).relative
            != changes[n - 1].relative by {
            assert(paths[i] != paths[n - 1]);
        }
    }
}

} // verus!
