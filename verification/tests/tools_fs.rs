//! Reading, searching and patching files, over a disk held in memory.

use std::collections::BTreeMap;

use agl_core::json::{object, Json, JsonNumber};
use agl_core::tools::artifacts::{
    registered_paths, registration_names, ArtifactAccess, ArtifactRoute, ArtifactRoutes,
};
use agl_core::tools::commit::{CommitStep, PatchCommit, StepOutcome};
use agl_core::tools::descriptor::ToolErrorClass;
use agl_core::tools::edits::{apply_exact_text_edits, PatchEdit, MAX_PATCH_EDITS};
use agl_core::tools::fs::{
    classify_read_only_error, declaration, display_path, entry_action, is_searched, observed_paths,
    read_page,
    requested_read_only_path, EntryAction, EntryKind, Search, FS_APPLY_PATCH_TOOL_ID,
    FS_LIST_TOOL_ID, FS_READ_TOOL_ID, FS_SEARCH_TOOL_ID, MAX_SEARCH_FILE_BYTES,
};
use agl_core::tools::patch::{
    content_digest, resolve_existing_path, CanonicalProbe, ComponentProbe, ExistingProbe,
    FileProbe, ParentProbe, PathKind, SourceProbe, TargetProbe, TargetState,
    MAX_PATCH_CONTENT_BYTES,
};
use agl_core::tools::patch_error::{PatchError, PatchErrorData};
use agl_core::tools::patch_plan::{plan_patch, PatchOperation, PatchPlan, PatchReceipt};
use agl_core::tools::repo_path::normalize_repo_path;

// ---------------------------------------------------------------------------
// The disk
// ---------------------------------------------------------------------------

#[derive(Clone, Debug, PartialEq)]
struct File {
    bytes: Vec<u8>,
    mode: u32,
}

#[derive(Clone, Debug, Default)]
struct Disk {
    files: BTreeMap<String, File>,
}

impl Disk {
    fn with(files: &[(&str, &str)]) -> Disk {
        let mut disk = Disk::default();
        for (path, content) in files {
            disk.write(path, content.as_bytes(), 0o644);
        }
        disk
    }

    fn write(&mut self, path: &str, bytes: &[u8], mode: u32) {
        let file = File {
            bytes: bytes.to_vec(),
            mode,
        };
        self.files.insert(path.to_owned(), file);
    }

    fn read(&self, path: &str) -> String {
        String::from_utf8(self.files[path].bytes.clone()).unwrap()
    }

    fn source(&self, path: &str) -> SourceProbe {
        match self.files.get(path) {
            Some(file) => SourceProbe {
                existing: ExistingProbe {
                    components: path.split('/').map(|_| ComponentProbe::Ordinary).collect(),
                    canonical: CanonicalProbe::File,
                },
                exists: true,
                file: FileProbe::Content {
                    bytes: file.bytes.clone(),
                    permissions: file.mode,
                },
            },
            None => SourceProbe {
                existing: ExistingProbe {
                    components: vec![ComponentProbe::Failed],
                    canonical: CanonicalProbe::Failed,
                },
                exists: false,
                file: FileProbe::OpenFailed("missing".to_owned()),
            },
        }
    }

    fn target(&self, path: &str) -> TargetProbe {
        let depth = path.split('/').count() - 1;
        TargetProbe {
            target: if self.files.contains_key(path) {
                TargetState::Present
            } else {
                TargetState::Absent
            },
            parents: (0..depth).map(|_| ParentProbe::Missing).collect(),
        }
    }

    fn create(&self, path: &str, content: &str) -> PatchOperation {
        PatchOperation::Create {
            path: path.to_owned(),
            content: content.to_owned(),
            expected_absent: true,
            target: self.target(path),
        }
    }

    fn update(&self, path: &str, digest: String, edits: &[(&str, &str)]) -> PatchOperation {
        PatchOperation::Update {
            path: path.to_owned(),
            expected_digest: digest,
            edits: edits
                .iter()
                .map(|(old_text, new_text)| PatchEdit {
                    old_text: (*old_text).to_owned(),
                    new_text: (*new_text).to_owned(),
                })
                .collect(),
            source: self.source(path),
        }
    }

    fn delete(&self, path: &str, digest: String) -> PatchOperation {
        PatchOperation::Delete {
            path: path.to_owned(),
            expected_digest: digest,
            source: self.source(path),
        }
    }

    fn rename(&self, from: &str, to: &str, digest: String) -> PatchOperation {
        PatchOperation::Move {
            from: from.to_owned(),
            to: to.to_owned(),
            expected_digest: digest,
            expected_destination_absent: true,
            source: self.source(from),
            target: self.target(to),
        }
    }

    /// Performs the steps of a commit. The step `broken`, counted from zero,
    /// fails.
    fn commit(
        &mut self,
        plan: &PatchPlan,
        fail_after: Option<usize>,
        broken: Option<usize>,
    ) -> Option<PatchError> {
        let mut commit = PatchCommit::new(plan, fail_after);
        let mut staged: BTreeMap<usize, File> = BTreeMap::new();
        let mut backups: BTreeMap<usize, File> = BTreeMap::new();
        let mut count = 0;
        loop {
            let step = commit.step();
            if step == CommitStep::Finished {
                return commit.into_failure();
            }
            if broken == Some(count) {
                commit.advance(StepOutcome::Failed {
                    created: 0,
                    error: "disk is full".to_owned(),
                });
                count += 1;
                continue;
            }
            count += 1;
            match step {
                CommitStep::Stage { index } => {
                    let change = &plan.changes[index];
                    staged.insert(
                        index,
                        File {
                            bytes: change.after.clone().unwrap(),
                            mode: change.after_permissions.unwrap_or(0o644),
                        },
                    );
                }
                CommitStep::Backup { index } => {
                    let path = plan.changes[index].relative.display();
                    backups.insert(index, self.files.remove(&path).unwrap());
                }
                CommitStep::Install { index } => {
                    let path = plan.changes[index].relative.display();
                    self.files.insert(path, staged.remove(&index).unwrap());
                }
                CommitStep::RemoveTarget { index } => {
                    self.files.remove(&plan.changes[index].relative.display());
                }
                CommitStep::Restore { index } | CommitStep::RestoreCurrent { index } => {
                    let path = plan.changes[index].relative.display();
                    self.files.insert(path, backups.remove(&index).unwrap());
                }
                _ => {}
            }
            commit.advance(StepOutcome::Done { created: 0 });
        }
    }

    fn patch(&mut self, operations: Vec<PatchOperation>) -> Result<Vec<PatchReceipt>, PatchError> {
        let plan = plan_patch(&ArtifactRoutes::new(Vec::new()), &operations)?;
        match self.commit(&plan, None, None) {
            Some(error) => Err(error),
            None => Ok(plan.receipts),
        }
    }
}

fn digest(content: &str) -> String {
    content_digest(content.as_bytes())
}

// ---------------------------------------------------------------------------
// Declaration
// ---------------------------------------------------------------------------

/// What the declaration says of an error of a tool.
fn class(id: &str, code: &str) -> ToolErrorClass {
    let declaration = declaration();
    let tool = declaration.tools.iter().find(|tool| tool.id == id).unwrap();
    tool.errors
        .iter()
        .find(|error| error.code == code)
        .unwrap()
        .class
}

#[test]
fn declared_filesystem_tools_tell_their_errors() {
    let declaration = declaration();
    let tool = |id: &str| declaration.tools.iter().find(|tool| tool.id == id).unwrap();
    assert_eq!(
        tool(FS_READ_TOOL_ID).description,
        "Read a UTF-8 file from the repository with line bounds."
    );
    assert_eq!(
        class(FS_APPLY_PATCH_TOOL_ID, "invalid_patch"),
        ToolErrorClass::Recoverable
    );
    for id in [FS_READ_TOOL_ID, FS_LIST_TOOL_ID, FS_SEARCH_TOOL_ID] {
        assert_eq!(class(id, "not_found"), ToolErrorClass::Recoverable);
    }
    let patch = tool(FS_APPLY_PATCH_TOOL_ID);
    assert!(patch.description.contains("use `op` as the discriminator"));
    assert!(patch.description.contains("`expected_absent=true`"));
    assert!(patch.description.contains("including its `sha256:` prefix"));
    assert!(patch.description.contains("at most one operation per path"));
}

#[test]
fn read_only_missing_paths_are_recoverable_tool_outcomes() {
    let path = |text: &str| object(vec![("path", Json::Text(text.to_owned()))]);
    let cases = [
        (FS_READ_TOOL_ID, path("missing.txt"), "missing.txt"),
        (FS_LIST_TOOL_ID, path("missing-directory"), "missing-directory"),
        (
            FS_SEARCH_TOOL_ID,
            object(vec![
                ("path", Json::Text("missing-directory".to_owned())),
                ("pattern", Json::Text("needle".to_owned())),
            ]),
            "missing-directory",
        ),
    ];
    for (id, arguments, expected) in cases {
        let told = classify_read_only_error(id, &arguments, true).unwrap();
        assert_eq!(class(id, told.code), ToolErrorClass::Recoverable);
        assert_eq!(told.code, "not_found");
        assert_eq!(told.path, expected);
        assert_eq!(
            told.message,
            format!("repository path was not found: {expected}")
        );
        assert!(classify_read_only_error(id, &arguments, false).is_none());
        assert_eq!(requested_read_only_path(id, &arguments).unwrap(), expected);
    }
    assert!(requested_read_only_path(FS_APPLY_PATCH_TOOL_ID, &path("a")).is_none());
    let number = object(vec![("path", Json::Number(JsonNumber::unsigned(1)))]);
    assert!(requested_read_only_path(FS_READ_TOOL_ID, &number).is_none());
}

// ---------------------------------------------------------------------------
// Paths
// ---------------------------------------------------------------------------

#[test]
fn read_rejects_parent_traversal() {
    let error = normalize_repo_path("../secret.txt", false).unwrap_err();
    assert!(error.contains("parent traversal"));
}

#[test]
fn repository_paths_are_normal_and_relative() {
    assert_eq!(
        normalize_repo_path("./src//lib.rs", false).unwrap().display(),
        "src/lib.rs"
    );
    assert!(normalize_repo_path("/etc/passwd", false).is_err());
    assert!(normalize_repo_path("", false).is_err());
    assert!(normalize_repo_path(".", false).is_err());
    assert_eq!(normalize_repo_path(".", true).unwrap().display(), "");
    assert_eq!(display_path(""), ".");
    assert_eq!(display_path("src"), "src");
}

#[test]
fn read_rejects_symlink_paths() {
    let error = resolve_existing_path(
        "linked.md",
        PathKind::File,
        false,
        &ArtifactRoutes::new(Vec::new()),
        &ExistingProbe {
            components: vec![ComponentProbe::Symlink],
            canonical: CanonicalProbe::File,
        },
    )
    .unwrap_err();
    assert!(error.contains("symlink"));
}

#[test]
fn existing_paths_stay_in_the_repository_and_are_of_their_kind() {
    let resolve = |canonical, kind| {
        resolve_existing_path(
            "a",
            kind,
            false,
            &ArtifactRoutes::new(Vec::new()),
            &ExistingProbe {
                components: vec![ComponentProbe::Ordinary],
                canonical,
            },
        )
    };
    assert_eq!(resolve(CanonicalProbe::File, PathKind::File).unwrap().display(), "a");
    assert_eq!(
        resolve(CanonicalProbe::Outside, PathKind::File).unwrap_err(),
        "repository path escapes tool root: a"
    );
    assert_eq!(
        resolve(CanonicalProbe::Directory, PathKind::File).unwrap_err(),
        "repository path is not a file: a"
    );
    assert_eq!(
        resolve(CanonicalProbe::File, PathKind::Directory).unwrap_err(),
        "repository path is not a directory: a"
    );
    assert_eq!(
        resolve(CanonicalProbe::Failed, PathKind::File).unwrap_err(),
        "failed to canonicalize repository path `a`"
    );
}

// ---------------------------------------------------------------------------
// Reading and searching
// ---------------------------------------------------------------------------

#[test]
fn search_returns_bounded_literal_matches() {
    let mut search = Search::new("alpha", Some(1), None).unwrap();
    search.search_file("src/lib.rs", "alpha\nbeta\nalpha\n");
    assert_eq!(search.matches.len(), 1);
    assert!(search.is_full());
    assert_eq!(search.matches[0].path, "src/lib.rs");
    assert_eq!(search.matches[0].line, 1);
    assert_eq!(search.matches[0].text, "alpha");
}

#[test]
fn searches_fold_ascii_case_unless_asked_not_to() {
    let lines = "ALPHA\nalpha\n";
    let count = |case: Option<bool>| {
        let mut search = Search::new("Alpha", None, case).unwrap();
        search.search_file("a", lines);
        search.matches.len()
    };
    assert_eq!(count(Some(false)), 2);
    assert_eq!(count(Some(true)), 0);
    assert!(Search::new("", None, None).is_err());
}

#[test]
fn search_passes_over_git_links_and_large_files() {
    assert_eq!(entry_action(".git", EntryKind::Directory), EntryAction::Skip);
    assert_eq!(entry_action("src", EntryKind::Directory), EntryAction::Descend);
    assert_eq!(entry_action("a", EntryKind::Symlink), EntryAction::Skip);
    assert_eq!(entry_action("a", EntryKind::File), EntryAction::Search);
    assert_eq!(entry_action("a", EntryKind::Other), EntryAction::Skip);
    assert!(is_searched(MAX_SEARCH_FILE_BYTES));
    assert!(!is_searched(MAX_SEARCH_FILE_BYTES + 1));
}

#[test]
fn a_page_has_the_lines_from_its_offset() {
    let page = read_page("a\nb\nc\n", Some(2), Some(1));
    assert_eq!(page.start_line, 2);
    assert_eq!(page.end_line, 2);
    assert_eq!(page.total_lines, 3);
    assert!(page.truncated);
    assert_eq!(page.lines[0].line, 2);
    assert_eq!(page.lines[0].text, "b");
    assert_eq!(page.digest, digest("a\nb\nc\n"));
}

// ---------------------------------------------------------------------------
// Patches
// ---------------------------------------------------------------------------

#[test]
fn content_digests_are_sha_256_texts() {
    assert_eq!(
        content_digest(b"abc"),
        "sha256:ba7816bf8f01cfea414140de5dae2223b00361a396177a9cb410ff61f20015ad"
    );
}

#[test]
fn invalid_exact_edit_is_one_recoverable_observation_without_mutation() {
    let mut disk = Disk::with(&[("file.txt", "before\n")]);
    let operation = disk.update("file.txt", digest("before\n"), &[("missing", "after")]);
    let error = disk.patch(vec![operation]).unwrap_err();
    assert_eq!(
        class(FS_APPLY_PATCH_TOOL_ID, error.code),
        ToolErrorClass::Recoverable
    );
    assert_eq!(error.code, "invalid_patch");
    assert_eq!(
        error.data,
        PatchErrorData::Edit {
            path: "file.txt".to_owned(),
            edit_index: 0
        }
    );
    assert_eq!(disk.read("file.txt"), "before\n");
}

#[test]
fn apply_patch_updates_with_digest_precondition() {
    let mut disk = Disk::with(&[("README.MD", "hello old\n")]);
    let operation = disk.update(
        "README.MD",
        digest("hello old\n"),
        &[("hello old", "hello new")],
    );
    let receipts = disk.patch(vec![operation]).unwrap();
    assert_eq!(receipts[0].path.as_deref(), Some("README.MD"));
    assert_eq!(observed_paths(&receipts), ["README.MD"]);
    assert_eq!(disk.read("README.MD"), "hello new\n");
}

#[test]
fn apply_patch_updates_large_file_after_one_bounded_read() {
    let before = (1..=600)
        .map(|line| format!("line {line} original\n"))
        .collect::<String>();
    let mut disk = Disk::with(&[("large.txt", &before)]);
    let page = read_page(&before, Some(540), Some(20));
    assert_eq!(page.start_line, 540);
    assert_eq!(page.end_line, 559);
    assert_eq!(page.total_lines, 600);
    assert_eq!(page.truncated, true);

    let operation = disk.update(
        "large.txt",
        page.digest,
        &[("line 550 original", "line 550 changed")],
    );
    disk.patch(vec![operation]).unwrap();

    let after = disk.read("large.txt");
    assert!(after.contains("line 549 original\nline 550 changed\nline 551 original"));
    assert_eq!(after.lines().count(), 600);
}

#[test]
fn apply_patch_applies_multiple_exact_utf8_edits_against_one_snapshot() {
    let before = "alpha\nпривет мир\nomega\n";
    let mut disk = Disk::with(&[("unicode.txt", before)]);
    let operation = disk.update(
        "unicode.txt",
        digest(before),
        &[("alpha", "first"), ("привет", "здравствуй"), ("omega", "")],
    );
    disk.patch(vec![operation]).unwrap();
    assert_eq!(disk.read("unicode.txt"), "first\nздравствуй мир\n\n");
}

#[test]
fn apply_patch_rejects_missing_ambiguous_and_overlapping_edits_without_changes() {
    let cases: [(&str, &[(&str, &str)], usize); 3] = [
        ("alpha beta gamma\n", &[("absent", "changed")], 0),
        ("same same\n", &[("same", "changed")], 0),
        (
            "alpha beta gamma\n",
            &[("alpha beta", "first"), ("beta gamma", "second")],
            1,
        ),
    ];
    for (before, edits, edit_index) in cases {
        let mut disk = Disk::with(&[("file.txt", before)]);
        let operation = disk.update("file.txt", digest(before), edits);
        let error = disk.patch(vec![operation]).unwrap_err();
        assert_eq!(error.code, "invalid_patch");
        assert_eq!(
            error.data,
            PatchErrorData::Edit {
                path: "file.txt".to_owned(),
                edit_index
            }
        );
        assert_eq!(disk.read("file.txt"), before);
    }
}

#[test]
fn apply_patch_rejects_invalid_utf8_and_excessive_edits_without_changes() {
    let invalid_before = [0xff, 0xfe];
    let mut disk = Disk::default();
    disk.write("file.bin", &invalid_before, 0o644);
    let operation = disk.update("file.bin", content_digest(&invalid_before), &[("x", "y")]);
    let error = disk.patch(vec![operation]).unwrap_err();
    assert_eq!(error.code, "invalid_patch");
    assert_eq!(
        error.data,
        PatchErrorData::Path {
            path: "file.bin".to_owned()
        }
    );
    assert_eq!(disk.files["file.bin"].bytes, invalid_before);

    let mut disk = Disk::with(&[("file.txt", "before\n")]);
    let edits = vec![("before", "after"); MAX_PATCH_EDITS + 1];
    let operation = disk.update("file.txt", digest("before\n"), &edits);
    let error = disk.patch(vec![operation]).unwrap_err();
    assert_eq!(error.code, "invalid_patch");
    assert_eq!(
        error.data,
        PatchErrorData::Path {
            path: "file.txt".to_owned()
        }
    );
    assert_eq!(disk.read("file.txt"), "before\n");
}

#[test]
fn apply_patch_rejects_staged_byte_overflow() {
    let mut disk = Disk::with(&[("file.txt", "before\n")]);
    let oversized = "x".repeat(MAX_PATCH_CONTENT_BYTES + 1);
    let operation = disk.update("file.txt", digest("before\n"), &[("before", &oversized)]);
    let overflow = disk.patch(vec![operation]).unwrap_err();
    assert_eq!(overflow.code, "invalid_patch");
    assert!(overflow.message.contains("patch content exceeds"));
    assert_eq!(disk.read("file.txt"), "before\n");
}

#[test]
fn apply_patch_preserves_permissions_when_updating_files() {
    let mut disk = Disk::default();
    disk.write("executable.sh", b"#!/bin/sh\nexit 0\n", 0o755);
    disk.write("restricted.txt", b"restricted old\n", 0o640);
    let operations = vec![
        disk.update(
            "executable.sh",
            digest("#!/bin/sh\nexit 0\n"),
            &[("exit 0", "exit 1")],
        ),
        disk.update(
            "restricted.txt",
            digest("restricted old\n"),
            &[("restricted old", "restricted new")],
        ),
    ];
    disk.patch(operations).unwrap();
    assert_eq!(disk.files["executable.sh"].mode, 0o755);
    assert_eq!(disk.files["restricted.txt"].mode, 0o640);
}

#[test]
fn apply_patch_preserves_permissions_when_moving_a_file() {
    let mut disk = Disk::default();
    disk.write("source.sh", b"#!/bin/sh\nexit 0\n", 0o751);
    let operation = disk.rename("source.sh", "destination.sh", digest("#!/bin/sh\nexit 0\n"));
    disk.patch(vec![operation]).unwrap();
    assert!(!disk.files.contains_key("source.sh"));
    assert_eq!(disk.files["destination.sh"].mode, 0o751);
}

#[test]
fn apply_patch_atomically_creates_missing_parent_directories() {
    let mut disk = Disk::default();
    let operation = disk.create("new/nested/file.txt", "created\n");
    disk.patch(vec![operation]).unwrap();
    assert_eq!(disk.read("new/nested/file.txt"), "created\n");
}

#[test]
fn apply_patch_rejects_stale_digest_without_changes() {
    let mut disk = Disk::with(&[("README.MD", "same\nsame\n")]);
    let operation = disk.update("README.MD", digest("stale\n"), &[("same", "changed")]);
    let error = disk.patch(vec![operation]).unwrap_err();
    assert!(error.to_string().contains("conflict"));
    assert_eq!(
        error.data,
        PatchErrorData::Digest {
            path: "README.MD".to_owned(),
            expected_digest: digest("stale\n"),
            actual_digest: digest("same\nsame\n"),
        }
    );
    assert_eq!(disk.read("README.MD"), "same\nsame\n");
}

#[test]
fn apply_patch_commits_create_delete_and_move_together() {
    let mut disk = Disk::with(&[
        ("update.txt", "update old\n"),
        ("delete.txt", "delete me\n"),
        ("move.txt", "move me\n"),
    ]);
    let operations = vec![
        disk.create("created.txt", "created\n"),
        disk.update(
            "update.txt",
            digest("update old\n"),
            &[("update old", "update new")],
        ),
        disk.delete("delete.txt", digest("delete me\n")),
        disk.rename("move.txt", "moved.txt", digest("move me\n")),
    ];
    let receipts = disk.patch(operations).unwrap();
    assert_eq!(receipts.len(), 4);
    assert_eq!(
        observed_paths(&receipts),
        ["created.txt", "delete.txt", "move.txt", "moved.txt", "update.txt"]
    );
    assert_eq!(disk.read("created.txt"), "created\n");
    assert_eq!(disk.read("update.txt"), "update new\n");
    assert!(!disk.files.contains_key("delete.txt"));
    assert!(!disk.files.contains_key("move.txt"));
    assert_eq!(disk.read("moved.txt"), "move me\n");
}

fn two_updates(disk: &Disk) -> Vec<PatchOperation> {
    vec![
        disk.update("first.txt", digest("first old\n"), &[("first old", "first new")]),
        disk.update(
            "second.txt",
            digest("second old\n"),
            &[("second old", "second new")],
        ),
    ]
}

#[test]
fn apply_patch_rolls_back_an_injected_mid_commit_failure() {
    let mut disk = Disk::with(&[("first.txt", "first old\n"), ("second.txt", "second old\n")]);
    let operations = two_updates(&disk);
    let plan = plan_patch(&ArtifactRoutes::new(Vec::new()), &operations).unwrap();
    let error = disk.commit(&plan, Some(1), None).unwrap();
    assert!(error.to_string().contains("injected patch commit failure"));
    assert_eq!(disk.read("first.txt"), "first old\n");
    assert_eq!(disk.read("second.txt"), "second old\n");
}

#[test]
fn apply_patch_rollback_restores_original_permissions() {
    let mut disk = Disk::default();
    disk.write("first.sh", b"#!/bin/sh\nexit 0\n", 0o755);
    disk.write("second.txt", b"second old\n", 0o640);
    let operations = vec![
        disk.update(
            "first.sh",
            digest("#!/bin/sh\nexit 0\n"),
            &[("exit 0", "exit 1")],
        ),
        disk.update(
            "second.txt",
            digest("second old\n"),
            &[("second old", "second new")],
        ),
    ];
    let plan = plan_patch(&ArtifactRoutes::new(Vec::new()), &operations).unwrap();
    disk.commit(&plan, Some(1), None).unwrap();
    assert_eq!(disk.read("first.sh"), "#!/bin/sh\nexit 0\n");
    assert_eq!(disk.read("second.txt"), "second old\n");
    assert_eq!(disk.files["first.sh"].mode, 0o755);
    assert_eq!(disk.files["second.txt"].mode, 0o640);
}

#[test]
fn a_commit_with_one_broken_step_changes_all_or_nothing() {
    let start = Disk::with(&[
        ("first.txt", "first old\n"),
        ("second.txt", "second old\n"),
        ("gone.txt", "gone\n"),
    ]);
    let mut operations = two_updates(&start);
    operations.push(start.delete("gone.txt", digest("gone\n")));
    operations.push(start.create("made.txt", "made\n"));
    let plan = plan_patch(&ArtifactRoutes::new(Vec::new()), &operations).unwrap();
    let mut whole = start.clone();
    assert!(whole.commit(&plan, None, None).is_none());
    let mut rolled_back = 0;
    for broken in 0..30 {
        let mut disk = start.clone();
        match disk.commit(&plan, None, Some(broken)) {
            Some(error) if error.code == "outcome_unknown" => {
                assert_eq!(
                    error.message,
                    "patch committed but transaction cleanup failed: disk is full"
                );
                assert_eq!(disk.files, whole.files);
            }
            Some(error) => {
                assert_eq!(error.code, "execution_failed");
                assert_eq!(disk.files, start.files);
                rolled_back += 1;
            }
            None => assert_eq!(disk.files, whole.files),
        }
    }
    assert!(rolled_back > 8);
}

#[test]
fn a_failed_rollback_is_an_unknown_outcome() {
    let mut disk = Disk::with(&[("first.txt", "first old\n"), ("second.txt", "second old\n")]);
    let operations = two_updates(&disk);
    let plan = plan_patch(&ArtifactRoutes::new(Vec::new()), &operations).unwrap();
    let mut commit = PatchCommit::new(&plan, Some(1));
    while !matches!(commit.step(), CommitStep::Restore { .. }) {
        commit.advance(StepOutcome::Done { created: 0 });
    }
    commit.advance(StepOutcome::Failed {
        created: 0,
        error: "gone".to_owned(),
    });
    while commit.step() != CommitStep::Finished {
        commit.advance(StepOutcome::Done { created: 0 });
    }
    let error = commit.into_failure().unwrap();
    assert_eq!(error.code, "outcome_unknown");
    assert_eq!(error.message, "injected commit failure rollback failed: gone");
    disk.files.clear();
}

#[test]
fn a_patch_touches_each_path_once() {
    let disk = Disk::with(&[("a", "a\n")]);
    let error = plan_patch(
        &ArtifactRoutes::new(Vec::new()),
        &vec![disk.delete("a", digest("a\n")), disk.delete("./a", digest("a\n"))],
    )
    .unwrap_err();
    assert_eq!(error.code, "not_found");
    let error = plan_patch(
        &ArtifactRoutes::new(Vec::new()),
        &vec![disk.delete("a", digest("a\n")), disk.delete("a", digest("a\n"))],
    )
    .unwrap_err();
    assert_eq!(error.message, "patch touches `a` more than once");
    assert!(plan_patch(&ArtifactRoutes::new(Vec::new()), &vec![]).is_err());
}

#[test]
fn creating_over_a_file_is_a_conflict() {
    let mut disk = Disk::with(&[("a", "a\n")]);
    let operation = disk.create("a", "b\n");
    let error = disk.patch(vec![operation]).unwrap_err();
    assert_eq!(error.code, "conflict");
    assert_eq!(
        error.data,
        PatchErrorData::Absence {
            path: "a".to_owned()
        }
    );
}

// ---------------------------------------------------------------------------
// Artifacts
// ---------------------------------------------------------------------------

fn listing(name: &str, path: &str) -> String {
    format!("submodule.{name}.path {path}")
}

#[test]
fn generic_filesystem_requires_an_exact_artifact_handle_route() {
    let text = listing("core.repo:tasks", ".agl/tasks");
    assert_eq!(registration_names(&text), ["core.repo:tasks"]);
    let paths = registered_paths(&text, &vec![true]).unwrap();
    let task = normalize_repo_path(".agl/tasks/task.md", false).unwrap();
    let mut routes = ArtifactRoutes::new(paths);
    let error = routes
        .enforce_artifact_access(&task, ArtifactAccess::ReadTree)
        .unwrap_err();
    assert!(error.contains("no admitted ArtifactHandle is bound"));

    routes
        .with_artifact_route(ArtifactRoute {
            path: normalize_repo_path(".agl/tasks", false).unwrap(),
            read_denial: None,
            mutate_denial: Some("handle lacks MutateTree".to_owned()),
        })
        .unwrap();
    assert!(routes
        .enforce_artifact_access(&task, ArtifactAccess::ReadTree)
        .is_ok());
    let error = routes
        .enforce_artifact_access(&task, ArtifactAccess::MutateTree)
        .unwrap_err();
    assert!(error.contains("MutateTree"));

    let mut routes = ArtifactRoutes::new(registered_paths(&text, &vec![true]).unwrap());
    routes
        .with_artifact_route(ArtifactRoute {
            path: normalize_repo_path(".agl/tasks", false).unwrap(),
            read_denial: None,
            mutate_denial: None,
        })
        .unwrap();
    let disk = Disk::default();
    let created = vec![disk.create(".agl/tasks/new.md", "new\n")];
    assert!(plan_patch(&routes, &created).is_ok());
    let unbound = ArtifactRoutes::new(registered_paths(&text, &vec![true]).unwrap());
    assert_eq!(plan_patch(&unbound, &created).unwrap_err().code, "invalid_patch");
}

#[test]
fn registrations_are_of_artifacts_and_distinct() {
    let text = format!("{}\n{}", listing("a:b", ".agl/x"), listing("a:b", ".agl/y"));
    assert_eq!(
        registered_paths(&text, &vec![true, true]).unwrap_err(),
        "duplicate Artifact registration: a:b"
    );
    let text = format!("{}\n{}", listing("a:b", ".agl/x"), listing("a:c", ".agl/x"));
    assert_eq!(
        registered_paths(&text, &vec![true, true]).unwrap_err(),
        "duplicate Artifact submodule path: .agl/x"
    );
    assert!(registered_paths(&listing("a:b", "x"), &vec![true]).is_err());
    assert!(registered_paths(&listing("a:b", "./.agl/x"), &vec![true]).is_err());
    assert!(registered_paths(&listing("other", "x"), &vec![false])
        .unwrap()
        .is_empty());
    assert_eq!(
        registered_paths("broken", &vec![true]).unwrap_err(),
        "malformed .gitmodules Artifact registration"
    );
}

#[test]
fn edits_in_another_order_give_the_same_bytes() {
    let edits = |pairs: &[(&str, &str)]| -> Vec<PatchEdit> {
        pairs
            .iter()
            .map(|(old_text, new_text)| PatchEdit {
                old_text: (*old_text).to_owned(),
                new_text: (*new_text).to_owned(),
            })
            .collect()
    };
    let apply = |pairs: &[(&str, &str)]| {
        apply_exact_text_edits("a", b"one two three", &edits(pairs))
    };
    let orders = [
        [("one", "1"), ("two ", ""), ("three", "3")],
        [("three", "3"), ("one", "1"), ("two ", "")],
        [("two ", ""), ("three", "3"), ("one", "1")],
    ];
    for order in orders {
        assert_eq!(apply(&order).unwrap(), b"1 3");
    }
    assert!(apply(&[("one two", "x"), ("two three", "y")]).is_err());
    assert!(apply(&[("two three", "y"), ("one two", "x")]).is_err());
    assert_eq!(
        apply_exact_text_edits("a", b"", &edits(&[("", "new")])).unwrap(),
        b"new"
    );
}
