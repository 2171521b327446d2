//! The tools over the store, the outbox, permissions and the repository.

use std::sync::Mutex;

use agl_core::json::Json;
use agl_core::tools::artifacts::ArtifactAccess;
use agl_core::tools::descriptor::{
    observation_workflow, Effect, OperationKind, ToolCatalog, ToolCatalogError,
    ToolWorkflowMapping,
};
use agl_core::tools::extensions::{fs_tool_ids, tool_bindings};
use agl_core::tools::guards::{
    CoreGuards, GuardHook, JSON_VALIDATE_HOOK_ID, RUNTIME_IDENTITY_REQUIRE_HOOK_ID,
};
use agl_core::tools::matrix::{status as outbox_status, status_limit, QueuedNotification};
use agl_core::tools::permissions::{
    grant, parse_sensitive_inputs, permission_operation_id, request, status as permission_status,
    GrantArgs, GrantPlan, PermissionDuration, PermissionRecord, PermissionRuntimeStatus,
    RequestArgs, RequestError, SensitiveInput, PERMISSIONS_GRANT_TOOL_ID,
    PERMISSIONS_REQUEST_TOOL_ID,
};
use agl_core::tools::repo::{
    check_commit, check_verification, commit_answer, ArtifactTarget, AuthorityClass,
    CommitOutcome, CommitProbe, RepoArtifacts,
};
use agl_core::tools::store::{
    bounded_export, dispatch as dispatch_store, StoreAdminDomain, StoreAdminPort,
    StoreAppliedMigrationSnapshot, StoreDomainSnapshot, StoreExportSnapshot,
    StoreMigrationSnapshot, StoreSchemaSnapshot, StoreStatusSnapshot, StoreTool, StoreTools,
    MAX_EXPORT_BYTES, STORE_EXPORT_TOOL_ID, STORE_MIGRATE_TOOL_ID, STORE_STATUS_TOOL_ID,
};
use agl_core::tools::{fs, guards, matrix, matrix_delivery, permissions, process, repo, store};

// ---------------------------------------------------------------------------
// Store
// ---------------------------------------------------------------------------

#[derive(Default)]
struct FakeAdmin {
    migrated: Mutex<bool>,
}

impl StoreAdminPort for FakeAdmin {
    fn schema_status(&self) -> Result<StoreSchemaSnapshot, String> {
        let migrated = *self.migrated.lock().unwrap();
        Ok(StoreSchemaSnapshot {
            database_path: "/tmp/agentlibre.sqlite3".to_owned(),
            database_exists: migrated,
            schema_version: migrated.then_some(20),
            current_schema_version: 20,
            applied_migrations: if migrated {
                (1..=20).collect()
            } else {
                Vec::new()
            },
            migration_required: !migrated,
        })
    }

    fn status(&self) -> Result<StoreStatusSnapshot, String> {
        Ok(StoreStatusSnapshot {
            idempotency_in_progress: 0,
            stale_idempotency_count: 0,
            domains: vec![StoreDomainSnapshot {
                name: "memory".to_owned(),
                status: "ok".to_owned(),
                total_rows: 1,
                active_rows: 1,
            }],
        })
    }

    fn export_jsonl(
        &self,
        _domain: StoreAdminDomain,
        _include_deleted: bool,
    ) -> Result<StoreExportSnapshot, String> {
        Ok(StoreExportSnapshot {
            record_count: 1,
            bytes: b"{\"title\":\"Store export\"}\n".to_vec(),
        })
    }

    fn migrate(&self) -> Result<StoreMigrationSnapshot, String> {
        *self.migrated.lock().unwrap() = true;
        Ok(StoreMigrationSnapshot {
            database_path: "/tmp/agentlibre.sqlite3".to_owned(),
            before_schema_version: 0,
            after_schema_version: 20,
            applied_migrations: vec![StoreAppliedMigrationSnapshot {
                version: 20,
                name: "020_domain_persistence_authority".to_owned(),
            }],
        })
    }
}

#[test]
fn store_tools_report_status_and_export_known_domains() {
    let admin = FakeAdmin::default();
    *admin.migrated.lock().unwrap() = true;
    let tools = StoreTools::new(admin);
    assert_eq!(dispatch_store(STORE_STATUS_TOOL_ID), Ok(StoreTool::Status));
    let status = tools.status().unwrap();
    assert_eq!(dispatch_store(STORE_EXPORT_TOOL_ID), Ok(StoreTool::Export));
    let export = tools
        .export(StoreAdminDomain::Memory, None, Some(4096))
        .unwrap();

    assert!(status.schema.schema_version.is_some());
    assert_eq!(status.schema.migration_required, false);
    assert_eq!(status.health.unwrap().domains[0].name, "memory");
    assert_eq!(export.domain.as_str(), "memory");
    assert_eq!(export.record_count, 1);
    match &export.records[0] {
        Json::Object(record) => assert_eq!(
            record.get("title"),
            Some(&Json::Text("Store export".to_owned()))
        ),
        _ => panic!("a record is an object"),
    }
    assert!(!export.truncated);
}

#[test]
fn store_tools_status_does_not_create_database_and_migrate_is_explicit() {
    let tools = StoreTools::new(FakeAdmin::default());

    let status = tools.status().unwrap();
    assert_eq!(status.schema.database_exists, false);
    assert_eq!(status.schema.migration_required, true);
    assert!(status.health.is_none());
    assert_eq!(dispatch_store(STORE_MIGRATE_TOOL_ID), Ok(StoreTool::Migrate));
    let migrated = tools.migrate().unwrap();
    let current = tools.status().unwrap();

    assert_eq!(migrated.after_schema_version, 20);
    assert_eq!(current.schema.database_exists, true);
    assert_eq!(current.schema.migration_required, false);
}

fn exported(bytes: &[u8], record_count: usize) -> StoreExportSnapshot {
    StoreExportSnapshot {
        record_count,
        bytes: bytes.to_vec(),
    }
}

#[test]
fn exports_stop_before_the_first_line_that_does_not_fit() {
    let export = exported(b"[1]\n[2]\n[3]\n", 3);
    let told = bounded_export(StoreAdminDomain::Notes, Some(8), &export).unwrap();
    assert_eq!(told.records.len(), 2);
    assert_eq!(told.bytes, 8);
    assert!(told.truncated);
    let told = bounded_export(StoreAdminDomain::Notes, Some(usize::MAX), &export).unwrap();
    assert_eq!(told.records.len(), 3);
    assert!(told.bytes <= MAX_EXPORT_BYTES);
    assert!(!told.truncated);
}

#[test]
fn exports_are_utf_8_and_json() {
    assert_eq!(
        bounded_export(StoreAdminDomain::Cron, None, &exported(b"\xff\n", 1)).unwrap_err(),
        "store export was not valid UTF-8"
    );
    assert_eq!(
        bounded_export(StoreAdminDomain::Cron, None, &exported(b"{\n", 1)).unwrap_err(),
        "store export contained an invalid JSONL record"
    );
}

#[test]
fn store_domains_have_their_names() {
    assert_eq!(StoreAdminDomain::Memory.as_str(), "memory");
    assert_eq!(StoreAdminDomain::Notes.as_str(), "notes");
    assert_eq!(StoreAdminDomain::Cron.as_str(), "cron");
    assert_eq!(StoreAdminDomain::Permissions.as_str(), "permissions");
}

// ---------------------------------------------------------------------------
// Outbox
// ---------------------------------------------------------------------------

fn queued(index: usize) -> QueuedNotification {
    QueuedNotification {
        id: format!("id-{index}"),
        notify_ref: "matrix-room:!room:example.org".to_owned(),
        source_kind: "test".to_owned(),
        source_id: format!("source-{index}"),
        state: "queued".to_owned(),
        delivered: false,
    }
}

/// The outbox answers with at most one row more than it is asked for.
fn rows(limit: usize) -> Vec<QueuedNotification> {
    (0..2).map(queued).take(limit + 1).collect()
}

#[test]
fn matrix_tools_status_truncates_only_when_extra_rows_exist() {
    let exact = outbox_status(rows(2), status_limit(Some(2)));
    let truncated = outbox_status(rows(1), status_limit(Some(1)));
    assert_eq!(exact.notifications.len(), 2);
    assert_eq!(exact.truncated, false);
    assert_eq!(truncated.notifications.len(), 1);
    assert_eq!(truncated.truncated, true);
}

#[test]
fn outbox_limits_are_clamped() {
    assert_eq!(status_limit(None), 10);
    assert_eq!(status_limit(Some(0)), 1);
    assert_eq!(status_limit(Some(1_000)), 100);
}

// ---------------------------------------------------------------------------
// Permissions
// ---------------------------------------------------------------------------

fn asking(tools: &[&str], reason: &str) -> RequestArgs {
    RequestArgs {
        tools: tools.iter().map(|tool| (*tool).to_owned()).collect(),
        reason: reason.to_owned(),
        max_operation_kind: None,
        state_effects: None,
        sensitive_inputs: None,
        scope: None,
        duration: None,
        requester_ref: None,
    }
}

fn runtime(mode: &str, visible: &[&str]) -> PermissionRuntimeStatus {
    PermissionRuntimeStatus {
        current_mode: mode.to_owned(),
        visible_tools: visible.iter().map(|tool| (*tool).to_owned()).collect(),
        dynamic_grants: false,
        granted_visible_tools: Vec::new(),
        ignored_grants: Vec::new(),
    }
}

#[test]
fn permission_request_creates_pending_one_turn_request() {
    let mut args = asking(&["core.note:add"], "Create one explicit note.");
    args.requester_ref = Some("chat:turn-1".to_owned());
    let draft = request(&args).unwrap();
    assert_eq!(draft.duration, PermissionDuration::OneTurn);
    assert_eq!(draft.requested_tools.len(), 1);
    assert_eq!(draft.requested_tools[0].as_str(), "core.note:add");
    assert_eq!(draft.requester_ref, "chat:turn-1");
    assert_eq!(draft.reason, "Create one explicit note.");

    let pending = PermissionRecord {
        id: "request-1".to_owned(),
        tools: vec!["core.note:add".to_owned()],
        max_operation_kind: draft.max_operation_kind,
        state_effects: vec![],
        sensitive_inputs: vec![],
        duration: draft.duration,
        state: "pending_approval".to_owned(),
    };
    let status = permission_status(PermissionRuntimeStatus::default(), vec![pending], vec![]);
    assert_eq!(status.runtime.current_mode, "unknown");
    assert_eq!(status.runtime.dynamic_grants, false);
    assert_eq!(status.pending_request_count, 1);
    assert_eq!(status.active_grant_count, 0);
    assert_eq!(status.pending_requests[0].tools, ["core.note:add"]);
}

#[test]
fn permission_request_rejects_permission_tools() {
    match request(&asking(&["core.permission:grant"], "grant myself")) {
        Err(RequestError::Tools(message)) => {
            assert!(message.contains("permission tools cannot request"))
        }
        _ => panic!("a permission tool is refused"),
    }
}

#[test]
fn permission_status_reports_runtime_snapshot() {
    let visible = [
        "core.workspace:fs.read",
        "core.permission:status",
        "core.permission:request",
    ];
    let status = permission_status(runtime("read-only", &visible), vec![], vec![]);
    assert_eq!(
        status.elevated_effect_warnings[1],
        (
            "shell_login_startup",
            "execution of user-controlled shell startup files"
        )
    );
    assert_eq!(status.runtime.current_mode, "read-only");
    assert_eq!(status.runtime.visible_tools, visible);
    assert_eq!(status.runtime.dynamic_grants, false);
    assert!(status.runtime.granted_visible_tools.is_empty());
    assert!(status.runtime.ignored_grants.is_empty());
}

#[test]
fn permission_requests_name_tools_effects_and_inputs() {
    assert!(matches!(request(&asking(&[], "why")), Err(RequestError::Tools(_))));
    assert!(matches!(
        request(&asking(&["not an id"], "why")),
        Err(RequestError::Tools(_))
    ));
    let repeated = request(&asking(&["core.note:add", "core.note:add"], "why")).unwrap();
    assert_eq!(repeated.requested_tools.len(), 1);
    let mut effects = asking(&["core.note:add"], "why");
    effects.state_effects = Some(vec!["nope".to_owned()]);
    assert!(matches!(request(&effects), Err(RequestError::Effect(_))));
    let mut inputs = asking(&["core.note:add"], "why");
    inputs.sensitive_inputs = Some(vec!["nope".to_owned()]);
    assert!(matches!(request(&inputs), Err(RequestError::Input(_))));
    assert_eq!(
        parse_sensitive_inputs(&Some(vec!["screen_capture".to_owned()])),
        Ok(vec![SensitiveInput::ScreenCapture])
    );
}

#[test]
fn grants_are_of_a_request_or_direct() {
    let of_request = grant(&GrantArgs::Request {
        request_id: "request-1".to_owned(),
        granted_by_ref: Some("operator".to_owned()),
        resolution_ref: None,
    });
    match of_request {
        Ok(GrantPlan::Request {
            request_id,
            granted_by_ref,
            resolution_ref,
        }) => {
            assert_eq!(request_id, "request-1");
            assert_eq!(granted_by_ref, "operator");
            assert_eq!(resolution_ref, None);
        }
        _ => panic!("a request is granted"),
    }
    let direct = grant(&GrantArgs::Direct {
        tool_id: "core.note:add".to_owned(),
        max_operation_kind: Some(OperationKind::Write),
        state_effects: None,
        sensitive_inputs: None,
        scope: None,
        duration: Some(PermissionDuration::Session),
        granted_by_ref: None,
    });
    match direct {
        Ok(GrantPlan::Direct(draft)) => {
            assert_eq!(draft.tool_id.as_str(), "core.note:add");
            assert_eq!(draft.max_operation_kind, OperationKind::Write);
            assert_eq!(draft.duration, PermissionDuration::Session);
        }
        _ => panic!("a tool is granted"),
    }
}

#[test]
fn permission_operations_are_named_by_their_step_or_request() {
    let of_step = permission_operation_id(
        PERMISSIONS_REQUEST_TOOL_ID,
        Some("run_1:step_1".to_owned()),
        None,
    )
    .unwrap();
    assert!(of_step.contains("run_1:step_1"));
    assert!(permission_operation_id(PERMISSIONS_GRANT_TOOL_ID, None, None).is_err());
}

// ---------------------------------------------------------------------------
// Repository
// ---------------------------------------------------------------------------

#[test]
fn core_repo_declares_tasks_artifact_and_exact_two_phase_commit_effects() {
    let artifacts = repo::artifacts();
    let tasks = artifacts
        .iter()
        .find(|artifact| artifact.id == "core.repo:tasks")
        .expect("core.repo declares the fixed tasks Artifact");
    assert_eq!(tasks.kind, "agentlibre.task-specs");
    assert_eq!(tasks.access, [ArtifactAccess::ReadTree]);

    let effects = repo::own_effects();
    for effect_id in ["agl:artifact.repository", "agl:repo.gitlink"] {
        let effect = effects
            .iter()
            .find(|effect| effect.0 == effect_id)
            .unwrap_or_else(|| panic!("missing effect {effect_id}"));
        assert_eq!(effect.1, AuthorityClass::RepositoryMutation);
    }

    let descriptor = repo::declaration();
    let commit = descriptor
        .tools
        .iter()
        .find(|tool| tool.id == "core.repo:artifact.commit")
        .expect("core.repo owns one generic Artifact commit Tool");
    assert_eq!(
        commit.state_effects,
        [Effect::ArtifactRepository, Effect::RepoGitlink]
    );
    let links = repo::artifact_links();
    let of_commit: Vec<_> = links.iter().filter(|link| link.tool_id == commit.id).collect();
    assert_eq!(of_commit.len(), 1);
    assert!(matches!(
        &of_commit[0].target,
        ArtifactTarget::FromArgument { pointer, access }
            if *pointer == "/artifact_id" && access == &ArtifactAccess::MutateTree
    ));
}

#[test]
fn tasks_are_verified_through_their_fixed_handle() {
    let links = repo::artifact_links();
    let of_verify: Vec<_> = links
        .iter()
        .filter(|link| link.tool_id == "core.repo:tasks.verify")
        .collect();
    assert_eq!(of_verify.len(), 1);
    assert_eq!(of_verify[0].target, ArtifactTarget::Fixed("core.repo:tasks"));
    assert_eq!(of_verify[0].access, ArtifactAccess::ReadTree);
}

#[test]
fn core_repo_catalog_has_no_profile_component_or_legacy_status_tools() {
    let descriptor = repo::declaration();
    let ids = descriptor
        .tools
        .iter()
        .map(|tool| tool.id)
        .collect::<Vec<_>>();
    for forbidden in [
        "core.repo:status",
        "core.repo:import_profile",
        "core.repo:export_profile",
        "core.repo:component.status",
        "core.repo:component.sync",
        "core.repo:component.lock",
    ] {
        assert!(
            !ids.contains(&forbidden),
            "obsolete Tool remains: {forbidden}"
        );
    }
    let commit = descriptor
        .tools
        .iter()
        .find(|tool| tool.id == "core.repo:artifact.commit")
        .unwrap();
    assert_eq!(
        commit.state_effects,
        [Effect::ArtifactRepository, Effect::RepoGitlink]
    );
}

#[test]
fn artifacts_are_committed_only_when_admitted() {
    let mut artifacts = RepoArtifacts::new();
    assert_eq!(
        check_verification(&artifacts),
        Err("core.repo:tasks ArtifactHandle is not admitted")
    );
    assert_eq!(
        artifacts.with_artifact("a:b", "a:c"),
        Err("Artifact binding and handle IDs differ")
    );
    artifacts
        .with_artifact("core.repo:tasks", "core.repo:tasks")
        .unwrap();
    assert!(check_verification(&artifacts).is_ok());
    let probe = CommitProbe {
        run_step_key: None,
        request_id: Some("request-1".to_owned()),
        has_correlation: true,
        id_fault: None,
        denial: None,
        request_fault: None,
        has_store: true,
    };
    assert_eq!(
        check_commit(&artifacts, "core.repo:tasks", &probe),
        Ok("request-1".to_owned())
    );
    assert_eq!(
        check_commit(&artifacts, "a:b", &probe).unwrap_err(),
        "ArtifactHandle is not admitted for a:b"
    );
    let mut step = probe.clone();
    step.run_step_key = Some("step-1".to_owned());
    assert_eq!(
        check_commit(&artifacts, "core.repo:tasks", &step),
        Ok("step-1".to_owned())
    );
    let refused = |change: fn(&mut CommitProbe)| {
        let mut changed = probe.clone();
        change(&mut changed);
        check_commit(&artifacts, "core.repo:tasks", &changed).unwrap_err()
    };
    assert_eq!(
        refused(|probe| probe.request_id = None),
        "Artifact commit requires a request or run-step idempotency identity"
    );
    assert_eq!(
        refused(|probe| probe.has_correlation = false),
        "Artifact commit was dispatched without Tool Effect correlation"
    );
    assert_eq!(refused(|probe| probe.denial = Some("denied".to_owned())), "denied");
    assert_eq!(
        refused(|probe| probe.has_store = false),
        "Artifact commit store is not configured"
    );
}

#[test]
fn a_commit_tells_its_effects() {
    let answer = commit_answer(
        "core.repo:tasks",
        &CommitOutcome {
            is_conflict: false,
            operation_id: "step-1".to_owned(),
            child_commit: "c0".to_owned(),
            parent_commit: "p0".to_owned(),
        },
    );
    assert_eq!(answer.status, "committed");
    assert_eq!(answer.observed.len(), 2);
    assert_eq!(answer.observed[0].effect, Effect::ArtifactRepository);
    assert_eq!(
        answer.observed[0].scope,
        [
            ("artifact_id", "core.repo:tasks".to_owned()),
            ("child_commit", "c0".to_owned())
        ]
    );
    assert_eq!(answer.observed[1].effect, Effect::RepoGitlink);
}

// ---------------------------------------------------------------------------
// Descriptors
// ---------------------------------------------------------------------------

#[test]
fn an_extension_is_registered_once() {
    let mut catalog = ToolCatalog::new();
    guards::register(&mut catalog).unwrap();
    matrix_delivery::register(&mut catalog).unwrap();
    assert!(catalog.tool("matrix.bridge:outbox.deliver").is_some());
    assert!(catalog.tool("matrix.bridge:nope").is_none());
    assert_eq!(
        guards::register(&mut catalog).unwrap_err(),
        ToolCatalogError::DuplicateExtension { id: "core" }
    );
}

#[test]
fn actions_declare_operation_kinds_and_state_effects() {
    let mut catalog = ToolCatalog::new();
    for descriptor in [
        fs::declaration(),
        matrix::declaration(),
        matrix_delivery::declaration(),
        permissions::declaration(),
        process::declaration(),
        repo::declaration(),
        store::declaration(),
    ] {
        catalog.register(descriptor).unwrap();
    }
    let expected: [(&str, OperationKind, &[Effect]); 12] = [
        (fs::FS_READ_TOOL_ID, OperationKind::Read, &[]),
        (fs::FS_SEARCH_TOOL_ID, OperationKind::Read, &[]),
        (fs::FS_APPLY_PATCH_TOOL_ID, OperationKind::Write, &[Effect::RepoFiles]),
        (matrix::MATRIX_OUTBOX_STATUS_TOOL_ID, OperationKind::Read, &[]),
        (
            matrix::MATRIX_OUTBOX_ENQUEUE_TOOL_ID,
            OperationKind::Write,
            &[Effect::MatrixOutbox],
        ),
        (
            matrix_delivery::MATRIX_OUTBOX_DELIVER_TOOL_ID,
            OperationKind::Execute,
            &[Effect::MatrixOutbox],
        ),
        (STORE_STATUS_TOOL_ID, OperationKind::Read, &[]),
        (STORE_MIGRATE_TOOL_ID, OperationKind::Admin, &[Effect::StoreSchema]),
        (
            PERMISSIONS_REQUEST_TOOL_ID,
            OperationKind::Request,
            &[Effect::StorePermissionRequests],
        ),
        (
            process::PROCESS_CD_TOOL_ID,
            OperationKind::Write,
            &[Effect::SessionWorkingDirectory],
        ),
        (
            process::PROCESS_KILL_TOOL_ID,
            OperationKind::Execute,
            &[Effect::ControlProcess],
        ),
        (repo::TASKS_VERIFY_TOOL_ID, OperationKind::Read, &[]),
    ];
    for (id, kind, effects) in expected {
        let action = catalog.tool(id).unwrap();
        assert_eq!(action.operation_kind, kind, "{id}");
        assert_eq!(action.state_effects, effects, "{id}");
    }
}

#[test]
fn hooks_are_known_by_their_ids() {
    let guards = CoreGuards::new();
    assert_eq!(guards.run_hook(JSON_VALIDATE_HOOK_ID).unwrap(), GuardHook::Json);
    assert_eq!(
        guards.run_hook(RUNTIME_IDENTITY_REQUIRE_HOOK_ID).unwrap(),
        GuardHook::RuntimeIdentity { required: true }
    );
    assert_eq!(guards.run_hook("core:nope").unwrap_err().code, "unknown_hook");
}

#[test]
fn tools_are_bound_to_a_handler() {
    assert_eq!(
        tool_bindings(true, "core.workspace", fs_tool_ids()).unwrap(),
        fs_tool_ids()
    );
    assert_eq!(
        tool_bindings(false, "core.workspace", fs_tool_ids())
            .unwrap_err()
            .to_string(),
        "host binding for Extension `core.workspace` is absent or has the wrong type"
    );
}

#[test]
fn every_declared_outcome_is_observed() {
    let descriptor = store::declaration();
    let outcomes = vec![vec!["ok".to_owned()], vec![], vec!["ok".to_owned()]];
    let mappings = observation_workflow(&descriptor, &outcomes);
    assert!(mappings
        .iter()
        .any(|mapping| mapping.tool_id == STORE_STATUS_TOOL_ID && mapping.code == "ok"));
}

#[test]
fn runs_observe_files_and_processes() {
    let told = |mappings: Vec<ToolWorkflowMapping>| -> Vec<(&'static str, String)> {
        mappings
            .into_iter()
            .map(|mapping| (mapping.tool_id, mapping.code))
            .collect()
    };
    let files = told(fs::workflow(&vec![vec!["success".to_owned()]]));
    assert_eq!(
        files,
        [
            ("core.workspace:fs.read", "success".to_owned()),
            ("core.workspace:fs.read", "not_found".to_owned()),
            ("core.workspace:fs.list", "not_found".to_owned()),
            ("core.workspace:fs.search", "not_found".to_owned()),
            ("core.workspace:fs.apply_patch", "invalid_patch".to_owned()),
            ("core.workspace:fs.apply_patch", "not_found".to_owned()),
            ("core.workspace:fs.apply_patch", "conflict".to_owned()),
        ]
    );
    let processes = told(process::workflow(&vec![]));
    assert_eq!(processes.len(), 6);
    assert_eq!(
        processes[0],
        ("core.process:process.exec", "not_found".to_owned())
    );
    assert_eq!(
        processes[2],
        ("core.process:shell.exec", "invalid_effect_envelope".to_owned())
    );
}
