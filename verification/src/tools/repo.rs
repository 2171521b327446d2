//! Committing artifacts and verifying task specifications.

use vstd::prelude::*;
use vstd::string::*;

use super::artifacts::ArtifactAccess;
use super::descriptor::{
    lemma_declared, Effect, ExtensionAbs, ExtensionDescriptor, HookDeclaration, OperationKind,
    ToolAbs, ToolDeclaration, ToolErrorDeclaration,
};
use super::process::{observed_abs, ObservedAbs, ObservedEffect};
use crate::text::same_text;
use crate::value::{contents, Abstract};

verus! {

pub const EXTENSION_ID: &'static str = "core.repo";

pub const ARTIFACT_COMMIT_TOOL_ID: &'static str = "core.repo:artifact.commit";

pub const TASKS_VERIFY_TOOL_ID: &'static str = "core.repo:tasks.verify";

/// The artifact that holds the task specifications.
pub const TASKS_ARTIFACT_ID: &'static str = "core.repo:tasks";

pub const ARTIFACT_REPOSITORY_EFFECT_ID: &'static str = "agl:artifact.repository";

pub const REPO_GITLINK_EFFECT_ID: &'static str = "agl:repo.gitlink";

/// The tools of the extension.
#[derive(Clone, Copy, Debug, Eq, PartialEq, Structural)]
pub enum RepoTool {
    ArtifactCommit,
    TasksVerify,
}

/// The tool with that ID.
pub open spec fn repo_tool(name: Seq<char>) -> Option<RepoTool> {
    if name == "core.repo:artifact.commit"@ {
        Some(RepoTool::ArtifactCommit)
    } else if name == "core.repo:tasks.verify"@ {
        Some(RepoTool::TasksVerify)
    } else {
        None
    }
}

/// Whether a call without an admitted effect is a verification. A commit is
/// not to be had that way.
pub fn dispatch(name: &str) -> (r: Result<RepoTool, String>)
    ensures
        match repo_tool(name@) {
            Some(RepoTool::TasksVerify) => r == Ok::<RepoTool, String>(RepoTool::TasksVerify),
            Some(RepoTool::ArtifactCommit) => r is Err && r->Err_0@
                == "Artifact commit requires an admitted kernel Tool Effect call"@,
            None => r is Err && r->Err_0@ == "unknown repo tool `"@ + name@ + "`"@,
        },
{
    if same_text(name, "core.repo:artifact.commit") {
        Err("Artifact commit requires an admitted kernel Tool Effect call".to_owned())
    } else if same_text(name, "core.repo:tasks.verify") {
        Ok(RepoTool::TasksVerify)
    } else {
        Err("unknown repo tool `".to_owned().concat(name).concat("`"))
    }
}

/// The artifacts that the tools may work on.
#[derive(Clone, Debug)]
pub struct RepoArtifacts {
    ids: Vec<String>,
}

impl RepoArtifacts {
    pub closed spec fn view(&self) -> Seq<Seq<char>> {
        contents(self.ids@)
    }

    pub fn new() -> (r: RepoArtifacts)
        ensures
            r@ == Seq::<Seq<char>>::empty(),
    {
        let r: RepoArtifacts = RepoArtifacts { ids: Vec::new() };
        assert(r@ =~= Seq::<Seq<char>>::empty());
        r
    }

    /// Whether an artifact is admitted.
    pub fn admits(&self, id: &str) -> (b: bool)
        ensures
            b == self@.contains(id@),
    {
        let ghost all = self@;
        let mut i: usize = 0;
        while i < self.ids.len()
            invariant
                i <= self.ids@.len(),
                all == contents(self.ids@),
                forall|k: int| 0 <= k < i ==> #[trigger] all[k] != id@,
            decreases self.ids@.len() - i,
        {
            assert(all[i as int] == self.ids@[i as int]@);
            if same_text(self.ids[i].as_str(), id) {
                assert(all[i as int] == id@);
                return true;
            }
            i += 1;
        }
        false
    }

    /// Admits an artifact: its binding and its handle must be of the same one,
    /// and it must not be admitted already.
    pub fn with_artifact(&mut self, binding_id: &str, handle_id: &str) -> (r: Result<
        (),
        &'static str,
    >)
        ensures
            if binding_id@ != handle_id@ {
                r == Err::<(), &'static str>("Artifact binding and handle IDs differ")
                    && final(self)@ == old(self)@
            } else if old(self)@.contains(handle_id@) {
                r == Err::<(), &'static str>("duplicate Artifact handler binding")
                    && final(self)@ == old(self)@
            } else {
                r is Ok && final(self)@ == old(self)@.push(handle_id@)
            },
    {
        if !same_text(binding_id, handle_id) {
            return Err("Artifact binding and handle IDs differ");
        }
        if self.admits(handle_id) {
            return Err("duplicate Artifact handler binding");
        }
        let ghost before = self@;
        self.ids.push(handle_id.to_owned());
        assert(self@ =~= before.push(handle_id@));
        Ok(())
    }
}

/// What is told of a verification of the task specifications.
pub fn verification_status(errors: &Vec<String>) -> (r: &'static str)
    ensures
        r == if errors@.len() == 0 {
            "ok"
        } else {
            "invalid"
        },
{
    if errors.len() == 0 {
        "ok"
    } else {
        "invalid"
    }
}

/// What is known of a call that commits an artifact.
#[derive(Clone, Debug)]
pub struct CommitProbe {
    /// The identity of the step of the run, if the call is one.
    pub run_step_key: Option<String>,
    pub request_id: Option<String>,
    /// Whether the call is correlated with its effect.
    pub has_correlation: bool,
    /// What is wrong with the ID of the artifact.
    pub id_fault: Option<String>,
    /// Why the files of the artifact may not be changed.
    pub denial: Option<String>,
    /// What is wrong with the entries or the message.
    pub request_fault: Option<String>,
    pub has_store: bool,
}

/// The identity of a commit: that of the step of the run or, without one, that
/// of the request.
pub open spec fn commit_identity(probe: CommitProbe) -> Option<Seq<char>> {
    match probe.run_step_key {
        Some(key) => Some(key@),
        None => match probe.request_id {
            Some(id) => Some(id@),
            None => None,
        },
    }
}

/// What is missing for a commit of an artifact, in the order in which it is
/// looked for.
pub open spec fn commit_failure(
    artifacts: Seq<Seq<char>>,
    artifact_id: Seq<char>,
    probe: CommitProbe,
) -> Option<Seq<char>> {
    if commit_identity(probe) is None {
        Some("Artifact commit requires a request or run-step idempotency identity"@)
    } else if !probe.has_correlation {
        Some("Artifact commit was dispatched without Tool Effect correlation"@)
    } else if probe.id_fault is Some {
        probe.id_fault.abs()
    } else if !artifacts.contains(artifact_id) {
        Some("ArtifactHandle is not admitted for "@ + artifact_id)
    } else if probe.denial is Some {
        probe.denial.abs()
    } else if probe.request_fault is Some {
        probe.request_fault.abs()
    } else if !probe.has_store {
        Some("Artifact commit store is not configured"@)
    } else {
        None
    }
}

/// Whether a commit of an artifact may go on, and under which identity.
pub fn check_commit(artifacts: &RepoArtifacts, artifact_id: &str, probe: &CommitProbe) -> (r: Result<
    String,
    String,
>)
    ensures
        match r {
            Ok(identity) => commit_failure(artifacts@, artifact_id@, *probe) is None
                && commit_identity(*probe) == Some(identity@),
            Err(error) => commit_failure(artifacts@, artifact_id@, *probe) == Some(error@),
        },
{
    let identity: String = match (&probe.run_step_key, &probe.request_id) {
        (Some(key), _) => key.duplicate(),
        (None, Some(id)) => id.duplicate(),
        (None, None) => {
            return Err(
                "Artifact commit requires a request or run-step idempotency identity".to_owned(),
            );
        },
    };
    if !probe.has_correlation {
        return Err(
            "Artifact commit was dispatched without Tool Effect correlation".to_owned(),
        );
    }
    if let Some(fault) = &probe.id_fault {
        return Err(fault.duplicate());
    }
    if !artifacts.admits(artifact_id) {
        return Err("ArtifactHandle is not admitted for ".to_owned().concat(artifact_id));
    }
    if let Some(denial) = &probe.denial {
        return Err(denial.duplicate());
    }
    if let Some(fault) = &probe.request_fault {
        return Err(fault.duplicate());
    }
    if !probe.has_store {
        return Err("Artifact commit store is not configured".to_owned());
    }
    Ok(identity)
}

/// What a commit gave.
#[derive(Clone, Debug)]
pub struct CommitOutcome {
    pub is_conflict: bool,
    pub operation_id: String,
    pub child_commit: String,
    pub parent_commit: String,
}

/// What is told of a commit.
#[derive(Clone, Debug)]
pub struct CommitAnswer {
    pub status: &'static str,
    pub artifact_id: String,
    pub operation_id: String,
    pub child_commit: String,
    pub parent_commit: String,
    pub observed: Vec<ObservedEffect>,
}

/// The effects of a commit: on the repository of the artifact, and on the
/// link to it.
pub open spec fn commit_effects(
    artifact_id: Seq<char>,
    child_commit: Seq<char>,
    parent_commit: Seq<char>,
) -> Seq<ObservedAbs> {
    seq![
        ObservedAbs {
            effect: Effect::ArtifactRepository,
            scope: seq![("artifact_id"@, artifact_id), ("child_commit"@, child_commit)],
        },
        ObservedAbs {
            effect: Effect::RepoGitlink,
            scope: seq![("artifact_id"@, artifact_id), ("parent_commit"@, parent_commit)],
        },
    ]
}

fn commit_effect(effect: Effect, artifact_id: &str, name: &'static str, commit: &str) -> (r:
    ObservedEffect)
    ensures
        r@ == (ObservedAbs {
            effect,
            scope: seq![("artifact_id"@, artifact_id@), (name@, commit@)],
        }),
{
    let scope: Vec<(&'static str, String)> = vec![
        ("artifact_id", artifact_id.to_owned()),
        (name, commit.to_owned()),
    ];
    let r: ObservedEffect = ObservedEffect { effect, scope };
    assert(r@.scope =~= seq![("artifact_id"@, artifact_id@), (name@, commit@)]);
    r
}

/// What is told of a commit of an artifact.
pub fn commit_answer(artifact_id: &str, outcome: &CommitOutcome) -> (r: CommitAnswer)
    ensures
        r.status == if outcome.is_conflict {
            "conflict"
        } else {
            "committed"
        },
        r.artifact_id@ == artifact_id@,
        r.operation_id@ == outcome.operation_id@,
        r.child_commit@ == outcome.child_commit@,
        r.parent_commit@ == outcome.parent_commit@,
        observed_abs(r.observed@) == commit_effects(
            artifact_id@,
            outcome.child_commit@,
            outcome.parent_commit@,
        ),
{
    let observed: Vec<ObservedEffect> = vec![
        commit_effect(
            Effect::ArtifactRepository,
            artifact_id,
            "child_commit",
            outcome.child_commit.as_str(),
        ),
        commit_effect(
            Effect::RepoGitlink,
            artifact_id,
            "parent_commit",
            outcome.parent_commit.as_str(),
        ),
    ];
    assert(observed_abs(observed@) =~= commit_effects(
        artifact_id@,
        outcome.child_commit@,
        outcome.parent_commit@,
    ));
    CommitAnswer {
        status: if outcome.is_conflict {
            "conflict"
        } else {
            "committed"
        },
        artifact_id: artifact_id.to_owned(),
        operation_id: outcome.operation_id.duplicate(),
        child_commit: outcome.child_commit.duplicate(),
        parent_commit: outcome.parent_commit.duplicate(),
        observed,
    }
}

/// Whether the task specifications may be verified.
pub fn check_verification(artifacts: &RepoArtifacts) -> (r: Result<(), &'static str>)
    ensures
        r == if artifacts@.contains("core.repo:tasks"@) {
            Ok::<(), &'static str>(())
        } else {
            Err("core.repo:tasks ArtifactHandle is not admitted")
        },
{
    if artifacts.admits("core.repo:tasks") {
        Ok(())
    } else {
        Err("core.repo:tasks ArtifactHandle is not admitted")
    }
}

/// What the extension declares.
pub open spec fn declared() -> ExtensionAbs {
    ExtensionAbs {
        id: "core.repo",
        name: "Repository Artifact Tools",
        version: None,
        tools: seq![
            ToolAbs {
                id: "core.repo:artifact.commit",
                description: "Commit exact changed entries in one verified Artifact and advance its parent gitlink.",
                operation_kind: OperationKind::Write,
                errors: Seq::<ToolErrorDeclaration>::empty(),
                state_effects: seq![Effect::ArtifactRepository, Effect::RepoGitlink],
                conditional_state_effects: Seq::<Effect>::empty(),
            },
            ToolAbs {
                id: "core.repo:tasks.verify",
                description: "Validate planned task specifications from core.repo:tasks.",
                operation_kind: OperationKind::Read,
                errors: Seq::<ToolErrorDeclaration>::empty(),
                state_effects: Seq::<Effect>::empty(),
                conditional_state_effects: seq![Effect::RepoFiles],
            },
        ],
        effects: seq![Effect::ArtifactRepository, Effect::RepoGitlink, Effect::RepoFiles],
        hooks: Seq::<HookDeclaration>::empty(),
    }
}

/// The declaration of the extension.
pub fn declaration() -> (r: ExtensionDescriptor)
    ensures
        r@ == declared(),
{
    let tools: Vec<ToolDeclaration> = vec![
            ToolDeclaration {
                id: "core.repo:artifact.commit",
                description: "Commit exact changed entries in one verified Artifact and advance its parent gitlink.",
                operation_kind: OperationKind::Write,
                errors: Vec::new(),
                state_effects: vec![Effect::ArtifactRepository, Effect::RepoGitlink],
                conditional_state_effects: Vec::new(),
            },
            ToolDeclaration {
                id: "core.repo:tasks.verify",
                description: "Validate planned task specifications from core.repo:tasks.",
                operation_kind: OperationKind::Read,
                errors: Vec::new(),
                state_effects: Vec::new(),
                conditional_state_effects: vec![Effect::RepoFiles],
            },
        ];
    let effects: Vec<Effect> = vec![
        Effect::ArtifactRepository,
        Effect::RepoGitlink,
        Effect::RepoFiles,
    ];
    let hooks: Vec<HookDeclaration> = Vec::new();
    let descriptor: ExtensionDescriptor = ExtensionDescriptor {
        id: "core.repo",
        name: "Repository Artifact Tools",
        version: None,
        tools,
        effects,
        hooks,
    };
    proof {
        lemma_declared(descriptor, declared());
    }
    descriptor
}

/// An artifact of an extension.
#[derive(Clone, Debug)]
pub struct ArtifactDeclaration {
    pub id: &'static str,
    pub kind: &'static str,
    pub access: Vec<ArtifactAccess>,
}

/// Which artifact a tool works on.
#[derive(Clone, Copy, Debug, Eq, PartialEq)]
pub enum ArtifactTarget {
    /// The one that an argument names.
    FromArgument { pointer: &'static str, access: ArtifactAccess },
    Fixed(&'static str),
}

/// The effect that a tool has on an artifact.
#[derive(Clone, Copy, Debug, Eq, PartialEq)]
pub struct ArtifactLink {
    pub tool_id: &'static str,
    pub effect: Effect,
    pub target: ArtifactTarget,
    pub access: ArtifactAccess,
}

/// The authority that an effect of the extension needs.
#[derive(Clone, Copy, Debug, Eq, PartialEq)]
pub enum AuthorityClass {
    RepositoryMutation,
}

/// The artifacts of the extension: the task specifications, which are only
/// read.
pub fn artifacts() -> (r: Vec<ArtifactDeclaration>)
    ensures
        r@.len() == 1,
        r@[0].id == "core.repo:tasks",
        r@[0].kind == "agentlibre.task-specs",
        r@[0].access@ == seq![ArtifactAccess::ReadTree],
{
    let access: Vec<ArtifactAccess> = vec![ArtifactAccess::ReadTree];
    assert(access@ =~= seq![ArtifactAccess::ReadTree]);
    vec![ArtifactDeclaration { id: TASKS_ARTIFACT_ID, kind: "agentlibre.task-specs", access }]
}

/// What the tools do to artifacts: a commit changes the one that it names, and
/// a verification reads the task specifications.
pub fn artifact_links() -> (r: Vec<ArtifactLink>)
    ensures
        r@ == seq![
            ArtifactLink {
                tool_id: "core.repo:artifact.commit",
                effect: Effect::ArtifactRepository,
                target: ArtifactTarget::FromArgument {
                    pointer: "/artifact_id",
                    access: ArtifactAccess::MutateTree,
                },
                access: ArtifactAccess::MutateTree,
            },
            ArtifactLink {
                tool_id: "core.repo:tasks.verify",
                effect: Effect::RepoFiles,
                target: ArtifactTarget::Fixed("core.repo:tasks"),
                access: ArtifactAccess::ReadTree,
            },
        ],
{
    let commit: ArtifactLink = ArtifactLink {
        tool_id: ARTIFACT_COMMIT_TOOL_ID,
        effect: Effect::ArtifactRepository,
        target: ArtifactTarget::FromArgument {
            pointer: "/artifact_id",
            access: ArtifactAccess::MutateTree,
        },
        access: ArtifactAccess::MutateTree,
    };
    let verify: ArtifactLink = ArtifactLink {
        tool_id: TASKS_VERIFY_TOOL_ID,
        effect: Effect::RepoFiles,
        target: ArtifactTarget::Fixed(TASKS_ARTIFACT_ID),
        access: ArtifactAccess::ReadTree,
    };
    let links: Vec<ArtifactLink> = vec![commit, verify];
    assert(links@ =~= seq![commit, verify]);
    links
}

/// The effects that the extension itself brings, with the authority that they
/// need.
pub fn own_effects() -> (r: Vec<(&'static str, AuthorityClass)>)
    ensures
        r@ == seq![
            ("agl:artifact.repository", AuthorityClass::RepositoryMutation),
            ("agl:repo.gitlink", AuthorityClass::RepositoryMutation),
        ],
{
    let effects: Vec<(&'static str, AuthorityClass)> = vec![
        (ARTIFACT_REPOSITORY_EFFECT_ID, AuthorityClass::RepositoryMutation),
        (REPO_GITLINK_EFFECT_ID, AuthorityClass::RepositoryMutation),
    ];
    assert(effects@ =~= seq![
        ("agl:artifact.repository", AuthorityClass::RepositoryMutation),
        ("agl:repo.gitlink", AuthorityClass::RepositoryMutation),
    ]);
    effects
}

} // verus!
