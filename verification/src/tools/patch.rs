//! Planning a patch: what its operations make of the files that were found.

use vstd::prelude::*;
use vstd::string::*;
use vstd::utf8::*;

use super::artifacts::{ArtifactAccess, ArtifactRoutes};
use super::patch_error::{
    changed_file, failed_patch, invalid_patch, missing_file, present_file, PatchError,
    PatchErrorAbs,
};
use super::repo_path::{normalize_repo_path, repo_path, RepoPath};
use crate::digest::{digest_text, render_digest, sha256, sha256_of};
use crate::package::copy_bytes;
use crate::text::same_text;
use crate::value::Abstract;

verus! {

/// The most operations of one patch.
pub const MAX_PATCH_OPERATIONS: usize = 64;

/// The most content, in bytes, that one patch may write.
pub const MAX_PATCH_CONTENT_BYTES: usize = 8 * 1024 * 1024;

/// The digest of the content of a file.
pub open spec fn file_digest(content: Seq<u8>) -> Seq<char> {
    digest_text(sha256(content))
}

/// The digest of the content of a file.
pub fn content_digest(content: &[u8]) -> (r: String)
    ensures
        r@ == file_digest(content@),
{
    render_digest(&sha256_of(content))
}

// ---------------------------------------------------------------------------
// What was found on disk
// ---------------------------------------------------------------------------

/// What a path must name.
#[derive(Clone, Copy, Debug, Eq, PartialEq, Structural)]
pub enum PathKind {
    File,
    Directory,
}

/// A component of a path, as it was found.
#[derive(Clone, Copy, Debug, Eq, PartialEq, Structural)]
pub enum ComponentProbe {
    Ordinary,
    Symlink,
    /// It could not be inspected.
    Failed,
}

/// What a path leads to.
#[derive(Clone, Copy, Debug, Eq, PartialEq, Structural)]
pub enum CanonicalProbe {
    /// It leads nowhere, or could not be followed.
    Failed,
    /// It leads out of the repository.
    Outside,
    File,
    Directory,
    Other,
}

/// An existing path, as it was found component by component.
#[derive(Clone, Debug)]
pub struct ExistingProbe {
    pub components: Vec<ComponentProbe>,
    pub canonical: CanonicalProbe,
}

/// The content of a file, or why it could not be had.
#[derive(Clone, Debug)]
pub enum FileProbe {
    OpenFailed(String),
    InspectFailed(String),
    ReadFailed(String),
    Content { bytes: Vec<u8>, permissions: u32 },
}

/// A file that an operation reads.
#[derive(Clone, Debug)]
pub struct SourceProbe {
    pub existing: ExistingProbe,
    pub exists: bool,
    pub file: FileProbe,
}

/// A directory on the way to a destination.
#[derive(Clone, Debug)]
pub enum ParentProbe {
    Directory,
    Symlink,
    NotDirectory,
    Missing,
    Failed(String),
}

/// What stands at a destination.
#[derive(Clone, Debug)]
pub enum TargetState {
    Present,
    Absent,
    Failed(String),
}

/// A destination that an operation creates, with the directories above it.
#[derive(Clone, Debug)]
pub struct TargetProbe {
    pub target: TargetState,
    pub parents: Vec<ParentProbe>,
}

// ---------------------------------------------------------------------------
// Paths
// ---------------------------------------------------------------------------

/// The first of the first `n` components that cannot be passed.
pub open spec fn components_failure(
    raw: Seq<char>,
    components: Seq<ComponentProbe>,
    n: int,
) -> Option<
    Seq<char>,
>
    decreases n,
{
    if n <= 0 {
        None
    } else {
        match components_failure(raw, components, n - 1) {
            Some(error) => Some(error),
            None => match components[n - 1] {
                ComponentProbe::Ordinary => None,
                ComponentProbe::Symlink => Some(
                    "repository path cannot traverse symlink: "@ + raw,
                ),
                ComponentProbe::Failed => Some(
                    "failed to inspect repository path `"@ + raw + "`"@,
                ),
            },
        }
    }
}

pub open spec fn canonical_failure(
    raw: Seq<char>,
    canonical: CanonicalProbe,
    kind: PathKind,
) -> Option<
    Seq<char>,
> {
    match canonical {
        CanonicalProbe::Failed => Some(
            "failed to canonicalize repository path `"@ + raw + "`"@,
        ),
        CanonicalProbe::Outside => Some("repository path escapes tool root: "@ + raw),
        _ => match kind {
            PathKind::File => if canonical == CanonicalProbe::File {
                None
            } else {
                Some("repository path is not a file: "@ + raw)
            },
            PathKind::Directory => if canonical == CanonicalProbe::Directory {
                None
            } else {
                Some("repository path is not a directory: "@ + raw)
            },
        },
    }
}

/// The existing path that a text names, or why it may not be used.
pub open spec fn existing_path(
    raw: Seq<char>,
    kind: PathKind,
    allow_root: bool,
    routes: ArtifactRoutes,
    probe: ExistingProbe,
) -> Result<Seq<Seq<char>>, Seq<char>> {
    match repo_path(raw, allow_root) {
        Err(error) => Err(error@),
        Ok(path) => match routes.access_failure(path, ArtifactAccess::ReadTree) {
            Some(error) => Err(error),
            None => match components_failure(
                raw,
                probe.components@,
                probe.components@.len() as int,
            ) {
                Some(error) => Err(error),
                None => match canonical_failure(raw, probe.canonical, kind) {
                    Some(error) => Err(error),
                    None => Ok(path),
                },
            },
        },
    }
}

proof fn lemma_components_fail(raw: Seq<char>, components: Seq<ComponentProbe>, n: int, m: int)
    requires
        0 <= n <= m,
        components_failure(raw, components, n) is Some,
    ensures
        components_failure(raw, components, m) == components_failure(raw, components, n),
    decreases m,
{
    if n < m {
        lemma_components_fail(raw, components, n, m - 1);
    }
}

fn check_components(raw: &str, components: &Vec<ComponentProbe>) -> (r: Option<String>)
    ensures
        r.abs() == components_failure(raw@, components@, components@.len() as int),
{
    let mut i: usize = 0;
    while i < components.len()
        invariant
            i <= components@.len(),
            components_failure(raw@, components@, i as int) is None,
        decreases components@.len() - i,
    {
        let failure: Option<String> = match components[i] {
            ComponentProbe::Ordinary => None,
            ComponentProbe::Symlink => Some(
                "repository path cannot traverse symlink: ".to_owned().concat(raw),
            ),
            ComponentProbe::Failed => Some(
                "failed to inspect repository path `".to_owned().concat(raw).concat("`"),
            ),
        };
        if failure.is_some() {
            proof {
                lemma_components_fail(raw@, components@, i + 1, components@.len() as int);
            }
            return failure;
        }
        i += 1;
    }
    None
}

fn check_canonical(raw: &str, canonical: CanonicalProbe, kind: PathKind) -> (r: Option<String>)
    ensures
        r.abs() == canonical_failure(raw@, canonical, kind),
{
    match canonical {
        CanonicalProbe::Failed => Some(
            "failed to canonicalize repository path `".to_owned().concat(raw).concat("`"),
        ),
        CanonicalProbe::Outside => Some(
            "repository path escapes tool root: ".to_owned().concat(raw),
        ),
        _ => match kind {
            PathKind::File => if canonical == CanonicalProbe::File {
                None
            } else {
                Some("repository path is not a file: ".to_owned().concat(raw))
            },
            PathKind::Directory => if canonical == CanonicalProbe::Directory {
                None
            } else {
                Some("repository path is not a directory: ".to_owned().concat(raw))
            },
        },
    }
}

/// The existing path that a text names.
pub fn resolve_existing_path(
    raw: &str,
    kind: PathKind,
    allow_root: bool,
    routes: &ArtifactRoutes,
    probe: &ExistingProbe,
) -> (r: Result<RepoPath, String>)
    ensures
        match r {
            Ok(path) => existing_path(raw@, kind, allow_root, *routes, *probe) == Ok::<
                Seq<Seq<char>>,
                Seq<char>,
            >(path@),
            Err(error) => existing_path(raw@, kind, allow_root, *routes, *probe) == Err::<
                Seq<Seq<char>>,
                Seq<char>,
            >(error@),
        },
{
    let path: RepoPath = match normalize_repo_path(raw, allow_root) {
        Ok(path) => path,
        Err(error) => {
            return Err(error.to_owned());
        },
    };
    match routes.enforce_artifact_access(&path, ArtifactAccess::ReadTree) {
        Ok(()) => {},
        Err(error) => {
            return Err(error);
        },
    }
    if let Some(error) = check_components(raw, &probe.components) {
        return Err(error);
    }
    if let Some(error) = check_canonical(raw, probe.canonical, kind) {
        return Err(error);
    }
    Ok(path)
}

/// A path that may be written, or why it may not.
pub open spec fn writable_path(raw: Seq<char>, routes: ArtifactRoutes) -> Result<
    Seq<Seq<char>>,
    PatchErrorAbs,
> {
    match repo_path(raw, false) {
        Err(error) => Err(invalid_patch(error@)),
        Ok(path) => match routes.access_failure(path, ArtifactAccess::MutateTree) {
            Some(error) => Err(invalid_patch(error)),
            None => Ok(path),
        },
    }
}

fn resolve_writable(raw: &str, routes: &ArtifactRoutes) -> (r: Result<RepoPath, PatchError>)
    ensures
        match r {
            Ok(path) => writable_path(raw@, *routes) == Ok::<Seq<Seq<char>>, PatchErrorAbs>(path@),
            Err(error) => writable_path(raw@, *routes) == Err::<Seq<Seq<char>>, PatchErrorAbs>(
                error@,
            ),
        },
{
    let path: RepoPath = match normalize_repo_path(raw, false) {
        Ok(path) => path,
        Err(error) => {
            return Err(PatchError::invalid(error.to_owned()));
        },
    };
    match routes.enforce_artifact_access(&path, ArtifactAccess::MutateTree) {
        Ok(()) => Ok(path),
        Err(error) => Err(PatchError::invalid(error)),
    }
}

// ---------------------------------------------------------------------------
// Files that are read
// ---------------------------------------------------------------------------

/// The path and the content of a file that an operation reads, with its
/// permissions: it must exist and have the digest that is expected.
pub open spec fn source_file(
    raw: Seq<char>,
    expected: Seq<char>,
    routes: ArtifactRoutes,
    probe: SourceProbe,
) -> Result<(Seq<Seq<char>>, Seq<u8>, u32), PatchErrorAbs> {
    match writable_path(raw, routes) {
        Err(error) => Err(error),
        Ok(path) => match existing_path(raw, PathKind::File, false, routes, probe.existing) {
            Err(error) => if probe.exists {
                Err(invalid_patch(error))
            } else {
                Err(missing_file(raw))
            },
            Ok(_) => match probe.file {
                FileProbe::OpenFailed(error) => Err(
                    failed_patch("failed to open `"@ + raw + "`: "@ + error@),
                ),
                FileProbe::InspectFailed(error) => Err(
                    failed_patch("failed to inspect `"@ + raw + "` permissions: "@ + error@),
                ),
                FileProbe::ReadFailed(error) => Err(
                    failed_patch("failed to read `"@ + raw + "`: "@ + error@),
                ),
                FileProbe::Content { bytes, permissions } => if file_digest(bytes@) != expected {
                    Err(changed_file(raw, expected, file_digest(bytes@)))
                } else {
                    Ok((path, bytes@, permissions))
                },
            },
        },
    }
}

/// A file that an operation reads.
pub struct ExistingFile {
    pub path: RepoPath,
    pub content: Vec<u8>,
    pub permissions: u32,
}

fn quoted_failure(lead: &str, raw: &str, middle: &str, error: &str) -> (r: PatchError)
    ensures
        r@ == failed_patch(lead@ + raw@ + middle@ + error@),
{
    PatchError::terminal(lead.to_owned().concat(raw).concat(middle).concat(error))
}

pub(crate) fn read_preconditioned_file(
    raw: &str,
    expected_digest: &str,
    routes: &ArtifactRoutes,
    probe: &SourceProbe,
) -> (r: Result<ExistingFile, PatchError>)
    ensures
        match r {
            Ok(file) => source_file(raw@, expected_digest@, *routes, *probe) == Ok::<
                (Seq<Seq<char>>, Seq<u8>, u32),
                PatchErrorAbs,
            >((file.path@, file.content@, file.permissions)),
            Err(error) => source_file(raw@, expected_digest@, *routes, *probe) == Err::<
                (Seq<Seq<char>>, Seq<u8>, u32),
                PatchErrorAbs,
            >(error@),
        },
{
    let path: RepoPath = match resolve_writable(raw, routes) {
        Ok(path) => path,
        Err(error) => {
            return Err(error);
        },
    };
    match resolve_existing_path(raw, PathKind::File, false, routes, &probe.existing) {
        Ok(_) => {},
        Err(error) => {
            if probe.exists {
                return Err(PatchError::invalid(error));
            }
            return Err(PatchError::not_found(raw));
        },
    }
    match &probe.file {
        FileProbe::OpenFailed(error) => Err(
            quoted_failure("failed to open `", raw, "`: ", error.as_str()),
        ),
        FileProbe::InspectFailed(error) => Err(
            quoted_failure("failed to inspect `", raw, "` permissions: ", error.as_str()),
        ),
        FileProbe::ReadFailed(error) => Err(
            quoted_failure("failed to read `", raw, "`: ", error.as_str()),
        ),
        FileProbe::Content { bytes, permissions } => {
            let actual: String = content_digest(bytes.as_slice());
            if !same_text(actual.as_str(), expected_digest) {
                return Err(PatchError::conflict(raw, expected_digest, actual.as_str()));
            }
            Ok(
                ExistingFile {
                    path,
                    content: copy_bytes(bytes.as_slice()),
                    permissions: *permissions,
                },
            )
        },
    }
}

// ---------------------------------------------------------------------------
// Destinations
// ---------------------------------------------------------------------------

/// What is wrong with the first `n` directories above a destination. Below a
/// missing directory nothing more is looked at.
pub open spec fn parents_state(raw: Seq<char>, parents: Seq<ParentProbe>, n: int) -> Result<
    bool,
    PatchErrorAbs,
>
    decreases n,
{
    if n <= 0 {
        Ok(false)
    } else {
        match parents_state(raw, parents, n - 1) {
            Err(error) => Err(error),
            Ok(missing) => if missing {
                Ok(true)
            } else {
                match parents[n - 1] {
                    ParentProbe::Directory => Ok(false),
                    ParentProbe::Missing => Ok(true),
                    ParentProbe::Symlink => Err(
                        invalid_patch("repository path cannot traverse symlink: "@ + raw),
                    ),
                    ParentProbe::NotDirectory => Err(
                        invalid_patch("destination parent is not a directory: "@ + raw),
                    ),
                    ParentProbe::Failed(error) => Err(
                        failed_patch(
                            "failed to inspect destination parent for `"@ + raw + "`: "@ + error@,
                        ),
                    ),
                }
            },
        }
    }
}

/// The path of a destination: nothing may stand there, and what stands above
/// it must be directories.
pub open spec fn absent_target(
    raw: Seq<char>,
    routes: ArtifactRoutes,
    probe: TargetProbe,
) -> Result<
    Seq<Seq<char>>,
    PatchErrorAbs,
> {
    match writable_path(raw, routes) {
        Err(error) => Err(error),
        Ok(path) => match probe.target {
            TargetState::Present => Err(present_file(raw)),
            TargetState::Failed(error) => Err(
                failed_patch("failed to inspect `"@ + raw + "`: "@ + error@),
            ),
            TargetState::Absent => match parents_state(
                raw,
                probe.parents@,
                probe.parents@.len() as int,
            ) {
                Err(error) => Err(error),
                Ok(_) => Ok(path),
            },
        },
    }
}

proof fn lemma_parents_fail(raw: Seq<char>, parents: Seq<ParentProbe>, n: int, m: int)
    requires
        0 <= n <= m,
        parents_state(raw, parents, n) is Err,
    ensures
        parents_state(raw, parents, m) == parents_state(raw, parents, n),
    decreases m,
{
    if n < m {
        lemma_parents_fail(raw, parents, n, m - 1);
    }
}

fn validate_destination_parent(raw: &str, parents: &Vec<ParentProbe>) -> (r: Result<
    (),
    PatchError,
>)
    ensures
        match r {
            Ok(_) => parents_state(raw@, parents@, parents@.len() as int) is Ok,
            Err(error) => parents_state(raw@, parents@, parents@.len() as int) == Err::<
                bool,
                PatchErrorAbs,
            >(error@),
        },
{
    let mut missing: bool = false;
    let mut i: usize = 0;
    while i < parents.len()
        invariant
            i <= parents@.len(),
            parents_state(raw@, parents@, i as int) == Ok::<bool, PatchErrorAbs>(missing),
        decreases parents@.len() - i,
    {
        if !missing {
            match &parents[i] {
                ParentProbe::Directory => {},
                ParentProbe::Missing => {
                    missing = true;
                },
                ParentProbe::Symlink => {
                    proof {
                        lemma_parents_fail(raw@, parents@, i + 1, parents@.len() as int);
                    }
                    return Err(
                        PatchError::invalid(
                            "repository path cannot traverse symlink: ".to_owned().concat(raw),
                        ),
                    );
                },
                ParentProbe::NotDirectory => {
                    proof {
                        lemma_parents_fail(raw@, parents@, i + 1, parents@.len() as int);
                    }
                    return Err(
                        PatchError::invalid(
                            "destination parent is not a directory: ".to_owned().concat(raw),
                        ),
                    );
                },
                ParentProbe::Failed(error) => {
                    proof {
                        lemma_parents_fail(raw@, parents@, i + 1, parents@.len() as int);
                    }
                    return Err(
                        quoted_failure(
                            "failed to inspect destination parent for `",
                            raw,
                            "`: ",
                            error.as_str(),
                        ),
                    );
                },
            }
        }
        i += 1;
    }
    Ok(())
}

pub(crate) fn resolve_absent_target(raw: &str, routes: &ArtifactRoutes, probe: &TargetProbe) -> (r: Result<
    RepoPath,
    PatchError,
>)
    ensures
        match r {
            Ok(path) => absent_target(raw@, *routes, *probe) == Ok::<
                Seq<Seq<char>>,
                PatchErrorAbs,
            >(path@),
            Err(error) => absent_target(raw@, *routes, *probe) == Err::<
                Seq<Seq<char>>,
                PatchErrorAbs,
            >(error@),
        },
{
    let path: RepoPath = match resolve_writable(raw, routes) {
        Ok(path) => path,
        Err(error) => {
            return Err(error);
        },
    };
    match &probe.target {
        TargetState::Present => {
            return Err(PatchError::conflict_absence(raw));
        },
        TargetState::Failed(error) => {
            return Err(quoted_failure("failed to inspect `", raw, "`: ", error.as_str()));
        },
        TargetState::Absent => {},
    }
    match validate_destination_parent(raw, &probe.parents) {
        Ok(()) => Ok(path),
        Err(error) => Err(error),
    }
}

} // verus!
