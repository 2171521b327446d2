//! The plan of a patch: the changes of its operations, and a receipt for each.

use vstd::prelude::*;
use vstd::string::*;
use vstd::utf8::*;

use super::artifacts::ArtifactRoutes;
use super::edits::{apply_exact_text_edits, edited, PatchEdit};
use super::patch::{
    absent_target, content_digest, file_digest, read_preconditioned_file, resolve_absent_target,
    source_file, ExistingFile, SourceProbe, TargetProbe, MAX_PATCH_CONTENT_BYTES,
    MAX_PATCH_OPERATIONS,
};
use super::patch_error::{invalid_patch, PatchError, PatchErrorAbs};
use super::repo_path::{slashed, RepoPath};
use crate::package::copy_bytes;
use crate::value::Abstract;

verus! {

/// One filesystem mutation with an explicit precondition, and what was found
/// at its paths.
#[derive(Clone, Debug)]
pub enum PatchOperation {
    Create {
        path: String,
        content: String,
        /// Must be true, so that creating conflicts with an existing path.
        expected_absent: bool,
        target: TargetProbe,
    },
    Update {
        path: String,
        /// The digest of the content that the edits are made for.
        expected_digest: String,
        /// Exact UTF-8 spans, resolved against that content.
        edits: Vec<PatchEdit>,
        source: SourceProbe,
    },
    Delete { path: String, expected_digest: String, source: SourceProbe },
    Move {
        from: String,
        to: String,
        expected_digest: String,
        /// Must be true, so that moving conflicts with an existing target.
        expected_destination_absent: bool,
        source: SourceProbe,
        target: TargetProbe,
    },
}

/// A change of one file: its content before and after.
#[derive(Clone, Debug)]
pub struct PlannedFileChange {
    pub relative: RepoPath,
    pub before: Option<Vec<u8>>,
    pub after: Option<Vec<u8>>,
    pub after_permissions: Option<u32>,
}

/// The content of a planned change.
pub struct ChangeAbs {
    pub relative: Seq<Seq<char>>,
    pub before: Option<Seq<u8>>,
    pub after: Option<Seq<u8>>,
    pub after_permissions: Option<u32>,
}

pub open spec fn bytes_abs(bytes: Option<Vec<u8>>) -> Option<Seq<u8>> {
    match bytes {
        Some(bytes) => Some(bytes@),
        None => None,
    }
}

impl PlannedFileChange {
    pub open spec fn view(&self) -> ChangeAbs {
        ChangeAbs {
            relative: self.relative@,
            before: bytes_abs(self.before),
            after: bytes_abs(self.after),
            after_permissions: self.after_permissions,
        }
    }
}

/// What is told of an operation.
#[derive(Clone, Debug, Eq, PartialEq)]
pub struct PatchReceipt {
    pub operation: &'static str,
    pub path: Option<String>,
    pub from: Option<String>,
    pub to: Option<String>,
    pub before_digest: Option<String>,
    pub after_digest: Option<String>,
}

/// The content of a receipt.
pub struct ReceiptAbs {
    pub operation: &'static str,
    pub path: Option<Seq<char>>,
    pub from: Option<Seq<char>>,
    pub to: Option<Seq<char>>,
    pub before_digest: Option<Seq<char>>,
    pub after_digest: Option<Seq<char>>,
}

impl PatchReceipt {
    pub open spec fn view(&self) -> ReceiptAbs {
        ReceiptAbs {
            operation: self.operation,
            path: self.path.abs(),
            from: self.from.abs(),
            to: self.to.abs(),
            before_digest: self.before_digest.abs(),
            after_digest: self.after_digest.abs(),
        }
    }
}

/// The changes of a patch, and a receipt for each operation.
#[derive(Clone, Debug)]
pub struct PatchPlan {
    pub changes: Vec<PlannedFileChange>,
    pub receipts: Vec<PatchReceipt>,
}

pub open spec fn changes_abs(changes: Seq<PlannedFileChange>) -> Seq<ChangeAbs> {
    Seq::new(changes.len(), |i: int| changes[i]@)
}

pub open spec fn receipts_abs(receipts: Seq<PatchReceipt>) -> Seq<ReceiptAbs> {
    Seq::new(receipts.len(), |i: int| receipts[i]@)
}

/// A plan that is being made: the paths that it touches, and how much content
/// it writes.
pub struct PlanAbs {
    pub changes: Seq<ChangeAbs>,
    pub receipts: Seq<ReceiptAbs>,
    pub touched: Seq<Seq<Seq<char>>>,
    pub bytes: int,
}

// ---------------------------------------------------------------------------
// Limits
// ---------------------------------------------------------------------------

/// The content bytes with some more, or why they are too many.
pub open spec fn more_bytes(current: int, additional: int) -> Result<int, PatchErrorAbs> {
    if current + additional > usize::MAX {
        Err(invalid_patch("patch content byte count overflowed"@))
    } else if current + additional > MAX_PATCH_CONTENT_BYTES {
        Err(invalid_patch("patch content exceeds 8388608 bytes"@))
    } else {
        Ok(current + additional)
    }
}

fn checked_patch_bytes(current: usize, additional: usize) -> (r: Result<usize, PatchError>)
    ensures
        match r {
            Ok(total) => more_bytes(current as int, additional as int) == Ok::<
                int,
                PatchErrorAbs,
            >(total as int),
            Err(error) => more_bytes(current as int, additional as int) == Err::<
                int,
                PatchErrorAbs,
            >(error@),
        },
{
    match current.checked_add(additional) {
        None => Err(PatchError::invalid("patch content byte count overflowed".to_owned())),
        Some(total) => if total > MAX_PATCH_CONTENT_BYTES {
            Err(PatchError::invalid("patch content exceeds 8388608 bytes".to_owned()))
        } else {
            Ok(total)
        },
    }
}

/// The plan with one more path, or why the path may not be touched again.
pub open spec fn touch(plan: PlanAbs, path: Seq<Seq<char>>) -> Result<PlanAbs, PatchErrorAbs> {
    if plan.touched.contains(path) {
        Err(invalid_patch("patch touches `"@ + slashed(path) + "` more than once"@))
    } else {
        Ok(PlanAbs { touched: plan.touched.push(path), ..plan })
    }
}

spec fn paths_of(paths: Seq<RepoPath>) -> Seq<Seq<Seq<char>>> {
    Seq::new(paths.len(), |i: int| paths[i]@)
}

fn ensure_unique_path(touched: &mut Vec<RepoPath>, path: &RepoPath) -> (r: Result<(), PatchError>)
    ensures
        match r {
            Ok(_) => !paths_of(old(touched)@).contains(path@) && paths_of(final(touched)@)
                == paths_of(old(touched)@).push(path@),
            Err(error) => paths_of(old(touched)@).contains(path@) && error@ == invalid_patch(
                "patch touches `"@ + slashed(path@) + "` more than once"@,
            ),
        },
{
    let ghost all = paths_of(touched@);
    let mut i: usize = 0;
    while i < touched.len()
        invariant
            i <= touched@.len(),
            touched@ == old(touched)@,
            all == paths_of(touched@),
            forall|k: int| 0 <= k < i ==> #[trigger] all[k] != path@,
        decreases touched@.len() - i,
    {
        assert(all[i as int] == touched@[i as int]@);
        if touched[i].same(path) {
            assert(all[i as int] == path@);
            return Err(
                PatchError::invalid(
                    "patch touches `".to_owned().concat(path.display().as_str()).concat(
                        "` more than once",
                    ),
                ),
            );
        }
        i += 1;
    }
    touched.push(path.duplicate());
    assert(paths_of(touched@) =~= all.push(path@));
    Ok(())
}

// ---------------------------------------------------------------------------
// Operations
// ---------------------------------------------------------------------------

/// The plan with a file that is created.
pub open spec fn plan_create(
    plan: PlanAbs,
    routes: ArtifactRoutes,
    path: Seq<char>,
    content: Seq<char>,
    expected_absent: bool,
    target: TargetProbe,
) -> Result<PlanAbs, PatchErrorAbs> {
    if !expected_absent {
        Err(invalid_patch("create requires expected_absent=true"@))
    } else {
        match absent_target(path, routes, target) {
            Err(error) => Err(error),
            Ok(relative) => match touch(plan, relative) {
                Err(error) => Err(error),
                Ok(next) => match more_bytes(next.bytes, encode_utf8(content).len() as int) {
                    Err(error) => Err(error),
                    Ok(bytes) => Ok(
                        PlanAbs {
                            changes: next.changes.push(
                                ChangeAbs {
                                    relative,
                                    before: None,
                                    after: Some(encode_utf8(content)),
                                    after_permissions: None,
                                },
                            ),
                            receipts: next.receipts.push(
                                ReceiptAbs {
                                    operation: "create",
                                    path: Some(slashed(relative)),
                                    from: None,
                                    to: None,
                                    before_digest: None,
                                    after_digest: Some(file_digest(encode_utf8(content))),
                                },
                            ),
                            bytes,
                            ..next
                        },
                    ),
                },
            },
        }
    }
}

/// The plan with a file that is edited.
pub open spec fn plan_update(
    plan: PlanAbs,
    routes: ArtifactRoutes,
    path: Seq<char>,
    expected_digest: Seq<char>,
    edits: Seq<PatchEdit>,
    source: SourceProbe,
) -> Result<PlanAbs, PatchErrorAbs> {
    match source_file(path, expected_digest, routes, source) {
        Err(error) => Err(error),
        Ok((relative, before, permissions)) => match touch(plan, relative) {
            Err(error) => Err(error),
            Ok(next) => match edited(path, before, edits) {
                Err(error) => Err(error),
                Ok(after) => match more_bytes(next.bytes, after.len() as int) {
                    Err(error) => Err(error),
                    Ok(bytes) => Ok(
                        PlanAbs {
                            changes: next.changes.push(
                                ChangeAbs {
                                    relative,
                                    before: Some(before),
                                    after: Some(after),
                                    after_permissions: Some(permissions),
                                },
                            ),
                            receipts: next.receipts.push(
                                ReceiptAbs {
                                    operation: "update",
                                    path: Some(slashed(relative)),
                                    from: None,
                                    to: None,
                                    before_digest: Some(file_digest(before)),
                                    after_digest: Some(file_digest(after)),
                                },
                            ),
                            bytes,
                            ..next
                        },
                    ),
                },
            },
        },
    }
}

/// The plan with a file that is deleted.
pub open spec fn plan_delete(
    plan: PlanAbs,
    routes: ArtifactRoutes,
    path: Seq<char>,
    expected_digest: Seq<char>,
    source: SourceProbe,
) -> Result<PlanAbs, PatchErrorAbs> {
    match source_file(path, expected_digest, routes, source) {
        Err(error) => Err(error),
        Ok((relative, before, permissions)) => match touch(plan, relative) {
            Err(error) => Err(error),
            Ok(next) => Ok(
                PlanAbs {
                    changes: next.changes.push(
                        ChangeAbs {
                            relative,
                            before: Some(before),
                            after: None,
                            after_permissions: None,
                        },
                    ),
                    receipts: next.receipts.push(
                        ReceiptAbs {
                            operation: "delete",
                            path: Some(slashed(relative)),
                            from: None,
                            to: None,
                            before_digest: Some(file_digest(before)),
                            after_digest: None,
                        },
                    ),
                    ..next
                },
            ),
        },
    }
}

/// The changes of a move: the source goes, and the destination comes.
pub open spec fn move_changes(
    source: Seq<Seq<char>>,
    destination: Seq<Seq<char>>,
    content: Seq<u8>,
    permissions: u32,
) -> Seq<ChangeAbs> {
    seq![
        ChangeAbs {
            relative: source,
            before: Some(content),
            after: None,
            after_permissions: None,
        },
        ChangeAbs {
            relative: destination,
            before: None,
            after: Some(content),
            after_permissions: Some(permissions),
        },
    ]
}

/// The plan with a file that is moved.
pub open spec fn plan_move(
    plan: PlanAbs,
    routes: ArtifactRoutes,
    from: Seq<char>,
    to: Seq<char>,
    expected_digest: Seq<char>,
    expected_destination_absent: bool,
    source: SourceProbe,
    target: TargetProbe,
) -> Result<PlanAbs, PatchErrorAbs> {
    if !expected_destination_absent {
        Err(invalid_patch("move requires expected_destination_absent=true"@))
    } else {
        match source_file(from, expected_digest, routes, source) {
            Err(error) => Err(error),
            Ok((origin, content, permissions)) => match absent_target(to, routes, target) {
                Err(error) => Err(error),
                Ok(destination) => match touch(plan, origin) {
                    Err(error) => Err(error),
                    Ok(first) => match touch(first, destination) {
                        Err(error) => Err(error),
                        Ok(next) => match more_bytes(next.bytes, content.len() as int) {
                            Err(error) => Err(error),
                            Ok(bytes) => Ok(
                                PlanAbs {
                                    changes: next.changes + move_changes(
                                        origin,
                                        destination,
                                        content,
                                        permissions,
                                    ),
                                    receipts: next.receipts.push(
                                        ReceiptAbs {
                                            operation: "move",
                                            path: None,
                                            from: Some(slashed(origin)),
                                            to: Some(slashed(destination)),
                                            before_digest: Some(file_digest(content)),
                                            after_digest: Some(file_digest(content)),
                                        },
                                    ),
                                    bytes,
                                    ..next
                                },
                            ),
                        },
                    },
                },
            },
        }
    }
}

/// The plan with one more operation.
pub open spec fn plan_operation(
    plan: PlanAbs,
    routes: ArtifactRoutes,
    operation: PatchOperation,
) -> Result<PlanAbs, PatchErrorAbs> {
    match operation {
        PatchOperation::Create { path, content, expected_absent, target } => plan_create(
            plan,
            routes,
            path@,
            content@,
            expected_absent,
            target,
        ),
        PatchOperation::Update { path, expected_digest, edits, source } => plan_update(
            plan,
            routes,
            path@,
            expected_digest@,
            edits@,
            source,
        ),
        PatchOperation::Delete { path, expected_digest, source } => plan_delete(
            plan,
            routes,
            path@,
            expected_digest@,
            source,
        ),
        PatchOperation::Move {
            from,
            to,
            expected_digest,
            expected_destination_absent,
            source,
            target,
        } => plan_move(
            plan,
            routes,
            from@,
            to@,
            expected_digest@,
            expected_destination_absent,
            source,
            target,
        ),
    }
}

pub open spec fn empty_plan() -> PlanAbs {
    PlanAbs {
        changes: Seq::empty(),
        receipts: Seq::empty(),
        touched: Seq::empty(),
        bytes: 0,
    }
}

/// The plan of the first `n` operations.
pub open spec fn plan_operations(
    routes: ArtifactRoutes,
    operations: Seq<PatchOperation>,
    n: int,
) -> Result<PlanAbs, PatchErrorAbs>
    decreases n,
{
    if n <= 0 {
        Ok(empty_plan())
    } else {
        match plan_operations(routes, operations, n - 1) {
            Err(error) => Err(error),
            Ok(plan) => plan_operation(plan, routes, operations[n - 1]),
        }
    }
}

/// The plan of a patch, or why it is refused.
pub open spec fn planned(routes: ArtifactRoutes, operations: Seq<PatchOperation>) -> Result<
    PlanAbs,
    PatchErrorAbs,
> {
    if operations.len() == 0 || operations.len() > MAX_PATCH_OPERATIONS {
        Err(invalid_patch("operations must contain between 1 and 64 items"@))
    } else {
        plan_operations(routes, operations, operations.len() as int)
    }
}

proof fn lemma_planning_fails(
    routes: ArtifactRoutes,
    operations: Seq<PatchOperation>,
    n: int,
    m: int,
)
    requires
        0 <= n <= m,
        plan_operations(routes, operations, n) is Err,
    ensures
        plan_operations(routes, operations, m) == plan_operations(routes, operations, n),
    decreases m,
{
    if n < m {
        lemma_planning_fails(routes, operations, n, m - 1);
    }
}

/// A plan that is being made, as a value.
struct Draft {
    changes: Vec<PlannedFileChange>,
    receipts: Vec<PatchReceipt>,
    touched: Vec<RepoPath>,
    bytes: usize,
}

impl Draft {
    spec fn view(&self) -> PlanAbs {
        PlanAbs {
            changes: changes_abs(self.changes@),
            receipts: receipts_abs(self.receipts@),
            touched: paths_of(self.touched@),
            bytes: self.bytes as int,
        }
    }

    fn push_change(&mut self, change: PlannedFileChange)
        ensures
            final(self)@ == (PlanAbs { changes: old(self)@.changes.push(change@), ..old(self)@ }),
            final(self).bytes == old(self).bytes,
    {
        let ghost before = self@;
        self.changes.push(change);
        assert(changes_abs(self.changes@) =~= before.changes.push(change@));
    }

    fn push_receipt(&mut self, receipt: PatchReceipt)
        ensures
            final(self)@ == (PlanAbs {
                receipts: old(self)@.receipts.push(receipt@),
                ..old(self)@
            }),
            final(self).bytes == old(self).bytes,
    {
        let ghost before = self@;
        self.receipts.push(receipt);
        assert(receipts_abs(self.receipts@) =~= before.receipts.push(receipt@));
    }

    fn touch(&mut self, path: &RepoPath) -> (r: Result<(), PatchError>)
        ensures
            match r {
                Ok(_) => touch(old(self)@, path@) == Ok::<PlanAbs, PatchErrorAbs>(final(self)@),
                Err(error) => touch(old(self)@, path@) == Err::<PlanAbs, PatchErrorAbs>(error@),
            },
            final(self).bytes == old(self).bytes,
    {
        ensure_unique_path(&mut self.touched, path)
    }

    fn add_bytes(&mut self, additional: usize) -> (r: Result<(), PatchError>)
        ensures
            match r {
                Ok(_) => more_bytes(old(self)@.bytes, additional as int) == Ok::<
                    int,
                    PatchErrorAbs,
                >(final(self)@.bytes) && final(self)@ == (PlanAbs {
                    bytes: final(self)@.bytes,
                    ..old(self)@
                }),
                Err(error) => more_bytes(old(self)@.bytes, additional as int) == Err::<
                    int,
                    PatchErrorAbs,
                >(error@),
            },
    {
        match checked_patch_bytes(self.bytes, additional) {
            Ok(total) => {
                self.bytes = total;
                Ok(())
            },
            Err(error) => Err(error),
        }
    }

    fn create(
        &mut self,
        routes: &ArtifactRoutes,
        path: &String,
        content: &String,
        expected_absent: bool,
        target: &TargetProbe,
    ) -> (r: Result<(), PatchError>)
        ensures
            ({
                let planned = plan_create(
                    old(self)@,
                    *routes,
                    path@,
                    content@,
                    expected_absent,
                    *target,
                );
                match r {
                    Ok(_) => planned == Ok::<PlanAbs, PatchErrorAbs>(final(self)@),
                    Err(error) => planned == Err::<PlanAbs, PatchErrorAbs>(error@),
                }
            }),
    {
        if !expected_absent {
            return Err(PatchError::invalid("create requires expected_absent=true".to_owned()));
        }
        let relative: RepoPath = match resolve_absent_target(path.as_str(), routes, target) {
            Ok(relative) => relative,
            Err(error) => {
                return Err(error);
            },
        };
        if let Err(error) = self.touch(&relative) {
            return Err(error);
        }
        let bytes: Vec<u8> = copy_bytes(content.as_str().as_bytes());
        if let Err(error) = self.add_bytes(bytes.len()) {
            return Err(error);
        }
        let digest: String = content_digest(bytes.as_slice());
        let shown: String = relative.display();
        self.push_change(
            PlannedFileChange {
                relative,
                before: None,
                after: Some(bytes),
                after_permissions: None,
            },
        );
        self.push_receipt(
            PatchReceipt {
                operation: "create",
                path: Some(shown),
                from: None,
                to: None,
                before_digest: None,
                after_digest: Some(digest),
            },
        );
        Ok(())
    }

    fn update(
        &mut self,
        routes: &ArtifactRoutes,
        path: &String,
        expected_digest: &String,
        edits: &Vec<PatchEdit>,
        source: &SourceProbe,
    ) -> (r: Result<(), PatchError>)
        ensures
            ({
                let planned = plan_update(
                    old(self)@,
                    *routes,
                    path@,
                    expected_digest@,
                    edits@,
                    *source,
                );
                match r {
                    Ok(_) => planned == Ok::<PlanAbs, PatchErrorAbs>(final(self)@),
                    Err(error) => planned == Err::<PlanAbs, PatchErrorAbs>(error@),
                }
            }),
    {
        let file: ExistingFile = match read_preconditioned_file(
            path.as_str(),
            expected_digest.as_str(),
            routes,
            source,
        ) {
            Ok(file) => file,
            Err(error) => {
                return Err(error);
            },
        };
        if let Err(error) = self.touch(&file.path) {
            return Err(error);
        }
        let after: Vec<u8> = match apply_exact_text_edits(
            path.as_str(),
            file.content.as_slice(),
            edits,
        ) {
            Ok(after) => after,
            Err(error) => {
                return Err(error);
            },
        };
        if let Err(error) = self.add_bytes(after.len()) {
            return Err(error);
        }
        let shown: String = file.path.display();
        let old_digest: String = content_digest(file.content.as_slice());
        let new_digest: String = content_digest(after.as_slice());
        self.push_change(
            PlannedFileChange {
                relative: file.path,
                before: Some(file.content),
                after: Some(after),
                after_permissions: Some(file.permissions),
            },
        );
        self.push_receipt(
            PatchReceipt {
                operation: "update",
                path: Some(shown),
                from: None,
                to: None,
                before_digest: Some(old_digest),
                after_digest: Some(new_digest),
            },
        );
        Ok(())
    }

    fn delete(
        &mut self,
        routes: &ArtifactRoutes,
        path: &String,
        expected_digest: &String,
        source: &SourceProbe,
    ) -> (r: Result<(), PatchError>)
        ensures
            ({
                let planned = plan_delete(
                    old(self)@,
                    *routes,
                    path@,
                    expected_digest@,
                    *source,
                );
                match r {
                    Ok(_) => planned == Ok::<PlanAbs, PatchErrorAbs>(final(self)@),
                    Err(error) => planned == Err::<PlanAbs, PatchErrorAbs>(error@),
                }
            }),
    {
        let file: ExistingFile = match read_preconditioned_file(
            path.as_str(),
            expected_digest.as_str(),
            routes,
            source,
        ) {
            Ok(file) => file,
            Err(error) => {
                return Err(error);
            },
        };
        if let Err(error) = self.touch(&file.path) {
            return Err(error);
        }
        let shown: String = file.path.display();
        let digest: String = content_digest(file.content.as_slice());
        self.push_change(
            PlannedFileChange {
                relative: file.path,
                before: Some(file.content),
                after: None,
                after_permissions: None,
            },
        );
        self.push_receipt(
            PatchReceipt {
                operation: "delete",
                path: Some(shown),
                from: None,
                to: None,
                before_digest: Some(digest),
                after_digest: None,
            },
        );
        Ok(())
    }

    fn relocate(
        &mut self,
        routes: &ArtifactRoutes,
        from: &String,
        to: &String,
        expected_digest: &String,
        expected_destination_absent: bool,
        source: &SourceProbe,
        target: &TargetProbe,
    ) -> (r: Result<(), PatchError>)
        ensures
            ({
                let planned = plan_move(
                    old(self)@,
                    *routes,
                    from@,
                    to@,
                    expected_digest@,
                    expected_destination_absent,
                    *source,
                    *target,
                );
                match r {
                    Ok(_) => planned == Ok::<PlanAbs, PatchErrorAbs>(final(self)@),
                    Err(error) => planned == Err::<PlanAbs, PatchErrorAbs>(error@),
                }
            }),
    {
        if !expected_destination_absent {
            return Err(
                PatchError::invalid("move requires expected_destination_absent=true".to_owned()),
            );
        }
        let file: ExistingFile = match read_preconditioned_file(
            from.as_str(),
            expected_digest.as_str(),
            routes,
            source,
        ) {
            Ok(file) => file,
            Err(error) => {
                return Err(error);
            },
        };
        let destination: RepoPath = match resolve_absent_target(to.as_str(), routes, target) {
            Ok(destination) => destination,
            Err(error) => {
                return Err(error);
            },
        };
        if let Err(error) = self.touch(&file.path) {
            return Err(error);
        }
        if let Err(error) = self.touch(&destination) {
            return Err(error);
        }
        if let Err(error) = self.add_bytes(file.content.len()) {
            return Err(error);
        }
        let ghost next = self@;
        let ghost expected = move_changes(
            file.path@,
            destination@,
            file.content@,
            file.permissions,
        );
        let shown_from: String = file.path.display();
        let shown_to: String = destination.display();
        let old_digest: String = content_digest(file.content.as_slice());
        let new_digest: String = content_digest(file.content.as_slice());
        self.push_change(
            PlannedFileChange {
                relative: file.path,
                before: Some(copy_bytes(file.content.as_slice())),
                after: None,
                after_permissions: None,
            },
        );
        self.push_change(
            PlannedFileChange {
                relative: destination,
                before: None,
                after: Some(file.content),
                after_permissions: Some(file.permissions),
            },
        );
        assert(self@.changes =~= next.changes + expected);
        self.push_receipt(
            PatchReceipt {
                operation: "move",
                path: None,
                from: Some(shown_from),
                to: Some(shown_to),
                before_digest: Some(old_digest),
                after_digest: Some(new_digest),
            },
        );
        Ok(())
    }

    fn add(&mut self, routes: &ArtifactRoutes, operation: &PatchOperation) -> (r: Result<
        (),
        PatchError,
    >)
        ensures
            match r {
                Ok(_) => plan_operation(old(self)@, *routes, *operation) == Ok::<
                    PlanAbs,
                    PatchErrorAbs,
                >(final(self)@),
                Err(error) => plan_operation(old(self)@, *routes, *operation) == Err::<
                    PlanAbs,
                    PatchErrorAbs,
                >(error@),
            },
    {
        match operation {
            PatchOperation::Create { path, content, expected_absent, target } => self.create(
                routes,
                path,
                content,
                *expected_absent,
                target,
            ),
            PatchOperation::Update { path, expected_digest, edits, source } => self.update(
                routes,
                path,
                expected_digest,
                edits,
                source,
            ),
            PatchOperation::Delete { path, expected_digest, source } => self.delete(
                routes,
                path,
                expected_digest,
                source,
            ),
            PatchOperation::Move {
                from,
                to,
                expected_digest,
                expected_destination_absent,
                source,
                target,
            } => self.relocate(
                routes,
                from,
                to,
                expected_digest,
                *expected_destination_absent,
                source,
                target,
            ),
        }
    }
}

/// Plans a patch: nothing is changed before every operation has been found
/// possible.
pub fn plan_patch(routes: &ArtifactRoutes, operations: &Vec<PatchOperation>) -> (r: Result<
    PatchPlan,
    PatchError,
>)
    ensures
        match r {
            Ok(plan) => planned(*routes, operations@) is Ok && changes_abs(plan.changes@)
                == planned(*routes, operations@)->Ok_0.changes && receipts_abs(plan.receipts@)
                == planned(*routes, operations@)->Ok_0.receipts,
            Err(error) => planned(*routes, operations@) == Err::<PlanAbs, PatchErrorAbs>(error@),
        },
{
    if operations.len() == 0 || operations.len() > MAX_PATCH_OPERATIONS {
        return Err(
            PatchError::invalid("operations must contain between 1 and 64 items".to_owned()),
        );
    }
    let mut draft: Draft = Draft {
        changes: Vec::new(),
        receipts: Vec::new(),
        touched: Vec::new(),
        bytes: 0,
    };
    proof {
        assert(draft@.changes =~= Seq::<ChangeAbs>::empty());
        assert(draft@.receipts =~= Seq::<ReceiptAbs>::empty());
        assert(draft@.touched =~= Seq::<Seq<Seq<char>>>::empty());
    }
    let mut i: usize = 0;
    while i < operations.len()
        invariant
            i <= operations@.len(),
            0 < operations@.len() <= MAX_PATCH_OPERATIONS,
            plan_operations(*routes, operations@, i as int) == Ok::<PlanAbs, PatchErrorAbs>(
                draft@,
            ),
        decreases operations@.len() - i,
    {
        if let Err(error) = draft.add(routes, &operations[i]) {
            proof {
                lemma_planning_fails(*routes, operations@, i + 1, operations@.len() as int);
            }
            return Err(error);
        }
        i += 1;
    }
    Ok(PatchPlan { changes: draft.changes, receipts: draft.receipts })
}

// ---------------------------------------------------------------------------
// Laws
// ---------------------------------------------------------------------------

/// The paths of the changes.
pub open spec fn changed_paths(changes: Seq<ChangeAbs>) -> Seq<Seq<Seq<char>>> {
    Seq::new(changes.len(), |i: int| changes[i].relative)
}

proof fn lemma_planned(routes: ArtifactRoutes, operations: Seq<PatchOperation>, n: int)
    requires
        0 <= n <= operations.len(),
        plan_operations(routes, operations, n) is Ok,
    ensures
        ({
            let plan = plan_operations(routes, operations, n)->Ok_0;
            &&& plan.touched == changed_paths(plan.changes)
            &&& plan.touched.no_duplicates()
            &&& 0 <= plan.bytes <= MAX_PATCH_CONTENT_BYTES
            &&& plan.receipts.len() == n
            &&& forall|i: int|
                0 <= i < plan.changes.len() ==> (#[trigger] plan.changes[i]).before is Some
                    || plan.changes[i].after is Some
        }),
    decreases n,
{
    if n == 0 {
        assert(changed_paths(Seq::<ChangeAbs>::empty()) =~= Seq::<Seq<Seq<char>>>::empty());
    } else {
        lemma_planned(routes, operations, n - 1);
        let before = plan_operations(routes, operations, n - 1)->Ok_0;
        let plan = plan_operations(routes, operations, n)->Ok_0;
        assert(plan.touched =~= changed_paths(plan.changes));
    }
}

/// A planned patch touches every path once, writes no more than its limit,
/// gives a receipt for each operation, and none of its changes is empty.
pub proof fn planned_paths_are_distinct(routes: ArtifactRoutes, operations: Seq<PatchOperation>)
    requires
        planned(routes, operations) is Ok,
    ensures
        ({
            let plan = planned(routes, operations)->Ok_0;
            &&& changed_paths(plan.changes).no_duplicates()
            &&& plan.bytes <= MAX_PATCH_CONTENT_BYTES
            &&& plan.receipts.len() == operations.len()
            &&& forall|i: int|
                0 <= i < plan.changes.len() ==> (#[trigger] plan.changes[i]).before is Some
                    || plan.changes[i].after is Some
        }),
{
    lemma_planned(routes, operations, operations.len() as int);
}

/// A longer plan begins with the changes of a shorter one.
pub(crate) proof fn lemma_plan_grows(
    routes: ArtifactRoutes,
    operations: Seq<PatchOperation>,
    n: int,
    m: int,
)
    requires
        0 <= n <= m <= operations.len(),
        plan_operations(routes, operations, m) is Ok,
    ensures
        plan_operations(routes, operations, n) is Ok,
        ({
            let first = plan_operations(routes, operations, n)->Ok_0.changes;
            let all = plan_operations(routes, operations, m)->Ok_0.changes;
            first.len() <= all.len() && forall|k: int|
                0 <= k < first.len() ==> #[trigger] all[k] == first[k]
        }),
    decreases m,
{
    if n < m {
        lemma_plan_grows(routes, operations, n, m - 1);
    }
}

/// Whether an operation has its change in the plan, with the permissions of the
/// file that it reads.
pub open spec fn keeps_permissions(
    changes: Seq<ChangeAbs>,
    routes: ArtifactRoutes,
    operation: PatchOperation,
) -> bool {
    match operation {
        PatchOperation::Update { path, expected_digest, edits, source } => source_file(
            path@,
            expected_digest@,
            routes,
            source,
        ) matches Ok((relative, content, permissions)) && exists|k: int|
            0 <= k < changes.len() && (#[trigger] changes[k]).relative == relative
                && changes[k].before == Some(content) && changes[k].after is Some
                && changes[k].after_permissions == Some(permissions),
        PatchOperation::Move { from, to, expected_digest, source, target, .. } => source_file(
            from@,
            expected_digest@,
            routes,
            source,
        ) matches Ok((_, content, permissions)) && exists|k: int|
            0 <= k < changes.len() && absent_target(to@, routes, target) == Ok::<
                Seq<Seq<char>>,
                PatchErrorAbs,
            >((#[trigger] changes[k]).relative) && changes[k].after == Some(content)
                && changes[k].after_permissions == Some(permissions),
        _ => true,
    }
}

/// A file that is edited keeps its permissions, and one that is moved takes
/// them along.
pub proof fn permissions_are_kept(
    routes: ArtifactRoutes,
    operations: Seq<PatchOperation>,
    i: int,
)
    requires
        planned(routes, operations) is Ok,
        0 <= i < operations.len(),
    ensures
        keeps_permissions(planned(routes, operations)->Ok_0.changes, routes, operations[i]),
{
    let n = operations.len() as int;
    lemma_plan_grows(routes, operations, i, n);
    lemma_plan_grows(routes, operations, i + 1, n);
    let first = plan_operations(routes, operations, i)->Ok_0.changes;
    let second = plan_operations(routes, operations, i + 1)->Ok_0.changes;
    let all = plan_operations(routes, operations, n)->Ok_0.changes;
    match operations[i] {
        PatchOperation::Update { .. } => {
            let k = first.len() as int;
            assert(all[k] == second[k]);
        },
        PatchOperation::Move { .. } => {
            let k = first.len() as int + 1;
            assert(all[k] == second[k]);
        },
        _ => {},
    }
}

} // verus!
