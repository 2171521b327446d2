//! The first-party extensions and the tools that are bound for each.

use vstd::prelude::*;
use vstd::string::*;

use super::fs::{
    FS_APPLY_PATCH_TOOL_ID, FS_LIST_TOOL_ID, FS_READ_TOOL_ID, FS_SEARCH_TOOL_ID,
};
use super::matrix::{MATRIX_OUTBOX_ENQUEUE_TOOL_ID, MATRIX_OUTBOX_STATUS_TOOL_ID};
use super::matrix_delivery::MATRIX_OUTBOX_DELIVER_TOOL_ID;
use super::permissions::{
    PERMISSIONS_GRANT_TOOL_ID, PERMISSIONS_REQUEST_TOOL_ID, PERMISSIONS_REVOKE_TOOL_ID,
    PERMISSIONS_STATUS_TOOL_ID,
};
use super::repo::{ARTIFACT_COMMIT_TOOL_ID, TASKS_VERIFY_TOOL_ID};
use super::store::{STORE_EXPORT_TOOL_ID, STORE_MIGRATE_TOOL_ID, STORE_STATUS_TOOL_ID};

verus! {

/// The version of the interface between extensions and their host.
pub const API_MAJOR: u32 = 1;

/// A host binding that is absent or of the wrong type.
#[derive(Clone, Debug, Eq, PartialEq)]
pub struct FirstPartyBindError {
    extension_id: &'static str,
}

impl FirstPartyBindError {
    pub closed spec fn extension_id(&self) -> &'static str {
        self.extension_id
    }

    pub open spec fn message(&self) -> Seq<char> {
        "host binding for Extension `"@ + self.extension_id()@
            + "` is absent or has the wrong type"@
    }

    pub fn to_string(&self) -> (r: String)
        ensures
            r@ == self.message(),
    {
        "host binding for Extension `".to_owned().concat(self.extension_id).concat(
            "` is absent or has the wrong type",
        )
    }
}

/// The tools that are bound for an extension, where the host has a handler.
pub fn tool_bindings(
    has_handler: bool,
    extension_id: &'static str,
    tool_ids: Vec<&'static str>,
) -> (r: Result<Vec<&'static str>, FirstPartyBindError>)
    ensures
        match r {
            Ok(bound) => has_handler && bound == tool_ids,
            Err(error) => !has_handler && error.extension_id() == extension_id,
        },
{
    if !has_handler {
        return Err(FirstPartyBindError { extension_id });
    }
    Ok(tool_ids)
}

/// The tools of the workspace extension.
pub fn fs_tool_ids() -> (r: Vec<&'static str>)
    ensures
        r@ == seq![
            "core.workspace:fs.read",
            "core.workspace:fs.list",
            "core.workspace:fs.search",
            "core.workspace:fs.apply_patch",
        ],
{
    let ids: Vec<&'static str> = vec![
        FS_READ_TOOL_ID,
        FS_LIST_TOOL_ID,
        FS_SEARCH_TOOL_ID,
        FS_APPLY_PATCH_TOOL_ID,
    ];
    assert(ids@ =~= seq![
        "core.workspace:fs.read",
        "core.workspace:fs.list",
        "core.workspace:fs.search",
        "core.workspace:fs.apply_patch",
    ]);
    ids
}

/// The tools of the outbox extension.
pub fn matrix_tool_ids() -> (r: Vec<&'static str>)
    ensures
        r@ == seq!["matrix.outbox:status", "matrix.outbox:enqueue"],
{
    let ids: Vec<&'static str> = vec![MATRIX_OUTBOX_STATUS_TOOL_ID, MATRIX_OUTBOX_ENQUEUE_TOOL_ID];
    assert(ids@ =~= seq!["matrix.outbox:status", "matrix.outbox:enqueue"]);
    ids
}

/// The tools of the delivery extension.
pub fn matrix_delivery_tool_ids() -> (r: Vec<&'static str>)
    ensures
        r@ == seq!["matrix.bridge:outbox.deliver"],
{
    let ids: Vec<&'static str> = vec![MATRIX_OUTBOX_DELIVER_TOOL_ID];
    assert(ids@ =~= seq!["matrix.bridge:outbox.deliver"]);
    ids
}

/// The tools of the permission extension.
pub fn permissions_tool_ids() -> (r: Vec<&'static str>)
    ensures
        r@ == seq![
            "core.permission:status",
            "core.permission:request",
            "core.permission:grant",
            "core.permission:revoke",
        ],
{
    let ids: Vec<&'static str> = vec![
        PERMISSIONS_STATUS_TOOL_ID,
        PERMISSIONS_REQUEST_TOOL_ID,
        PERMISSIONS_GRANT_TOOL_ID,
        PERMISSIONS_REVOKE_TOOL_ID,
    ];
    assert(ids@ =~= seq![
        "core.permission:status",
        "core.permission:request",
        "core.permission:grant",
        "core.permission:revoke",
    ]);
    ids
}

/// The tools of the repository extension.
pub fn repo_tool_ids() -> (r: Vec<&'static str>)
    ensures
        r@ == seq!["core.repo:artifact.commit", "core.repo:tasks.verify"],
{
    let ids: Vec<&'static str> = vec![ARTIFACT_COMMIT_TOOL_ID, TASKS_VERIFY_TOOL_ID];
    assert(ids@ =~= seq!["core.repo:artifact.commit", "core.repo:tasks.verify"]);
    ids
}

/// The tools of the store extension.
pub fn store_tool_ids() -> (r: Vec<&'static str>)
    ensures
        r@ == seq!["core.store:status", "core.store:export", "core.store:migrate"],
{
    let ids: Vec<&'static str> = vec![
        STORE_STATUS_TOOL_ID,
        STORE_EXPORT_TOOL_ID,
        STORE_MIGRATE_TOOL_ID,
    ];
    assert(ids@ =~= seq!["core.store:status", "core.store:export", "core.store:migrate"]);
    ids
}

} // verus!
