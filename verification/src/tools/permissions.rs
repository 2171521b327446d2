//! Requesting, granting and revoking permissions.

use vstd::prelude::*;
use vstd::string::*;

use super::descriptor::{
    lemma_declared, Effect, ExtensionAbs, ExtensionDescriptor, HookDeclaration, OperationKind,
    ToolAbs, ToolDeclaration, ToolErrorDeclaration,
};
use crate::ids::{is_qualified, EffectId, IdentifierError, ToolId};
use crate::json::{json_abs, json_abs_cases, Json, JsonAbs, JsonMap};
use crate::order::{ascend, insert_name};
use crate::text::{cut, same_text, split_once};
use crate::value::{contents, Abstract};

verus! {

pub const EXTENSION_ID: &'static str = "core.permission";

pub const PERMISSIONS_STATUS_TOOL_ID: &'static str = "core.permission:status";

pub const PERMISSIONS_REQUEST_TOOL_ID: &'static str = "core.permission:request";

pub const PERMISSIONS_GRANT_TOOL_ID: &'static str = "core.permission:grant";

pub const PERMISSIONS_REVOKE_TOOL_ID: &'static str = "core.permission:revoke";

/// What the runtime knows of the tools that a caller sees.
#[derive(Clone, Debug, Eq, PartialEq)]
pub struct PermissionRuntimeStatus {
    pub current_mode: String,
    pub visible_tools: Vec<String>,
    pub dynamic_grants: bool,
    pub granted_visible_tools: Vec<String>,
    pub ignored_grants: Vec<String>,
}

impl Default for PermissionRuntimeStatus {
    fn default() -> (r: PermissionRuntimeStatus)
        ensures
            r.current_mode@ == "unknown"@,
            r.visible_tools@.len() == 0,
            !r.dynamic_grants,
            r.granted_visible_tools@.len() == 0,
            r.ignored_grants@.len() == 0,
    {
        PermissionRuntimeStatus {
            current_mode: "unknown".to_owned(),
            visible_tools: Vec::new(),
            dynamic_grants: false,
            granted_visible_tools: Vec::new(),
            ignored_grants: Vec::new(),
        }
    }
}

// ---------------------------------------------------------------------------
// Dispatch
// ---------------------------------------------------------------------------

/// The tools of the extension.
#[derive(Clone, Copy, Debug, Eq, PartialEq, Structural)]
pub enum PermissionTool {
    Status,
    Request,
    Grant,
    Revoke,
}

/// The tool with that ID.
pub open spec fn permission_tool(name: Seq<char>) -> Option<PermissionTool> {
    if name == "core.permission:status"@ {
        Some(PermissionTool::Status)
    } else if name == "core.permission:request"@ {
        Some(PermissionTool::Request)
    } else if name == "core.permission:grant"@ {
        Some(PermissionTool::Grant)
    } else if name == "core.permission:revoke"@ {
        Some(PermissionTool::Revoke)
    } else {
        None
    }
}

fn find_tool(name: &str) -> (r: Option<PermissionTool>)
    ensures
        r == permission_tool(name@),
{
    if same_text(name, "core.permission:status") {
        Some(PermissionTool::Status)
    } else if same_text(name, "core.permission:request") {
        Some(PermissionTool::Request)
    } else if same_text(name, "core.permission:grant") {
        Some(PermissionTool::Grant)
    } else if same_text(name, "core.permission:revoke") {
        Some(PermissionTool::Revoke)
    } else {
        None
    }
}

/// The tool that a call without an idempotency identity is for. Granting and
/// revoking are not to be had that way.
pub fn dispatch(name: &str) -> (r: Result<PermissionTool, String>)
    ensures
        match permission_tool(name@) {
            Some(PermissionTool::Status) => r == Ok::<PermissionTool, String>(
                PermissionTool::Status,
            ),
            Some(PermissionTool::Request) => r == Ok::<PermissionTool, String>(
                PermissionTool::Request,
            ),
            Some(_) => r is Err && r->Err_0@ == name@
                + " requires a request or run-step idempotency identity and must be dispatched through ToolHandler"@,
            None => r is Err && r->Err_0@ == "unknown permission tool `"@ + name@ + "`"@,
        },
{
    match find_tool(name) {
        Some(PermissionTool::Status) => Ok(PermissionTool::Status),
        Some(PermissionTool::Request) => Ok(PermissionTool::Request),
        Some(_) => Err(
            name.to_owned().concat(
                " requires a request or run-step idempotency identity and must be dispatched through ToolHandler",
            ),
        ),
        None => Err("unknown permission tool `".to_owned().concat(name).concat("`")),
    }
}

/// The identity under which a grant or a revocation happens once: that of the
/// step of a run, or else that of the request.
pub fn permission_operation_id(
    tool_id: &str,
    run_step_key: Option<String>,
    request_id: Option<String>,
) -> (r: Result<String, String>)
    ensures
        ({
            let identity = match run_step_key {
                Some(key) => Some(key@),
                None => request_id.abs(),
            };
            match identity {
                Some(identity) => r is Ok && r->Ok_0@ == tool_id@ + ":"@ + identity,
                None => r is Err && r->Err_0@ == tool_id@
                    + " requires a request or run-step idempotency identity"@,
            }
        }),
{
    let identity: Option<String> = match run_step_key {
        Some(key) => Some(key),
        None => request_id,
    };
    match identity {
        Some(identity) => Ok(tool_id.to_owned().concat(":").concat(identity.as_str())),
        None => Err(
            tool_id.to_owned().concat(" requires a request or run-step idempotency identity"),
        ),
    }
}

// ---------------------------------------------------------------------------
// Requests
// ---------------------------------------------------------------------------

/// The extension that a tool belongs to.
pub open spec fn namespace(tool: Seq<char>) -> Option<Seq<char>> {
    match cut(tool, ":"@) {
        Some((owner, local)) => Some(owner),
        None => None,
    }
}

/// The first `n` requested tools, each once and in the order of the request,
/// or why they may not be requested.
pub open spec fn requested_tools(tools: Seq<Seq<char>>, n: int) -> Result<
    Seq<Seq<char>>,
    Seq<char>,
>
    decreases n,
{
    if n <= 0 {
        Ok(Seq::empty())
    } else {
        match requested_tools(tools, n - 1) {
            Err(error) => Err(error),
            Ok(before) => {
                let tool = tools[n - 1];
                if !is_qualified(tool) {
                    Err("core.permission:request requested tool id is invalid: "@ + tool)
                } else if namespace(tool) == Some("core.permission"@) {
                    Err("permission tools cannot request or grant permission tools"@)
                } else if before.contains(tool) {
                    Ok(before)
                } else {
                    Ok(before.push(tool))
                }
            },
        }
    }
}

proof fn lemma_request_fails(tools: Seq<Seq<char>>, n: int, m: int)
    requires
        0 <= n <= m,
        requested_tools(tools, n) is Err,
    ensures
        requested_tools(tools, m) == requested_tools(tools, n),
    decreases m,
{
    if n < m {
        lemma_request_fails(tools, n, m - 1);
    }
}

fn has_tool(tools: &Vec<ToolId>, tool: &str) -> (b: bool)
    ensures
        b == contents(tools@).contains(tool@),
{
    let ghost all = contents(tools@);
    let mut i: usize = 0;
    while i < tools.len()
        invariant
            i <= tools@.len(),
            all == contents(tools@),
            forall|k: int| 0 <= k < i ==> #[trigger] all[k] != tool@,
        decreases tools@.len() - i,
    {
        assert(all[i as int] == tools@[i as int]@);
        if same_text(tools[i].as_str(), tool) {
            assert(all[i as int] == tool@);
            return true;
        }
        i += 1;
    }
    false
}

/// The tools that a request is for: no permission tool, and each once.
pub fn validate_requested_tools(tools: &Vec<String>) -> (r: Result<Vec<ToolId>, String>)
    ensures
        ({
            let all = contents(tools@);
            let requested = requested_tools(all, all.len() as int);
            match r {
                Ok(ids) => all.len() > 0 && requested == Ok::<Seq<Seq<char>>, Seq<char>>(
                    contents(ids@),
                ),
                Err(error) => if all.len() == 0 {
                    error@ == "core.permission:request tools cannot be empty"@
                } else {
                    requested == Err::<Seq<Seq<char>>, Seq<char>>(error@)
                },
            }
        }),
{
    if tools.len() == 0 {
        return Err("core.permission:request tools cannot be empty".to_owned());
    }
    let ghost all = contents(tools@);
    let mut out: Vec<ToolId> = Vec::new();
    let mut i: usize = 0;
    assert(contents(out@) =~= Seq::<Seq<char>>::empty());
    while i < tools.len()
        invariant
            i <= tools@.len(),
            all == contents(tools@),
            all.len() > 0,
            requested_tools(all, i as int) == Ok::<Seq<Seq<char>>, Seq<char>>(contents(out@)),
        decreases tools@.len() - i,
    {
        let tool: &String = &tools[i];
        assert(all[i as int] == tool@);
        let id: ToolId = match ToolId::new(tool.as_str()) {
            Ok(id) => id,
            Err(_) => {
                proof {
                    lemma_request_fails(all, i + 1, all.len() as int);
                }
                return Err(
                    "core.permission:request requested tool id is invalid: ".to_owned().concat(
                        tool.as_str(),
                    ),
                );
            },
        };
        let own: bool = match split_once(tool.as_str(), ":") {
            Some((owner, local)) => same_text(owner.as_str(), "core.permission"),
            None => false,
        };
        if own {
            proof {
                lemma_request_fails(all, i + 1, all.len() as int);
            }
            return Err("permission tools cannot request or grant permission tools".to_owned());
        }
        if !has_tool(&out, tool.as_str()) {
            let ghost before = contents(out@);
            out.push(id);
            assert(contents(out@) =~= before.push(tool@));
        }
        i += 1;
    }
    Ok(out)
}

/// A request is never for a permission tool, and never for a tool twice.
pub proof fn requests_are_distinct(tools: Seq<Seq<char>>, n: int)
    requires
        0 <= n <= tools.len(),
        requested_tools(tools, n) is Ok,
    ensures
        ({
            let ids = requested_tools(tools, n)->Ok_0;
            &&& ids.no_duplicates()
            &&& forall|i: int|
                0 <= i < ids.len() ==> is_qualified(#[trigger] ids[i]) && namespace(ids[i])
                    != Some("core.permission"@)
            &&& forall|i: int| 0 <= i < n ==> ids.contains(#[trigger] tools[i])
        }),
    decreases n,
{
    if n > 0 {
        requests_are_distinct(tools, n - 1);
        let before = requested_tools(tools, n - 1)->Ok_0;
        let ids = requested_tools(tools, n)->Ok_0;
        assert forall|i: int| 0 <= i < n implies ids.contains(#[trigger] tools[i]) by {
            if i < n - 1 {
                assert(before.contains(tools[i]));
                let k = choose|k: int| 0 <= k < before.len() && before[k] == tools[i];
                assert(ids[k] == tools[i]);
            } else if !before.contains(tools[i]) {
                assert(ids[before.len() as int] == tools[i]);
            }
        }
    }
}

/// The first of the first `n` names that is not that of an effect.
pub open spec fn first_bad_effect(names: Seq<Seq<char>>, n: int) -> Option<Seq<char>>
    decreases n,
{
    if n <= 0 {
        None
    } else {
        match first_bad_effect(names, n - 1) {
            Some(name) => Some(name),
            None => if is_qualified(names[n - 1]) {
                None
            } else {
                Some(names[n - 1])
            },
        }
    }
}

proof fn lemma_bad_effect(names: Seq<Seq<char>>, n: int, m: int)
    requires
        0 <= n <= m,
        first_bad_effect(names, n) is Some,
    ensures
        first_bad_effect(names, m) == first_bad_effect(names, n),
    decreases m,
{
    if n < m {
        lemma_bad_effect(names, n, m - 1);
    }
}

/// The effects with those names, in order and each once.
pub fn parse_effects(effects: &Option<Vec<String>>) -> (r: Result<Vec<EffectId>, IdentifierError>)
    ensures
        ({
            let names = match effects {
                Some(names) => contents(names@),
                None => Seq::<Seq<char>>::empty(),
            };
            match r {
                Ok(ids) => {
                    &&& first_bad_effect(names, names.len() as int) is None
                    &&& ascend(contents(ids@))
                    &&& forall|text: Seq<char>|
                        #![trigger contents(ids@).contains(text)]
                        contents(ids@).contains(text) <==> names.contains(text)
                },
                Err(error) => first_bad_effect(names, names.len() as int) == Some(error.value())
                    && error.kind() == "Effect",
            }
        }),
{
    let mut out: Vec<EffectId> = Vec::new();
    assert(contents(out@) =~= Seq::<Seq<char>>::empty());
    let names: &Vec<String> = match effects {
        Some(names) => names,
        None => {
            return Ok(out);
        },
    };
    let ghost all = contents(names@);
    let mut i: usize = 0;
    while i < names.len()
        invariant
            i <= names@.len(),
            all == contents(names@),
            first_bad_effect(all, i as int) is None,
            ascend(contents(out@)),
            forall|text: Seq<char>|
                #![trigger contents(out@).contains(text)]
                contents(out@).contains(text) <==> all.take(i as int).contains(text),
            *effects == Some(*names),
        decreases names@.len() - i,
    {
        assert(all[i as int] == names@[i as int]@);
        match EffectId::new(names[i].as_str()) {
            Ok(effect) => {
                let ghost before = contents(out@);
                insert_name(&mut out, effect);
                proof {
                    let now = contents(out@);
                    let more = all.take(i + 1);
                    assert(more =~= all.take(i as int).push(all[i as int]));
                    assert forall|text: Seq<char>|
                        #![trigger now.contains(text)]
                        now.contains(text) <==> more.contains(text) by {
                        assert(now.contains(text) <==> before.contains(text) || all[i as int]
                            == text);
                        assert(before.contains(text) <==> all.take(i as int).contains(text));
                        if all.take(i as int).contains(text) {
                            let k = choose|k: int| 0 <= k < i && all.take(i as int)[k] == text;
                            assert(more[k] == text);
                        }
                        if all[i as int] == text {
                            assert(more[i as int] == text);
                        }
                        if more.contains(text) {
                            let k = choose|k: int| 0 <= k < i + 1 && more[k] == text;
                            if k < i {
                                assert(all.take(i as int)[k] == text);
                            }
                        }
                    }
                }
            },
            Err(error) => {
                proof {
                    lemma_bad_effect(all, i + 1, all.len() as int);
                }
                return Err(error);
            },
        }
        i += 1;
    }
    assert(all.take(i as int) =~= all);
    Ok(out)
}

/// Inputs that need a permission of their own.
#[derive(Clone, Copy, Debug, Eq, PartialEq, Structural)]
pub enum SensitiveInput {
    ScreenCapture,
}

/// The first of the first `n` names that is not that of a sensitive input.
pub open spec fn first_bad_input(names: Seq<Seq<char>>, n: int) -> Option<Seq<char>>
    decreases n,
{
    if n <= 0 {
        None
    } else {
        match first_bad_input(names, n - 1) {
            Some(name) => Some(name),
            None => if names[n - 1] == "screen_capture"@ {
                None
            } else {
                Some(names[n - 1])
            },
        }
    }
}

proof fn lemma_bad_input(names: Seq<Seq<char>>, n: int, m: int)
    requires
        0 <= n <= m,
        first_bad_input(names, n) is Some,
    ensures
        first_bad_input(names, m) == first_bad_input(names, n),
    decreases m,
{
    if n < m {
        lemma_bad_input(names, n, m - 1);
    }
}

/// The sensitive inputs with those names, each once.
pub fn parse_sensitive_inputs(inputs: &Option<Vec<String>>) -> (r: Result<
    Vec<SensitiveInput>,
    String,
>)
    ensures
        ({
            let names = match inputs {
                Some(names) => contents(names@),
                None => Seq::<Seq<char>>::empty(),
            };
            match first_bad_input(names, names.len() as int) {
                Some(name) => r is Err && r->Err_0@ == "unknown sensitive input `"@ + name + "`"@,
                None => r is Ok && r->Ok_0@ == if names.len() == 0 {
                    Seq::<SensitiveInput>::empty()
                } else {
                    seq![SensitiveInput::ScreenCapture]
                },
            }
        }),
{
    let mut out: Vec<SensitiveInput> = Vec::new();
    let names: &Vec<String> = match inputs {
        Some(names) => names,
        None => {
            return Ok(out);
        },
    };
    let ghost all = contents(names@);
    let mut i: usize = 0;
    while i < names.len()
        invariant
            i <= names@.len(),
            all == contents(names@),
            first_bad_input(all, i as int) is None,
            *inputs == Some(*names),
        decreases names@.len() - i,
    {
        assert(all[i as int] == names@[i as int]@);
        if !same_text(names[i].as_str(), "screen_capture") {
            proof {
                lemma_bad_input(all, i + 1, all.len() as int);
            }
            return Err(
                "unknown sensitive input `".to_owned().concat(names[i].as_str()).concat("`"),
            );
        }
        i += 1;
    }
    if names.len() > 0 {
        out.push(SensitiveInput::ScreenCapture);
        assert(out@ =~= seq![SensitiveInput::ScreenCapture]);
    }
    Ok(out)
}

/// How long a permission lasts.
#[derive(Clone, Copy, Debug, Eq, PartialEq, Structural)]
pub enum PermissionDuration {
    OneTurn,
    Session,
}

/// What a permission is asked for with.
#[derive(Clone, Debug)]
pub struct RequestArgs {
    pub tools: Vec<String>,
    pub reason: String,
    pub max_operation_kind: Option<OperationKind>,
    pub state_effects: Option<Vec<String>>,
    pub sensitive_inputs: Option<Vec<String>>,
    pub scope: Option<Json>,
    pub duration: Option<PermissionDuration>,
    pub requester_ref: Option<String>,
}

/// A request that is to be stored as pending.
#[derive(Clone, Debug)]
pub struct PermissionRequestDraft {
    pub requested_tools: Vec<ToolId>,
    pub max_operation_kind: OperationKind,
    pub state_effects: Vec<EffectId>,
    pub sensitive_inputs: Vec<SensitiveInput>,
    pub scope: Json,
    pub duration: PermissionDuration,
    pub reason: String,
    pub requester_ref: String,
}

fn empty_scope() -> (r: Json)
    ensures
        json_abs(r) == JsonAbs::Object(Seq::empty()),
{
    broadcast use json_abs_cases;

    Json::Object(JsonMap::new())
}

/// The scope of a permission; without one it is empty.
pub open spec fn scope_of(scope: Option<Json>) -> JsonAbs {
    match scope {
        Some(scope) => json_abs(scope),
        None => JsonAbs::Object(Seq::empty()),
    }
}

/// The kind of operation that a permission goes up to: writing, unless another
/// is asked for.
pub open spec fn kind_of(kind: Option<OperationKind>) -> OperationKind {
    match kind {
        Some(kind) => kind,
        None => OperationKind::Write,
    }
}

/// How long a permission lasts: one turn, unless more is asked for.
pub open spec fn duration_of(duration: Option<PermissionDuration>) -> PermissionDuration {
    match duration {
        Some(duration) => duration,
        None => PermissionDuration::OneTurn,
    }
}

pub open spec fn text_or(text: Option<String>, other: Seq<char>) -> Seq<char> {
    match text {
        Some(text) => text@,
        None => other,
    }
}

fn name_or(text: &Option<String>, other: &str) -> (r: String)
    ensures
        r@ == text_or(*text, other@),
{
    match text {
        Some(text) => text.clone(),
        None => other.to_owned(),
    }
}

/// Whether a list of names gives these effects.
pub open spec fn are_effects(names: Option<Vec<String>>, effects: Seq<EffectId>) -> bool {
    let all = match names {
        Some(names) => contents(names@),
        None => Seq::<Seq<char>>::empty(),
    };
    &&& ascend(contents(effects))
    &&& forall|text: Seq<char>|
        #![trigger contents(effects).contains(text)]
        contents(effects).contains(text) <==> all.contains(text)
}

/// The names of a list that may be missing.
pub open spec fn names_of(names: Option<Vec<String>>) -> Seq<Seq<char>> {
    match names {
        Some(names) => contents(names@),
        None => Seq::empty(),
    }
}

/// Why a request cannot be made.
#[derive(Debug)]
pub enum RequestError {
    Tools(String),
    Effect(IdentifierError),
    Input(String),
}

/// The request that is to be stored as pending.
pub fn request(args: &RequestArgs) -> (r: Result<PermissionRequestDraft, RequestError>)
    ensures
        ({
            let tools = contents(args.tools@);
            let requested = requested_tools(tools, tools.len() as int);
            let effects = names_of(args.state_effects);
            let inputs = names_of(args.sensitive_inputs);
            if tools.len() == 0 {
                r matches Err(RequestError::Tools(error)) && error@
                    == "core.permission:request tools cannot be empty"@
            } else if requested is Err {
                r matches Err(RequestError::Tools(error)) && error@ == requested->Err_0
            } else if first_bad_effect(effects, effects.len() as int) is Some {
                r matches Err(RequestError::Effect(error)) && first_bad_effect(
                    effects,
                    effects.len() as int,
                ) == Some(error.value())
            } else if first_bad_input(inputs, inputs.len() as int) is Some {
                r matches Err(RequestError::Input(error)) && error@
                    == "unknown sensitive input `"@ + first_bad_input(
                    inputs,
                    inputs.len() as int,
                )->Some_0 + "`"@
            } else {
                r matches Ok(draft) && {
                    &&& contents(draft.requested_tools@) == requested->Ok_0
                    &&& draft.max_operation_kind == kind_of(args.max_operation_kind)
                    &&& are_effects(args.state_effects, draft.state_effects@)
                    &&& draft.sensitive_inputs@ == if inputs.len() == 0 {
                        Seq::<SensitiveInput>::empty()
                    } else {
                        seq![SensitiveInput::ScreenCapture]
                    }
                    &&& json_abs(draft.scope) == scope_of(args.scope)
                    &&& draft.duration == duration_of(args.duration)
                    &&& draft.reason@ == args.reason@
                    &&& draft.requester_ref@ == text_or(
                        args.requester_ref,
                        "tool:core.permission:request"@,
                    )
                }
            }
        }),
{
    let requested_tools: Vec<ToolId> = match validate_requested_tools(&args.tools) {
        Ok(tools) => tools,
        Err(error) => {
            return Err(RequestError::Tools(error));
        },
    };
    let state_effects: Vec<EffectId> = match parse_effects(&args.state_effects) {
        Ok(effects) => effects,
        Err(error) => {
            return Err(RequestError::Effect(error));
        },
    };
    let sensitive_inputs: Vec<SensitiveInput> = match parse_sensitive_inputs(
        &args.sensitive_inputs,
    ) {
        Ok(inputs) => inputs,
        Err(error) => {
            return Err(RequestError::Input(error));
        },
    };
    let scope: Json = match &args.scope {
        Some(scope) => scope.clone(),
        None => empty_scope(),
    };
    Ok(
        PermissionRequestDraft {
            requested_tools,
            max_operation_kind: match args.max_operation_kind {
                Some(kind) => kind,
                None => OperationKind::Write,
            },
            state_effects,
            sensitive_inputs,
            scope,
            duration: match args.duration {
                Some(duration) => duration,
                None => PermissionDuration::OneTurn,
            },
            reason: args.reason.clone(),
            requester_ref: name_or(&args.requester_ref, "tool:core.permission:request"),
        },
    )
}

// ---------------------------------------------------------------------------
// Grants
// ---------------------------------------------------------------------------

/// What a permission is granted with: a pending request, or a tool.
#[derive(Clone, Debug)]
pub enum GrantArgs {
    Request {
        request_id: String,
        granted_by_ref: Option<String>,
        resolution_ref: Option<String>,
    },
    Direct {
        tool_id: String,
        max_operation_kind: Option<OperationKind>,
        state_effects: Option<Vec<String>>,
        sensitive_inputs: Option<Vec<String>>,
        scope: Option<Json>,
        duration: Option<PermissionDuration>,
        granted_by_ref: Option<String>,
    },
}

/// A grant of one tool that is to be stored.
#[derive(Clone, Debug)]
pub struct PermissionGrantDraft {
    pub tool_id: ToolId,
    pub max_operation_kind: OperationKind,
    pub state_effects: Vec<EffectId>,
    pub sensitive_inputs: Vec<SensitiveInput>,
    pub scope: Json,
    pub duration: PermissionDuration,
    pub granted_by_ref: String,
}

/// What is to be stored for a grant.
#[derive(Clone, Debug)]
pub enum GrantPlan {
    Request { request_id: String, granted_by_ref: String, resolution_ref: Option<String> },
    Direct(PermissionGrantDraft),
}

/// What is to be stored for a grant.
pub fn grant(args: &GrantArgs) -> (r: Result<GrantPlan, RequestError>)
    ensures
        match *args {
            GrantArgs::Request { request_id, granted_by_ref, resolution_ref } => r matches Ok(
                GrantPlan::Request {
                    request_id: id,
                    granted_by_ref: by,
                    resolution_ref: resolution,
                },
            ) && id@ == request_id@ && by@ == text_or(
                granted_by_ref,
                "tool:core.permission:grant"@,
            ) && resolution.abs() == resolution_ref.abs(),
            GrantArgs::Direct {
                tool_id,
                max_operation_kind,
                state_effects,
                sensitive_inputs,
                scope,
                duration,
                granted_by_ref,
            } => {
                let requested = requested_tools(seq![tool_id@], 1);
                let effects = names_of(state_effects);
                let inputs = names_of(sensitive_inputs);
                if requested is Err {
                    r matches Err(RequestError::Tools(error)) && error@ == requested->Err_0
                } else if first_bad_effect(effects, effects.len() as int) is Some {
                    r matches Err(RequestError::Effect(error)) && first_bad_effect(
                        effects,
                        effects.len() as int,
                    ) == Some(error.value())
                } else if first_bad_input(inputs, inputs.len() as int) is Some {
                    r matches Err(RequestError::Input(error)) && error@
                        == "unknown sensitive input `"@ + first_bad_input(
                        inputs,
                        inputs.len() as int,
                    )->Some_0 + "`"@
                } else {
                    r matches Ok(GrantPlan::Direct(draft)) && {
                        &&& draft.tool_id@ == tool_id@
                        &&& draft.max_operation_kind == kind_of(max_operation_kind)
                        &&& are_effects(state_effects, draft.state_effects@)
                        &&& draft.sensitive_inputs@ == if inputs.len() == 0 {
                            Seq::<SensitiveInput>::empty()
                        } else {
                            seq![SensitiveInput::ScreenCapture]
                        }
                        &&& json_abs(draft.scope) == scope_of(scope)
                        &&& draft.duration == duration_of(duration)
                        &&& draft.granted_by_ref@ == text_or(
                            granted_by_ref,
                            "tool:core.permission:grant"@,
                        )
                    }
                }
            },
        },
{
    match args {
        GrantArgs::Request { request_id, granted_by_ref, resolution_ref } => Ok(
            GrantPlan::Request {
                request_id: request_id.clone(),
                granted_by_ref: name_or(granted_by_ref, "tool:core.permission:grant"),
                resolution_ref: resolution_ref.duplicate(),
            },
        ),
        GrantArgs::Direct {
            tool_id,
            max_operation_kind,
            state_effects,
            sensitive_inputs,
            scope,
            duration,
            granted_by_ref,
        } => {
            let wanted: Vec<String> = vec![tool_id.clone()];
            assert(contents(wanted@) =~= seq![tool_id@]);
            let mut tools: Vec<ToolId> = match validate_requested_tools(&wanted) {
                Ok(tools) => tools,
                Err(error) => {
                    return Err(RequestError::Tools(error));
                },
            };
            proof {
                assert(requested_tools(seq![tool_id@], 0) == Ok::<Seq<Seq<char>>, Seq<char>>(
                    Seq::empty(),
                ));
                assert(contents(tools@) == seq![tool_id@]) by {
                    assert(Seq::<Seq<char>>::empty().push(tool_id@) =~= seq![tool_id@]);
                }
                assert(contents(tools@)[0] == tools@[0]@);
            }
            let effects: Vec<EffectId> = match parse_effects(state_effects) {
                Ok(effects) => effects,
                Err(error) => {
                    return Err(RequestError::Effect(error));
                },
            };
            let inputs: Vec<SensitiveInput> = match parse_sensitive_inputs(sensitive_inputs) {
                Ok(inputs) => inputs,
                Err(error) => {
                    return Err(RequestError::Input(error));
                },
            };
            let draft: PermissionGrantDraft = PermissionGrantDraft {
                tool_id: tools.swap_remove(0),
                max_operation_kind: match max_operation_kind {
                    Some(kind) => *kind,
                    None => OperationKind::Write,
                },
                state_effects: effects,
                sensitive_inputs: inputs,
                scope: match scope {
                    Some(scope) => scope.clone(),
                    None => empty_scope(),
                },
                duration: match duration {
                    Some(duration) => *duration,
                    None => PermissionDuration::OneTurn,
                },
                granted_by_ref: name_or(granted_by_ref, "tool:core.permission:grant"),
            };
            Ok(GrantPlan::Direct(draft))
        },
    }
}

// ---------------------------------------------------------------------------
// Status
// ---------------------------------------------------------------------------

/// A stored request or grant, as it is told.
#[derive(Clone, Debug)]
pub struct PermissionRecord {
    pub id: String,
    pub tools: Vec<String>,
    pub max_operation_kind: OperationKind,
    pub state_effects: Vec<String>,
    pub sensitive_inputs: Vec<SensitiveInput>,
    pub duration: PermissionDuration,
    pub state: String,
}

/// What is told of the permissions of a caller.
#[derive(Clone, Debug)]
pub struct PermissionStatus {
    pub runtime: PermissionRuntimeStatus,
    pub pending_request_count: usize,
    pub active_grant_count: usize,
    pub default_duration: PermissionDuration,
    pub supported_durations: Vec<PermissionDuration>,
    pub elevated_effect_warnings: Vec<(&'static str, &'static str)>,
    pub pending_requests: Vec<PermissionRecord>,
    pub active_grants: Vec<PermissionRecord>,
}

/// The effects that reach beyond a workspace, and what they allow.
pub open spec fn effect_warnings() -> Seq<(&'static str, &'static str)> {
    seq![
        ("host_process_execution", "unrestricted daemon-user filesystem and network access"),
        ("shell_login_startup", "execution of user-controlled shell startup files"),
    ]
}

/// What is told of the permissions of a caller, from what is stored.
pub fn status(
    runtime: PermissionRuntimeStatus,
    pending: Vec<PermissionRecord>,
    active: Vec<PermissionRecord>,
) -> (r: PermissionStatus)
    ensures
        r.runtime == runtime,
        r.pending_requests == pending,
        r.active_grants == active,
        r.pending_request_count == pending@.len(),
        r.active_grant_count == active@.len(),
        r.default_duration == duration_of(None),
        r.supported_durations@ == seq![PermissionDuration::OneTurn, PermissionDuration::Session],
        r.elevated_effect_warnings@ == effect_warnings(),
{
    let supported: Vec<PermissionDuration> = vec![
        PermissionDuration::OneTurn,
        PermissionDuration::Session,
    ];
    assert(supported@ =~= seq![PermissionDuration::OneTurn, PermissionDuration::Session]);
    let warnings: Vec<(&'static str, &'static str)> = vec![
        ("host_process_execution", "unrestricted daemon-user filesystem and network access"),
        ("shell_login_startup", "execution of user-controlled shell startup files"),
    ];
    assert(warnings@ =~= effect_warnings());
    PermissionStatus {
        runtime,
        pending_request_count: pending.len(),
        active_grant_count: active.len(),
        default_duration: PermissionDuration::OneTurn,
        supported_durations: supported,
        elevated_effect_warnings: warnings,
        pending_requests: pending,
        active_grants: active,
    }
}

/// What the extension declares.
pub open spec fn declared() -> ExtensionAbs {
    ExtensionAbs {
        id: "core.permission",
        name: "Permission Tools",
        version: None,
        tools: seq![
            ToolAbs {
                id: "core.permission:status",
                description: "Show pending permission requests and active grants.",
                operation_kind: OperationKind::Read,
                errors: Seq::<ToolErrorDeclaration>::empty(),
                state_effects: Seq::<Effect>::empty(),
                conditional_state_effects: Seq::<Effect>::empty(),
            },
            ToolAbs {
                id: "core.permission:request",
                description: "Create a pending permission request for exact tool IDs; this does not grant access.",
                operation_kind: OperationKind::Request,
                errors: Seq::<ToolErrorDeclaration>::empty(),
                state_effects: seq![Effect::StorePermissionRequests],
                conditional_state_effects: Seq::<Effect>::empty(),
            },
            ToolAbs {
                id: "core.permission:grant",
                description: "Grant an existing permission request or an exact tool ID.",
                operation_kind: OperationKind::Approve,
                errors: Seq::<ToolErrorDeclaration>::empty(),
                state_effects: seq![Effect::StorePermissionGrants, Effect::StorePermissionRequests],
                conditional_state_effects: Seq::<Effect>::empty(),
            },
            ToolAbs {
                id: "core.permission:revoke",
                description: "Revoke an active permission grant.",
                operation_kind: OperationKind::Approve,
                errors: Seq::<ToolErrorDeclaration>::empty(),
                state_effects: seq![Effect::StorePermissionGrants],
                conditional_state_effects: Seq::<Effect>::empty(),
            },
        ],
        effects: seq![Effect::StorePermissionRequests, Effect::StorePermissionGrants],
        hooks: Seq::<HookDeclaration>::empty(),
    }
}

/// The declaration of the extension.
pub fn declaration() -> (r: ExtensionDescriptor)
    ensures
        r@ == declared(),
{
    let tools: Vec<ToolDeclaration> = vec![
            ToolDeclaration {
                id: "core.permission:status",
                description: "Show pending permission requests and active grants.",
                operation_kind: OperationKind::Read,
                errors: Vec::new(),
                state_effects: Vec::new(),
                conditional_state_effects: Vec::new(),
            },
            ToolDeclaration {
                id: "core.permission:request",
                description: "Create a pending permission request for exact tool IDs; this does not grant access.",
                operation_kind: OperationKind::Request,
                errors: Vec::new(),
                state_effects: vec![Effect::StorePermissionRequests],
                conditional_state_effects: Vec::new(),
            },
            ToolDeclaration {
                id: "core.permission:grant",
                description: "Grant an existing permission request or an exact tool ID.",
                operation_kind: OperationKind::Approve,
                errors: Vec::new(),
                state_effects: vec![Effect::StorePermissionGrants, Effect::StorePermissionRequests],
                conditional_state_effects: Vec::new(),
            },
            ToolDeclaration {
                id: "core.permission:revoke",
                description: "Revoke an active permission grant.",
                operation_kind: OperationKind::Approve,
                errors: Vec::new(),
                state_effects: vec![Effect::StorePermissionGrants],
                conditional_state_effects: Vec::new(),
            },
        ];
    let effects: Vec<Effect> = vec![Effect::StorePermissionRequests, Effect::StorePermissionGrants];
    let hooks: Vec<HookDeclaration> = Vec::new();
    let descriptor: ExtensionDescriptor = ExtensionDescriptor {
        id: "core.permission",
        name: "Permission Tools",
        version: None,
        tools,
        effects,
        hooks,
    };
    proof {
        lemma_declared(descriptor, declared());
    }
    descriptor
}

} // verus!
