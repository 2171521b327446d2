//! Declarations of extensions: their tools, what those do and how they fail.

use vstd::prelude::*;

use crate::text::same_text;

verus! {

/// What kind of operation a tool performs.
#[derive(Clone, Copy, Debug, Eq, PartialEq, Structural)]
pub enum OperationKind {
    Read,
    Request,
    Write,
    Execute,
    Approve,
    Admin,
}

/// A state that a tool changes.
#[derive(Clone, Copy, Debug, Eq, PartialEq, Structural)]
pub enum Effect {
    RepoFiles,
    RepoWorkspace,
    RepoGitlink,
    ArtifactRepository,
    SessionWorkingDirectory,
    SpawnProcess,
    ControlProcess,
    HostProcessExecution,
    ShellLoginStartup,
    MatrixOutbox,
    StoreSchema,
    StorePermissionRequests,
    StorePermissionGrants,
}

/// Whether a caller can go on after an error.
#[derive(Clone, Copy, Debug, Eq, PartialEq, Structural)]
pub enum ToolErrorClass {
    Recoverable,
    Terminal,
}

/// An error that a tool may report.
#[derive(Clone, Copy, Debug, Eq, PartialEq)]
pub struct ToolErrorDeclaration {
    pub code: &'static str,
    pub class: ToolErrorClass,
}

/// An error after which a caller can go on.
#[verifier::when_used_as_spec(recoverable_spec)]
pub fn recoverable(code: &'static str) -> (r: ToolErrorDeclaration)
    ensures
        r == recoverable(code),
{
    ToolErrorDeclaration { code, class: ToolErrorClass::Recoverable }
}

pub open spec fn recoverable_spec(code: &'static str) -> ToolErrorDeclaration {
    ToolErrorDeclaration { code, class: ToolErrorClass::Recoverable }
}

/// An error after which a caller cannot go on.
#[verifier::when_used_as_spec(terminal_spec)]
pub fn terminal(code: &'static str) -> (r: ToolErrorDeclaration)
    ensures
        r == terminal(code),
{
    ToolErrorDeclaration { code, class: ToolErrorClass::Terminal }
}

pub open spec fn terminal_spec(code: &'static str) -> ToolErrorDeclaration {
    ToolErrorDeclaration { code, class: ToolErrorClass::Terminal }
}

/// A tool of an extension.
#[derive(Clone, Debug)]
pub struct ToolDeclaration {
    pub id: &'static str,
    pub description: &'static str,
    pub operation_kind: OperationKind,
    pub errors: Vec<ToolErrorDeclaration>,
    pub state_effects: Vec<Effect>,
    pub conditional_state_effects: Vec<Effect>,
}

/// The content of a tool declaration.
pub struct ToolAbs {
    pub id: &'static str,
    pub description: &'static str,
    pub operation_kind: OperationKind,
    pub errors: Seq<ToolErrorDeclaration>,
    pub state_effects: Seq<Effect>,
    pub conditional_state_effects: Seq<Effect>,
}

impl ToolDeclaration {
    pub open spec fn view(&self) -> ToolAbs {
        ToolAbs {
            id: self.id,
            description: self.description,
            operation_kind: self.operation_kind,
            errors: self.errors@,
            state_effects: self.state_effects@,
            conditional_state_effects: self.conditional_state_effects@,
        }
    }
}

/// When a hook runs.
#[derive(Clone, Copy, Debug, Eq, PartialEq, Structural)]
pub enum HookEvent {
    ModelResponse,
    ArtifactWrite,
}

/// A hook of an extension.
#[derive(Clone, Copy, Debug, Eq, PartialEq)]
pub struct HookDeclaration {
    pub id: &'static str,
    pub event: HookEvent,
}

/// An extension as it is declared. Without a version of its own it has that of
/// the package.
#[derive(Clone, Debug)]
pub struct ExtensionDescriptor {
    pub id: &'static str,
    pub name: &'static str,
    pub version: Option<&'static str>,
    pub tools: Vec<ToolDeclaration>,
    pub effects: Vec<Effect>,
    pub hooks: Vec<HookDeclaration>,
}

/// The content of a declared extension.
pub struct ExtensionAbs {
    pub id: &'static str,
    pub name: &'static str,
    pub version: Option<&'static str>,
    pub tools: Seq<ToolAbs>,
    pub effects: Seq<Effect>,
    pub hooks: Seq<HookDeclaration>,
}

impl ExtensionDescriptor {
    pub open spec fn view(&self) -> ExtensionAbs {
        ExtensionAbs {
            id: self.id,
            name: self.name,
            version: self.version,
            tools: Seq::new(self.tools@.len(), |i: int| self.tools@[i]@),
            effects: self.effects@,
            hooks: self.hooks@,
        }
    }
}

/// Whether a tool declares what it is told to.
pub open spec fn tells(tool: ToolDeclaration, expected: ToolAbs) -> bool {
    &&& tool.id == expected.id
    &&& tool.description == expected.description
    &&& tool.operation_kind == expected.operation_kind
    &&& tool.errors@ =~= expected.errors
    &&& tool.state_effects@ =~= expected.state_effects
    &&& tool.conditional_state_effects@ =~= expected.conditional_state_effects
}

/// A declaration whose parts are as told is as told.
pub(crate) proof fn lemma_declared(descriptor: ExtensionDescriptor, expected: ExtensionAbs)
    requires
        descriptor.id == expected.id,
        descriptor.name == expected.name,
        descriptor.version == expected.version,
        descriptor.tools@.len() == expected.tools.len(),
        forall|i: int|
            0 <= i < expected.tools.len() ==> tells(
                #[trigger] descriptor.tools@[i],
                expected.tools[i],
            ),
        descriptor.effects@ =~= expected.effects,
        descriptor.hooks@ =~= expected.hooks,
    ensures
        descriptor@ == expected,
{
    assert forall|i: int| 0 <= i < expected.tools.len() implies descriptor@.tools[i]
        == expected.tools[i] by {
        assert(tells(descriptor.tools@[i], expected.tools[i]));
    }
    assert(descriptor@.tools =~= expected.tools);
}

// ---------------------------------------------------------------------------
// The observation workflow
// ---------------------------------------------------------------------------

/// An outcome of a tool that is appended to the observations of a run.
#[derive(Clone, Debug, Eq, PartialEq)]
pub struct ToolWorkflowMapping {
    pub tool_id: &'static str,
    pub code: String,
}

pub struct MappingAbs {
    pub tool_id: &'static str,
    pub code: Seq<char>,
}

impl ToolWorkflowMapping {
    pub open spec fn view(&self) -> MappingAbs {
        MappingAbs { tool_id: self.tool_id, code: self.code@ }
    }
}

pub open spec fn mappings_abs(mappings: Seq<ToolWorkflowMapping>) -> Seq<MappingAbs> {
    Seq::new(mappings.len(), |i: int| mappings[i]@)
}

/// The recoverable ones of the first `n` errors of a tool.
pub open spec fn recoverable_mappings(
    tool_id: &'static str,
    errors: Seq<ToolErrorDeclaration>,
    n: int,
) -> Seq<MappingAbs>
    decreases n,
{
    if n <= 0 {
        Seq::empty()
    } else {
        let before = recoverable_mappings(tool_id, errors, n - 1);
        if errors[n - 1].class == ToolErrorClass::Recoverable {
            before.push(MappingAbs { tool_id, code: errors[n - 1].code@ })
        } else {
            before
        }
    }
}

/// What is observed of a tool: its outcomes, and the errors after which a
/// caller can go on.
pub open spec fn tool_mappings(tool: ToolAbs, outcomes: Seq<Seq<char>>) -> Seq<MappingAbs> {
    Seq::new(outcomes.len(), |i: int| MappingAbs { tool_id: tool.id, code: outcomes[i] })
        + recoverable_mappings(tool.id, tool.errors, tool.errors.len() as int)
}

/// What is observed of the first `n` tools.
pub open spec fn all_mappings(
    tools: Seq<ToolAbs>,
    outcomes: spec_fn(int) -> Seq<Seq<char>>,
    n: int,
) -> Seq<MappingAbs>
    decreases n,
{
    if n <= 0 {
        Seq::empty()
    } else {
        all_mappings(tools, outcomes, n - 1) + tool_mappings(tools[n - 1], outcomes(n - 1))
    }
}

/// The outcomes of each tool, where a missing row is empty.
pub open spec fn outcome_rows(outcomes: Seq<Vec<String>>) -> spec_fn(int) -> Seq<Seq<char>> {
    |i: int|
        if 0 <= i < outcomes.len() {
            crate::value::contents(outcomes[i]@)
        } else {
            Seq::empty()
        }
}

/// Appends what is observed of a tool.
fn push_mappings(out: &mut Vec<ToolWorkflowMapping>, tool: &ToolDeclaration, outcomes: &Vec<String>)
    ensures
        mappings_abs(final(out)@) == mappings_abs(old(out)@) + tool_mappings(
            tool@,
            crate::value::contents(outcomes@),
        ),
{
    let ghost start = mappings_abs(out@);
    let ghost codes = crate::value::contents(outcomes@);
    let ghost successes = Seq::new(
        codes.len(),
        |i: int| MappingAbs { tool_id: tool.id, code: codes[i] },
    );
    let mut i: usize = 0;
    assert(mappings_abs(out@) =~= start + successes.take(0));
    while i < outcomes.len()
        invariant
            i <= outcomes@.len(),
            codes == crate::value::contents(outcomes@),
            successes == Seq::new(
                codes.len(),
                |i: int| MappingAbs { tool_id: tool.id, code: codes[i] },
            ),
            mappings_abs(out@) == start + successes.take(i as int),
        decreases outcomes@.len() - i,
    {
        let ghost before = mappings_abs(out@);
        out.push(ToolWorkflowMapping { tool_id: tool.id, code: outcomes[i].clone() });
        assert(mappings_abs(out@) =~= before.push(successes[i as int]));
        i += 1;
        assert(mappings_abs(out@) =~= start + successes.take(i as int));
    }
    assert(successes.take(i as int) =~= successes);
    let ghost middle = mappings_abs(out@);
    let mut k: usize = 0;
    assert(mappings_abs(out@) =~= middle + recoverable_mappings(tool.id, tool.errors@, 0));
    while k < tool.errors.len()
        invariant
            k <= tool.errors@.len(),
            mappings_abs(out@) == middle + recoverable_mappings(tool.id, tool.errors@, k as int),
        decreases tool.errors@.len() - k,
    {
        let error: ToolErrorDeclaration = tool.errors[k];
        let ghost before = mappings_abs(out@);
        if error.class == ToolErrorClass::Recoverable {
            out.push(ToolWorkflowMapping { tool_id: tool.id, code: error.code.to_owned() });
            assert(mappings_abs(out@) =~= before.push(
                MappingAbs { tool_id: tool.id, code: error.code@ },
            ));
        }
        k += 1;
        assert(mappings_abs(out@) =~= middle + recoverable_mappings(
            tool.id,
            tool.errors@,
            k as int,
        ));
    }
    assert(mappings_abs(out@) =~= start + tool_mappings(tool@, codes));
}

/// What a run observes of the tools of an extension. `outcomes` holds the
/// codes of the successful outcomes of each tool.
pub fn observation_workflow(descriptor: &ExtensionDescriptor, outcomes: &Vec<Vec<String>>) -> (r: Vec<
    ToolWorkflowMapping,
>)
    ensures
        mappings_abs(r@) == all_mappings(
            descriptor@.tools,
            outcome_rows(outcomes@),
            descriptor@.tools.len() as int,
        ),
{
    let ghost tools = descriptor@.tools;
    let ghost rows = outcome_rows(outcomes@);
    let empty: Vec<String> = Vec::new();
    let mut out: Vec<ToolWorkflowMapping> = Vec::new();
    let mut i: usize = 0;
    assert(mappings_abs(out@) =~= Seq::<MappingAbs>::empty());
    assert(crate::value::contents(empty@) =~= Seq::<Seq<char>>::empty());
    while i < descriptor.tools.len()
        invariant
            i <= descriptor.tools@.len(),
            tools == descriptor@.tools,
            rows == outcome_rows(outcomes@),
            crate::value::contents(empty@) == Seq::<Seq<char>>::empty(),
            mappings_abs(out@) == all_mappings(tools, rows, i as int),
        decreases descriptor.tools@.len() - i,
    {
        let codes: &Vec<String> = if i < outcomes.len() {
            &outcomes[i]
        } else {
            &empty
        };
        assert(crate::value::contents(codes@) == rows(i as int));
        assert(tools[i as int] == descriptor.tools@[i as int]@);
        push_mappings(&mut out, &descriptor.tools[i], codes);
        i += 1;
    }
    out
}

// ---------------------------------------------------------------------------
// Catalogs
// ---------------------------------------------------------------------------

/// Why an extension is not taken into a catalog.
#[derive(Clone, Debug, Eq, PartialEq)]
pub enum ToolCatalogError {
    DuplicateExtension { id: &'static str },
}

/// The extensions that are known, each under its own ID.
#[derive(Clone, Debug)]
pub struct ToolCatalog {
    pub extensions: Vec<ExtensionDescriptor>,
}

impl ToolCatalog {
    pub open spec fn view(&self) -> Seq<ExtensionAbs> {
        Seq::new(self.extensions@.len(), |i: int| self.extensions@[i]@)
    }

    /// Whether an extension has that ID.
    pub open spec fn has(&self, id: Seq<char>) -> bool {
        exists|i: int| 0 <= i < self@.len() && (#[trigger] self@[i]).id@ == id
    }

    pub fn new() -> (r: ToolCatalog)
        ensures
            r@.len() == 0,
    {
        ToolCatalog { extensions: Vec::new() }
    }

    /// Takes an extension into the catalog.
    pub fn register(&mut self, descriptor: ExtensionDescriptor) -> (r: Result<(), ToolCatalogError>)
        ensures
            match r {
                Ok(_) => !old(self).has(descriptor.id@) && final(self)@ == old(self)@.push(
                    descriptor@,
                ),
                Err(error) => old(self).has(descriptor.id@) && final(self)@ == old(self)@ && error
                    == (ToolCatalogError::DuplicateExtension { id: descriptor.id }),
            },
    {
        let mut i: usize = 0;
        while i < self.extensions.len()
            invariant
                i <= self.extensions@.len(),
                *self == *old(self),
                forall|k: int| 0 <= k < i ==> (#[trigger] self@[k]).id@ != descriptor.id@,
            decreases self.extensions@.len() - i,
        {
            assert(self@[i as int] == self.extensions@[i as int]@);
            if same_text(self.extensions[i].id, descriptor.id) {
                assert(self@[i as int].id@ == descriptor.id@);
                return Err(ToolCatalogError::DuplicateExtension { id: descriptor.id });
            }
            i += 1;
        }
        let ghost before = self@;
        self.extensions.push(descriptor);
        assert(self@ =~= before.push(descriptor@));
        Ok(())
    }

    /// The declaration of a tool.
    pub fn tool(&self, id: &str) -> (r: Option<&ToolDeclaration>)
        ensures
            match r {
                Some(tool) => tool.id@ == id@ && exists|i: int, k: int|
                    0 <= i < self@.len() && 0 <= k < self@[i].tools.len()
                        && #[trigger] self@[i].tools[k] == tool@,
                None => forall|i: int, k: int|
                    0 <= i < self@.len() && 0 <= k < self@[i].tools.len() ==> (
                    #[trigger] self@[i].tools[k]).id@ != id@,
            },
    {
        let mut i: usize = 0;
        while i < self.extensions.len()
            invariant
                i <= self.extensions@.len(),
                forall|a: int, k: int|
                    0 <= a < i && 0 <= k < self@[a].tools.len() ==> (
                    #[trigger] self@[a].tools[k]).id@ != id@,
            decreases self.extensions@.len() - i,
        {
            let tools: &Vec<ToolDeclaration> = &self.extensions[i].tools;
            assert(self@[i as int] == self.extensions@[i as int]@);
            let mut k: usize = 0;
            while k < tools.len()
                invariant
                    i < self.extensions@.len(),
                    k <= tools@.len(),
                    self@[i as int] == self.extensions@[i as int]@,
                    tools == &self.extensions@[i as int].tools,
                    forall|b: int|
                        0 <= b < k ==> (#[trigger] self@[i as int].tools[b]).id@ != id@,
                decreases tools@.len() - k,
            {
                assert(self@[i as int].tools[k as int] == tools@[k as int]@);
                if same_text(tools[k].id, id) {
                    return Some(&tools[k]);
                }
                k += 1;
            }
            i += 1;
        }
        None
    }
}

} // verus!
