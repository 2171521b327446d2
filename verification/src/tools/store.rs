//! Administration of the store.

use vstd::prelude::*;
use vstd::string::*;
use vstd::utf8::*;

use super::descriptor::{
    lemma_declared, Effect, ExtensionAbs, ExtensionDescriptor, HookDeclaration, OperationKind,
    ToolAbs, ToolDeclaration, ToolErrorDeclaration,
};
use crate::json::{from_value, json_abs, json_in, read_value, Json, JsonAbs};
use crate::text::{byte_len, bytes_in, lines, lines_of, read_utf8, same_text};
use crate::value::{contents, Abstract};

verus! {

pub const EXTENSION_ID: &'static str = "core.store";

pub const STORE_STATUS_TOOL_ID: &'static str = "core.store:status";

pub const STORE_EXPORT_TOOL_ID: &'static str = "core.store:export";

pub const STORE_MIGRATE_TOOL_ID: &'static str = "core.store:migrate";

/// The bytes that are exported unless another number is asked for.
pub const DEFAULT_EXPORT_MAX_BYTES: usize = 16 * 1024;

/// The most bytes that are exported at once.
pub const MAX_EXPORT_BYTES: usize = 128 * 1024;

/// A domain of the store.
#[derive(Clone, Copy, Debug, Eq, PartialEq, Structural)]
pub enum StoreAdminDomain {
    Memory,
    Notes,
    Cron,
    Permissions,
}

impl StoreAdminDomain {
    pub open spec fn name(self) -> &'static str {
        match self {
            StoreAdminDomain::Memory => "memory",
            StoreAdminDomain::Notes => "notes",
            StoreAdminDomain::Cron => "cron",
            StoreAdminDomain::Permissions => "permissions",
        }
    }

    pub fn as_str(self) -> (r: &'static str)
        ensures
            r == self.name(),
    {
        match self {
            StoreAdminDomain::Memory => "memory",
            StoreAdminDomain::Notes => "notes",
            StoreAdminDomain::Cron => "cron",
            StoreAdminDomain::Permissions => "permissions",
        }
    }
}

/// No two domains have the same name.
pub proof fn domain_names_are_distinct(left: StoreAdminDomain, right: StoreAdminDomain)
    requires
        left.name()@ == right.name()@,
    ensures
        left == right,
{
    reveal_strlit("memory");
    reveal_strlit("notes");
    reveal_strlit("cron");
    reveal_strlit("permissions");
    assert("memory"@.len() == 6 && "notes"@.len() == 5 && "cron"@.len() == 4
        && "permissions"@.len() == 11);
}

/// The schema of the store.
#[derive(Clone, Debug, Eq, PartialEq)]
pub struct StoreSchemaSnapshot {
    pub database_path: String,
    pub database_exists: bool,
    pub schema_version: Option<u32>,
    pub current_schema_version: u32,
    pub applied_migrations: Vec<u32>,
    pub migration_required: bool,
}

/// The rows of a domain.
#[derive(Clone, Debug, Eq, PartialEq)]
pub struct StoreDomainSnapshot {
    pub name: String,
    pub status: String,
    pub total_rows: u64,
    pub active_rows: u64,
}

/// The health of the store.
#[derive(Clone, Debug, Eq, PartialEq)]
pub struct StoreStatusSnapshot {
    pub idempotency_in_progress: u64,
    pub stale_idempotency_count: usize,
    pub domains: Vec<StoreDomainSnapshot>,
}

/// An export: one JSON record on each line.
#[derive(Clone, Debug, Eq, PartialEq)]
pub struct StoreExportSnapshot {
    pub record_count: usize,
    pub bytes: Vec<u8>,
}

/// A migration that was applied.
#[derive(Clone, Debug, Eq, PartialEq)]
pub struct StoreAppliedMigrationSnapshot {
    pub version: u32,
    pub name: String,
}

/// What a migration did.
#[derive(Clone, Debug, Eq, PartialEq)]
pub struct StoreMigrationSnapshot {
    pub database_path: String,
    pub before_schema_version: u32,
    pub after_schema_version: u32,
    pub applied_migrations: Vec<StoreAppliedMigrationSnapshot>,
}

/// The administration of a store. Nothing is promised of what it answers.
pub trait StoreAdminPort: Sized + Send + Sync {
    fn schema_status(&self) -> Result<StoreSchemaSnapshot, String>;

    fn status(&self) -> Result<StoreStatusSnapshot, String>;

    fn export_jsonl(
        &self,
        domain: StoreAdminDomain,
        include_deleted: bool,
    ) -> Result<StoreExportSnapshot, String>;

    fn migrate(&self) -> Result<StoreMigrationSnapshot, String>;
}

// ---------------------------------------------------------------------------
// Dispatch
// ---------------------------------------------------------------------------

/// The tools of the extension.
#[derive(Clone, Copy, Debug, Eq, PartialEq, Structural)]
pub enum StoreTool {
    Status,
    Export,
    Migrate,
}

/// The tool with that ID.
pub open spec fn store_tool(name: Seq<char>) -> Option<StoreTool> {
    if name == "core.store:status"@ {
        Some(StoreTool::Status)
    } else if name == "core.store:export"@ {
        Some(StoreTool::Export)
    } else if name == "core.store:migrate"@ {
        Some(StoreTool::Migrate)
    } else {
        None
    }
}

/// The tool that a call is for.
pub fn dispatch(name: &str) -> (r: Result<StoreTool, String>)
    ensures
        match r {
            Ok(tool) => store_tool(name@) == Some(tool),
            Err(error) => store_tool(name@) is None && error@ == "unknown store tool `"@ + name@
                + "`"@,
        },
{
    if same_text(name, "core.store:status") {
        Ok(StoreTool::Status)
    } else if same_text(name, "core.store:export") {
        Ok(StoreTool::Export)
    } else if same_text(name, "core.store:migrate") {
        Ok(StoreTool::Migrate)
    } else {
        Err("unknown store tool `".to_owned().concat(name).concat("`"))
    }
}

// ---------------------------------------------------------------------------
// Exports
// ---------------------------------------------------------------------------

/// How many bytes are exported at most.
pub open spec fn export_limit(requested: Option<usize>) -> int {
    let wanted = match requested {
        Some(wanted) => wanted,
        None => DEFAULT_EXPORT_MAX_BYTES,
    };
    if wanted < MAX_EXPORT_BYTES {
        wanted as int
    } else {
        MAX_EXPORT_BYTES as int
    }
}

/// The bytes of the first `n` lines, each with its line feed.
pub open spec fn line_bytes(lines: Seq<Seq<char>>, n: int) -> int
    decreases n,
{
    if n <= 0 {
        0
    } else {
        line_bytes(lines, n - 1) + byte_len(lines[n - 1]) + 1
    }
}

/// How many lines are exported from the line `from` on: all up to the first
/// that would go over the limit.
pub open spec fn lines_within(lines: Seq<Seq<char>>, limit: int, from: int) -> int
    decreases lines.len() - from,
{
    if from >= lines.len() || line_bytes(lines, from + 1) > limit {
        from
    } else {
        lines_within(lines, limit, from + 1)
    }
}

/// The records of the first `n` lines, where each of them is JSON.
pub open spec fn records_in(lines: Seq<Seq<char>>, n: int) -> Option<Seq<JsonAbs>>
    decreases n,
{
    if n <= 0 {
        Some(Seq::empty())
    } else {
        match (records_in(lines, n - 1), json_in(lines[n - 1])) {
            (Some(records), Some(record)) => Some(records.push(record)),
            _ => None,
        }
    }
}

/// Exported records.
#[derive(Debug)]
pub struct StoreExport {
    pub domain: StoreAdminDomain,
    pub record_count: usize,
    pub truncated: bool,
    pub bytes: usize,
    pub records: Vec<Json>,
}

pub open spec fn records_abs(records: Seq<Json>) -> Seq<JsonAbs> {
    Seq::new(records.len(), |i: int| json_abs(records[i]))
}

proof fn lemma_no_records(lines: Seq<Seq<char>>, n: int, m: int)
    requires
        0 <= n <= m,
        records_in(lines, n) is None,
    ensures
        records_in(lines, m) is None,
    decreases m,
{
    if n < m {
        lemma_no_records(lines, n, m - 1);
    }
}

proof fn lemma_lines_within(lines: Seq<Seq<char>>, limit: int, from: int)
    requires
        0 <= from <= lines.len(),
    ensures
        from <= lines_within(lines, limit, from) <= lines.len(),
        lines_within(lines, limit, from) > from ==> line_bytes(
            lines,
            lines_within(lines, limit, from),
        ) <= limit,
    decreases lines.len() - from,
{
    if from < lines.len() && line_bytes(lines, from + 1) <= limit {
        lemma_lines_within(lines, limit, from + 1);
    }
}

/// Whether that is told of an export: the records of the lines that fit, or
/// why they cannot be read.
pub open spec fn told_of_export(
    domain: StoreAdminDomain,
    max_bytes: Option<usize>,
    export: StoreExportSnapshot,
    r: Result<StoreExport, &'static str>,
) -> bool {
    let limit = export_limit(max_bytes);
    if !valid_utf8(export.bytes@) {
        r == Err::<StoreExport, &'static str>("store export was not valid UTF-8")
    } else {
        let lines = lines_of(decode_utf8(export.bytes@));
        let count = lines_within(lines, limit, 0);
        match records_in(lines, count) {
            None => r == Err::<StoreExport, &'static str>(
                "store export contained an invalid JSONL record",
            ),
            Some(records) => r matches Ok(told) && {
                &&& told.domain == domain
                &&& told.record_count == export.record_count
                &&& records_abs(told.records@) == records
                &&& told.bytes == line_bytes(lines, count)
                &&& told.truncated == (count < export.record_count)
            },
        }
    }
}

/// The records of an export, up to a number of bytes.
pub fn bounded_export(
    domain: StoreAdminDomain,
    max_bytes: Option<usize>,
    export: &StoreExportSnapshot,
) -> (r: Result<StoreExport, &'static str>)
    ensures
        told_of_export(domain, max_bytes, *export, r),
{
    let wanted: usize = match max_bytes {
        Some(wanted) => wanted,
        None => DEFAULT_EXPORT_MAX_BYTES,
    };
    let limit: usize = if wanted < MAX_EXPORT_BYTES {
        wanted
    } else {
        MAX_EXPORT_BYTES
    };
    let body: String = match read_utf8(export.bytes.as_slice()) {
        Some(body) => body,
        None => {
            return Err("store export was not valid UTF-8");
        },
    };
    let all: Vec<String> = lines(body.as_str());
    let ghost view = lines_of(body@);
    let ghost count = lines_within(view, limit as int, 0);
    let mut records: Vec<Json> = Vec::new();
    let mut bytes: usize = 0;
    let mut i: usize = 0;
    let mut fits: bool = true;
    proof {
        lemma_lines_within(view, limit as int, 0);
    }
    assert(records_abs(records@) =~= Seq::<JsonAbs>::empty());
    while fits && i < all.len()
        invariant
            i <= all@.len(),
            contents(all@) == view,
            limit <= MAX_EXPORT_BYTES,
            count == lines_within(view, limit as int, 0),
            fits ==> count == lines_within(view, limit as int, i as int),
            !fits ==> count == i,
            i <= count <= view.len(),
            bytes == line_bytes(view, i as int),
            bytes <= limit,
            records_in(view, i as int) == Some(records_abs(records@)),
            view == lines_of(decode_utf8(export.bytes@)),
            valid_utf8(export.bytes@),
            limit == export_limit(max_bytes),
        ensures
            i == count,
        decreases all@.len() - i, (if fits { 1int } else { 0int }),
    {
        assert(view[i as int] == all@[i as int]@);
        let size: usize = bytes_in(all[i].as_str());
        if size >= limit - bytes {
            fits = false;
        } else {
            proof {
                lemma_lines_within(view, limit as int, i as int + 1);
            }
            let record: Json = match read_value(all[i].as_str()) {
                Some(value) => from_value(&value),
                None => {
                    proof {
                        lemma_no_records(view, i + 1, count);
                    }
                    return Err("store export contained an invalid JSONL record");
                },
            };
            let ghost before = records_abs(records@);
            records.push(record);
            assert(records_abs(records@) =~= before.push(json_abs(record)));
            bytes += size + 1;
            i += 1;
        }
    }
    proof {
        lemma_record_count(view, count);
        assert(records_abs(records@).len() == records@.len());
    }
    let truncated: bool = records.len() < export.record_count;
    Ok(StoreExport { domain, record_count: export.record_count, truncated, bytes, records })
}

/// An export never goes over its limit.
pub proof fn exports_are_bounded(lines: Seq<Seq<char>>, requested: Option<usize>)
    ensures
        ({
            let limit = export_limit(requested);
            &&& limit <= MAX_EXPORT_BYTES
            &&& line_bytes(lines, lines_within(lines, limit, 0)) <= limit
        }),
{
    lemma_lines_within(lines, export_limit(requested), 0);
}

// ---------------------------------------------------------------------------
// Tools
// ---------------------------------------------------------------------------

/// What is told of the store.
#[derive(Debug)]
pub struct StoreStatusReport {
    pub schema: StoreSchemaSnapshot,
    /// The health of the store, unless a migration is required first.
    pub health: Option<StoreStatusSnapshot>,
}

/// Whether deleted records are exported: only on request.
pub open spec fn with_deleted(requested: Option<bool>) -> bool {
    requested == Some(true)
}

/// Whether the health of a store with that schema is asked for.
pub open spec fn is_looked_into(schema: Result<StoreSchemaSnapshot, String>) -> bool {
    schema matches Ok(schema) && !schema.migration_required
}

/// What is told of a store whose administration gave these answers.
pub open spec fn told_of_store(
    schema: Result<StoreSchemaSnapshot, String>,
    health: Result<StoreStatusSnapshot, String>,
) -> Result<StoreStatusReport, String> {
    match schema {
        Err(error) => Err(error),
        Ok(schema) => if schema.migration_required {
            Ok(StoreStatusReport { schema, health: None })
        } else {
            match health {
                Ok(health) => Ok(StoreStatusReport { schema, health: Some(health) }),
                Err(error) => Err(error),
            }
        },
    }
}

/// The administration tools over a store.
#[derive(Clone)]
pub struct StoreTools<P: StoreAdminPort> {
    administration: P,
}

impl<P: StoreAdminPort> StoreTools<P> {
    pub closed spec fn administration(&self) -> P {
        self.administration
    }

    pub fn new(administration: P) -> (r: StoreTools<P>)
        ensures
            r.administration() == administration,
    {
        StoreTools { administration }
    }

    /// The schema of the store and, unless a migration is required, its
    /// health. A store that is to be migrated is not looked into.
    pub fn status(&self) -> (r: Result<StoreStatusReport, String>)
        ensures
            exists|
                schema: Result<StoreSchemaSnapshot, String>,
                health: Result<StoreStatusSnapshot, String>,
            |
                {
                    &&& call_ensures(P::schema_status, (&self.administration(),), schema)
                    &&& is_looked_into(schema) ==> call_ensures(
                        P::status,
                        (&self.administration(),),
                        health,
                    )
                    &&& r == #[trigger] told_of_store(schema, health)
                },
    {
        let answer: Result<StoreSchemaSnapshot, String> = self.administration.schema_status();
        let ghost told = answer;
        let schema: StoreSchemaSnapshot = match answer {
            Ok(schema) => schema,
            Err(error) => {
                proof {
                    let unasked = Err::<StoreStatusSnapshot, String>(error);
                    assert(told_of_store(told, unasked) == Err::<StoreStatusReport, String>(error));
                }
                return Err(error);
            },
        };
        if schema.migration_required {
            let report: StoreStatusReport = StoreStatusReport { schema, health: None };
            proof {
                let unasked = Err::<StoreStatusSnapshot, String>(schema.database_path);
                assert(told_of_store(told, unasked) == Ok::<StoreStatusReport, String>(report));
            }
            return Ok(report);
        }
        let health: Result<StoreStatusSnapshot, String> = self.administration.status();
        let ghost asked = health;
        let report: Result<StoreStatusReport, String> = match health {
            Ok(health) => Ok(StoreStatusReport { schema, health: Some(health) }),
            Err(error) => Err(error),
        };
        assert(told_of_store(told, asked) == report);
        report
    }

    /// The records of a domain, up to a number of bytes.
    pub fn export(
        &self,
        domain: StoreAdminDomain,
        include_deleted: Option<bool>,
        max_bytes: Option<usize>,
    ) -> (r: Result<StoreExport, String>)
        ensures
            exists|answer: Result<StoreExportSnapshot, String>|
                {
                    &&& #[trigger] call_ensures(
                        P::export_jsonl,
                        (&self.administration(), domain, with_deleted(include_deleted)),
                        answer,
                    )
                    &&& match answer {
                        Err(error) => r == Err::<StoreExport, String>(error),
                        Ok(export) => match r {
                            Ok(told) => told_of_export(domain, max_bytes, export, Ok(told)),
                            Err(error) => exists|reason: &'static str|
                                #[trigger] told_of_export(domain, max_bytes, export, Err(reason))
                                    && error@ == reason@,
                        },
                    }
                },
            r matches Ok(told) ==> told.bytes <= export_limit(max_bytes) && told.truncated == (
            told.records@.len() < told.record_count),
    {
        let deleted: bool = match include_deleted {
            Some(deleted) => deleted,
            None => false,
        };
        let answer: Result<StoreExportSnapshot, String> = self.administration.export_jsonl(
            domain,
            deleted,
        );
        let ghost asked = answer;
        assert(call_ensures(
            P::export_jsonl,
            (&self.administration(), domain, with_deleted(include_deleted)),
            asked,
        ));
        let export: StoreExportSnapshot = match answer {
            Ok(export) => export,
            Err(error) => {
                return Err(error);
            },
        };
        match bounded_export(domain, max_bytes, &export) {
            Ok(told) => {
                proof {
                    let lines = lines_of(decode_utf8(export.bytes@));
                    let count = lines_within(lines, export_limit(max_bytes), 0);
                    exports_are_bounded(lines, max_bytes);
                    lemma_lines_within(lines, export_limit(max_bytes), 0);
                    lemma_record_count(lines, count);
                    assert(records_abs(told.records@).len() == told.records@.len());
                }
                Ok(told)
            },
            Err(error) => {
                assert(told_of_export(domain, max_bytes, export, Err(error)));
                Err(error.to_owned())
            },
        }
    }

    /// Migrates the store. What the administration answers is told as it is.
    pub fn migrate(&self) -> (r: Result<StoreMigrationSnapshot, String>)
        ensures
            call_ensures(P::migrate, (&self.administration(),), r),
    {
        self.administration.migrate()
    }
}

proof fn lemma_record_count(lines: Seq<Seq<char>>, n: int)
    requires
        0 <= n,
        records_in(lines, n) is Some,
    ensures
        records_in(lines, n)->Some_0.len() == n,
    decreases n,
{
    if n > 0 {
        lemma_record_count(lines, n - 1);
    }
}

/// What the extension declares.
pub open spec fn declared() -> ExtensionAbs {
    ExtensionAbs {
        id: "core.store",
        name: "Store Tools",
        version: None,
        tools: seq![
            ToolAbs {
                id: "core.store:status",
                description: "Inspect store schema, domain health, and idempotency health.",
                operation_kind: OperationKind::Read,
                errors: Seq::<ToolErrorDeclaration>::empty(),
                state_effects: Seq::<Effect>::empty(),
                conditional_state_effects: Seq::<Effect>::empty(),
            },
            ToolAbs {
                id: "core.store:export",
                description: "Export one known store domain as bounded structured records.",
                operation_kind: OperationKind::Read,
                errors: Seq::<ToolErrorDeclaration>::empty(),
                state_effects: Seq::<Effect>::empty(),
                conditional_state_effects: Seq::<Effect>::empty(),
            },
            ToolAbs {
                id: "core.store:migrate",
                description: "Run agentLIBRE store migrations through an explicit admin boundary.",
                operation_kind: OperationKind::Admin,
                errors: Seq::<ToolErrorDeclaration>::empty(),
                state_effects: seq![Effect::StoreSchema],
                conditional_state_effects: Seq::<Effect>::empty(),
            },
        ],
        effects: seq![Effect::StoreSchema],
        hooks: Seq::<HookDeclaration>::empty(),
    }
}

/// The declaration of the extension.
pub fn declaration() -> (r: ExtensionDescriptor)
    ensures
        r@ == declared(),
{
    let tools: Vec<ToolDeclaration> = vec![
            ToolDeclaration {
                id: "core.store:status",
                description: "Inspect store schema, domain health, and idempotency health.",
                operation_kind: OperationKind::Read,
                errors: Vec::new(),
                state_effects: Vec::new(),
                conditional_state_effects: Vec::new(),
            },
            ToolDeclaration {
                id: "core.store:export",
                description: "Export one known store domain as bounded structured records.",
                operation_kind: OperationKind::Read,
                errors: Vec::new(),
                state_effects: Vec::new(),
                conditional_state_effects: Vec::new(),
            },
            ToolDeclaration {
                id: "core.store:migrate",
                description: "Run agentLIBRE store migrations through an explicit admin boundary.",
                operation_kind: OperationKind::Admin,
                errors: Vec::new(),
                state_effects: vec![Effect::StoreSchema],
                conditional_state_effects: Vec::new(),
            },
        ];
    let effects: Vec<Effect> = vec![Effect::StoreSchema];
    let hooks: Vec<HookDeclaration> = Vec::new();
    let descriptor: ExtensionDescriptor = ExtensionDescriptor {
        id: "core.store",
        name: "Store Tools",
        version: None,
        tools,
        effects,
        hooks,
    };
    proof {
        lemma_declared(descriptor, declared());
    }
    descriptor
}

} // verus!
