//! Memory entry and `INDEX.md` codec.
//!
//! Pure string-level parsing, rendering and in-memory mutation of the semantic
//! memory format:
//!
//! - one `memory/entries/<slug>.md` per topic, one claim per bullet line;
//! - `INDEX.md` is a projection regenerated from entries, header included in
//!   the 40-line hard cap;
//! - append-only updates: new claims are appended, `updated` is bumped, exact
//!   text is deduplicated per topic, and supersession tags the old claim with
//!   `[superseded-by: <slug>#claim-<n>]` pointing at the new claim's ordinal
//!   without rewriting its text, including cross-topic references;
//! - new entry titles are derived from the slug (`build-release` ->
//!   `Build release`); the index uses the same title and claim count.
//!
//! This module performs no filesystem I/O. Newly applied claims carry file
//! paths without digests (`FileSource::digest = None`) until the writer stamps
//! `@sha256-12`; existing entries preserve whatever `file:` sources they
//! contain, including file-only claims.

use vstd::prelude::*;
use vstd::string::*;

use super::memory::{
    is_slug, is_supersession, is_valid_slug, is_valid_supersession_ref, MemoryClaimRejection,
};
use crate::correlation_id::{identified, identity_text, AgentRunId, MessageId};
use crate::ids::{quoted, quoted_text};
use crate::text::{
    all_chars, chars_of, contains_char, cut, decimal, decimal_text, ends, ends_with, hex_digit,
    is_blank, is_hex, last_position, lines, lines_of, pieces, pieces_extended, rcut, rfind,
    rfind_from_meaning, rsplit_once, same_text, split, split_once, strip_prefix, text_of, trim,
    trim_end, trimmed, trimmed_end, trimmed_end_facts, trimmed_facts, without_prefix,
    without_return,
};
use crate::value::{contents, contents_push, result_abs, Abstract};

verus! {

/// Hard cap for `INDEX.md`, counting the two header lines.
pub const INDEX_MAX_LINES: usize = 40;

/// The two `INDEX.md` header lines, always present.
pub const INDEX_HEADER: &'static str =
    "# Memory Index\n<!-- hard budget: ≤ 40 lines total. One line per entry. Regenerate, never hand-edit semantics. -->\n";

/// Claim `status:` value. Supersession is not a status.
#[derive(Clone, Copy, Debug, Eq, PartialEq, Structural)]
pub enum ClaimStatus {
    Active,
    Stale,
}

impl Abstract for ClaimStatus {
    type Abs = ClaimStatus;

    open spec fn abs(&self) -> ClaimStatus {
        *self
    }

    fn duplicate(&self) -> ClaimStatus {
        *self
    }

    fn same(&self, other: &ClaimStatus) -> bool {
        *self == *other
    }
}

/// A `file:` source: workspace-relative path plus optional `sha256-12` digest
/// prefix (first 12 hex characters of the file's `fs_read` digest).
#[derive(Clone, Debug, Eq, PartialEq)]
pub struct FileSource {
    pub path: String,
    pub digest: Option<String>,
}

/// The content of `FileSource`.
pub struct FileSourceAbs {
    pub path: Seq<char>,
    pub digest: Option<Seq<char>>,
}

impl Abstract for FileSource {
    type Abs = FileSourceAbs;

    open spec fn abs(&self) -> FileSourceAbs {
        FileSourceAbs {
            path: self.path.abs(),
            digest: self.digest.abs(),
        }
    }

    fn duplicate(&self) -> FileSource {
        FileSource {
            path: self.path.duplicate(),
            digest: self.digest.duplicate(),
        }
    }

    fn same(&self, other: &FileSource) -> bool {
        self.path.same(&other.path) && self.digest.same(&other.digest)
    }
}

/// One stored claim bullet. Wording is preserved exactly; claim ordinals are
/// 1-based positions in `MemoryEntry::claims` (`<slug>#claim-<n>`).
#[derive(Clone, Debug, Eq, PartialEq)]
pub struct StoredClaim {
    pub text: String,
    /// `src:` message IDs; empty for file-only claims.
    pub sources: Vec<MessageId>,
    /// `file:` sources; `digest` is `None` for paths not yet stamped.
    pub files: Vec<FileSource>,
    /// `status:` tag; absent unless the file carries it explicitly.
    pub status: Option<ClaimStatus>,
    /// `superseded-by:` tag pointing at the replacement claim.
    pub superseded_by: Option<String>,
}

/// The content of `StoredClaim`.
pub struct StoredClaimAbs {
    pub text: Seq<char>,
    pub sources: Seq<Seq<char>>,
    pub files: Seq<FileSourceAbs>,
    pub status: Option<ClaimStatus>,
    pub superseded_by: Option<Seq<char>>,
}

impl Abstract for StoredClaim {
    type Abs = StoredClaimAbs;

    open spec fn abs(&self) -> StoredClaimAbs {
        StoredClaimAbs {
            text: self.text.abs(),
            sources: self.sources.abs(),
            files: self.files.abs(),
            status: self.status.abs(),
            superseded_by: self.superseded_by.abs(),
        }
    }

    fn duplicate(&self) -> StoredClaim {
        StoredClaim {
            text: self.text.duplicate(),
            sources: self.sources.duplicate(),
            files: self.files.duplicate(),
            status: self.status.duplicate(),
            superseded_by: self.superseded_by.duplicate(),
        }
    }

    fn same(&self, other: &StoredClaim) -> bool {
        self.text.same(&other.text) && self.sources.same(&other.sources)
            && self.files.same(&other.files) && self.status.same(&other.status)
            && self.superseded_by.same(&other.superseded_by)
    }
}

/// One parsed `memory/entries/<slug>.md` file: the canonical claim store.
#[derive(Clone, Debug, Eq, PartialEq)]
pub struct MemoryEntry {
    pub title: String,
    pub slug: String,
    pub created: AgentRunId,
    pub updated: AgentRunId,
    pub artifact: Option<String>,
    pub claims: Vec<StoredClaim>,
}

/// The content of `MemoryEntry`.
pub struct MemoryEntryAbs {
    pub title: Seq<char>,
    pub slug: Seq<char>,
    pub created: Seq<u8>,
    pub updated: Seq<u8>,
    pub artifact: Option<Seq<char>>,
    pub claims: Seq<StoredClaimAbs>,
}

impl Abstract for MemoryEntry {
    type Abs = MemoryEntryAbs;

    open spec fn abs(&self) -> MemoryEntryAbs {
        MemoryEntryAbs {
            title: self.title.abs(),
            slug: self.slug.abs(),
            created: self.created.abs(),
            updated: self.updated.abs(),
            artifact: self.artifact.abs(),
            claims: self.claims.abs(),
        }
    }

    fn duplicate(&self) -> MemoryEntry {
        MemoryEntry {
            title: self.title.duplicate(),
            slug: self.slug.duplicate(),
            created: self.created.duplicate(),
            updated: self.updated.duplicate(),
            artifact: self.artifact.duplicate(),
            claims: self.claims.duplicate(),
        }
    }

    fn same(&self, other: &MemoryEntry) -> bool {
        self.title.same(&other.title) && self.slug.same(&other.slug)
            && self.created.same(&other.created) && self.updated.same(&other.updated)
            && self.artifact.same(&other.artifact) && self.claims.same(&other.claims)
    }
}

/// Outcome of applying one accepted claim.
#[derive(Clone, Copy, Debug, Eq, PartialEq, Structural)]
pub enum ClaimApplyOutcome {
    /// The claim was appended; `ordinal` is its 1-based position.
    Appended { ordinal: usize },
    /// Exact-text duplicate already stored; not rewritten, no rejection.
    Duplicate { ordinal: usize },
    /// The claim was not written; `reason` feeds the rejection recorder.
    Rejected { reason: MemoryClaimRejection },
}

impl Abstract for ClaimApplyOutcome {
    type Abs = ClaimApplyOutcome;

    open spec fn abs(&self) -> ClaimApplyOutcome {
        *self
    }

    fn duplicate(&self) -> ClaimApplyOutcome {
        *self
    }

    fn same(&self, other: &ClaimApplyOutcome) -> bool {
        *self == *other
    }
}

/// Why a text is no entry.
#[derive(Clone, Debug, Eq, PartialEq)]
pub enum EntryParseError {
    MissingTitle,
    EmptyTitle,
    DuplicateHeaderLine(usize),
    MissingClaimsSection,
    UnknownField { line: usize, field: String },
    MissingField { field: String },
    InvalidSlug(String),
    InvalidRun { field: String, value: String },
    UnknownStatus { line: usize, value: String },
    InvalidMessageSource { line: usize, value: String },
    InvalidFileSource { line: usize, value: String },
    InvalidSupersededBy { line: usize, value: String },
    DuplicateTag { line: usize, tag: &'static str },
    MalformedClaimLine { line: usize },
    UnsourcefulClaim { line: usize },
    UnexpectedLine { line: usize, text: String },
}

/// The content of `EntryParseError`.
pub enum EntryParseErrorAbs {
    MissingTitle,
    EmptyTitle,
    DuplicateHeaderLine(usize),
    MissingClaimsSection,
    UnknownField { line: usize, field: Seq<char> },
    MissingField { field: Seq<char> },
    InvalidSlug(Seq<char>),
    InvalidRun { field: Seq<char>, value: Seq<char> },
    UnknownStatus { line: usize, value: Seq<char> },
    InvalidMessageSource { line: usize, value: Seq<char> },
    InvalidFileSource { line: usize, value: Seq<char> },
    InvalidSupersededBy { line: usize, value: Seq<char> },
    DuplicateTag { line: usize, tag: Seq<char> },
    MalformedClaimLine { line: usize },
    UnsourcefulClaim { line: usize },
    UnexpectedLine { line: usize, text: Seq<char> },
}

impl Abstract for EntryParseError {
    type Abs = EntryParseErrorAbs;

    open spec fn abs(&self) -> EntryParseErrorAbs {
        match self {
            EntryParseError::MissingTitle => EntryParseErrorAbs::MissingTitle,
            EntryParseError::EmptyTitle => EntryParseErrorAbs::EmptyTitle,
            EntryParseError::DuplicateHeaderLine(x) => EntryParseErrorAbs::DuplicateHeaderLine(
                x.abs(),
            ),
            EntryParseError::MissingClaimsSection => EntryParseErrorAbs::MissingClaimsSection,
            EntryParseError::UnknownField { line, field } => EntryParseErrorAbs::UnknownField {
                line: line.abs(),
                field: field.abs(),
            },
            EntryParseError::MissingField { field } => EntryParseErrorAbs::MissingField {
                field: field.abs(),
            },
            EntryParseError::InvalidSlug(x) => EntryParseErrorAbs::InvalidSlug(x.abs()),
            EntryParseError::InvalidRun { field, value } => EntryParseErrorAbs::InvalidRun {
                field: field.abs(),
                value: value.abs(),
            },
            EntryParseError::UnknownStatus { line, value } => EntryParseErrorAbs::UnknownStatus {
                line: line.abs(),
                value: value.abs(),
            },
            EntryParseError::InvalidMessageSource { line, value } => {
                EntryParseErrorAbs::InvalidMessageSource { line: line.abs(), value: value.abs() }
            },
            EntryParseError::InvalidFileSource { line, value } => {
                EntryParseErrorAbs::InvalidFileSource { line: line.abs(), value: value.abs() }
            },
            EntryParseError::InvalidSupersededBy { line, value } => {
                EntryParseErrorAbs::InvalidSupersededBy { line: line.abs(), value: value.abs() }
            },
            EntryParseError::DuplicateTag { line, tag } => EntryParseErrorAbs::DuplicateTag {
                line: line.abs(),
                tag: tag.abs(),
            },
            EntryParseError::MalformedClaimLine { line } => EntryParseErrorAbs::MalformedClaimLine {
                line: line.abs(),
            },
            EntryParseError::UnsourcefulClaim { line } => EntryParseErrorAbs::UnsourcefulClaim {
                line: line.abs(),
            },
            EntryParseError::UnexpectedLine { line, text } => EntryParseErrorAbs::UnexpectedLine {
                line: line.abs(),
                text: text.abs(),
            },
        }
    }

    fn duplicate(&self) -> EntryParseError {
        match self {
            EntryParseError::MissingTitle => EntryParseError::MissingTitle,
            EntryParseError::EmptyTitle => EntryParseError::EmptyTitle,
            EntryParseError::DuplicateHeaderLine(x) => EntryParseError::DuplicateHeaderLine(
                x.duplicate(),
            ),
            EntryParseError::MissingClaimsSection => EntryParseError::MissingClaimsSection,
            EntryParseError::UnknownField { line, field } => EntryParseError::UnknownField {
                line: line.duplicate(),
                field: field.duplicate(),
            },
            EntryParseError::MissingField { field } => EntryParseError::MissingField {
                field: field.duplicate(),
            },
            EntryParseError::InvalidSlug(x) => EntryParseError::InvalidSlug(x.duplicate()),
            EntryParseError::InvalidRun { field, value } => EntryParseError::InvalidRun {
                field: field.duplicate(),
                value: value.duplicate(),
            },
            EntryParseError::UnknownStatus { line, value } => EntryParseError::UnknownStatus {
                line: line.duplicate(),
                value: value.duplicate(),
            },
            EntryParseError::InvalidMessageSource { line, value } => {
                EntryParseError::InvalidMessageSource {
                    line: line.duplicate(),
                    value: value.duplicate(),
                }
            },
            EntryParseError::InvalidFileSource { line, value } => {
                EntryParseError::InvalidFileSource {
                    line: line.duplicate(),
                    value: value.duplicate(),
                }
            },
            EntryParseError::InvalidSupersededBy { line, value } => {
                EntryParseError::InvalidSupersededBy {
                    line: line.duplicate(),
                    value: value.duplicate(),
                }
            },
            EntryParseError::DuplicateTag { line, tag } => EntryParseError::DuplicateTag {
                line: line.duplicate(),
                tag: tag.duplicate(),
            },
            EntryParseError::MalformedClaimLine { line } => EntryParseError::MalformedClaimLine {
                line: line.duplicate(),
            },
            EntryParseError::UnsourcefulClaim { line } => EntryParseError::UnsourcefulClaim {
                line: line.duplicate(),
            },
            EntryParseError::UnexpectedLine { line, text } => EntryParseError::UnexpectedLine {
                line: line.duplicate(),
                text: text.duplicate(),
            },
        }
    }

    fn same(&self, other: &EntryParseError) -> bool {
        match (self, other) {
            (EntryParseError::MissingTitle, EntryParseError::MissingTitle) => true,
            (EntryParseError::EmptyTitle, EntryParseError::EmptyTitle) => true,
            (
                EntryParseError::DuplicateHeaderLine(x),
                EntryParseError::DuplicateHeaderLine(y),
            ) => x.same(y),
            (EntryParseError::MissingClaimsSection, EntryParseError::MissingClaimsSection) => true,
            (
                EntryParseError::UnknownField { line, field },
                EntryParseError::UnknownField { line: line2, field: field2 },
            ) => {
                line.same(line2) && field.same(field2)
            },
            (
                EntryParseError::MissingField { field },
                EntryParseError::MissingField { field: field2 },
            ) => field.same(field2),
            (EntryParseError::InvalidSlug(x), EntryParseError::InvalidSlug(y)) => x.same(y),
            (
                EntryParseError::InvalidRun { field, value },
                EntryParseError::InvalidRun { field: field2, value: value2 },
            ) => {
                field.same(field2) && value.same(value2)
            },
            (
                EntryParseError::UnknownStatus { line, value },
                EntryParseError::UnknownStatus { line: line2, value: value2 },
            ) => {
                line.same(line2) && value.same(value2)
            },
            (
                EntryParseError::InvalidMessageSource { line, value },
                EntryParseError::InvalidMessageSource { line: line2, value: value2 },
            ) => {
                line.same(line2) && value.same(value2)
            },
            (
                EntryParseError::InvalidFileSource { line, value },
                EntryParseError::InvalidFileSource { line: line2, value: value2 },
            ) => {
                line.same(line2) && value.same(value2)
            },
            (
                EntryParseError::InvalidSupersededBy { line, value },
                EntryParseError::InvalidSupersededBy { line: line2, value: value2 },
            ) => {
                line.same(line2) && value.same(value2)
            },
            (
                EntryParseError::DuplicateTag { line, tag },
                EntryParseError::DuplicateTag { line: line2, tag: tag2 },
            ) => {
                line.same(line2) && tag.same(tag2)
            },
            (
                EntryParseError::MalformedClaimLine { line },
                EntryParseError::MalformedClaimLine { line: line2 },
            ) => line.same(line2),
            (
                EntryParseError::UnsourcefulClaim { line },
                EntryParseError::UnsourcefulClaim { line: line2 },
            ) => line.same(line2),
            (
                EntryParseError::UnexpectedLine { line, text },
                EntryParseError::UnexpectedLine { line: line2, text: text2 },
            ) => {
                line.same(line2) && text.same(text2)
            },
            _ => false,
        }
    }
}

/// Corpus-level parse failure: one bad entry file fails the whole corpus.
#[derive(Clone, Debug, Eq, PartialEq)]
pub struct CorpusParseError {
    pub path: String,
    pub source: EntryParseError,
}

/// The content of `CorpusParseError`.
pub struct CorpusParseErrorAbs {
    pub path: Seq<char>,
    pub source: EntryParseErrorAbs,
}

impl Abstract for CorpusParseError {
    type Abs = CorpusParseErrorAbs;

    open spec fn abs(&self) -> CorpusParseErrorAbs {
        CorpusParseErrorAbs {
            path: self.path.abs(),
            source: self.source.abs(),
        }
    }

    fn duplicate(&self) -> CorpusParseError {
        CorpusParseError {
            path: self.path.duplicate(),
            source: self.source.duplicate(),
        }
    }

    fn same(&self, other: &CorpusParseError) -> bool {
        self.path.same(&other.path) && self.source.same(&other.source)
    }
}

/// One parsed `INDEX.md` body line: slug, entry title, claim count and entry
/// path exactly as `MemoryCorpus::render_index` emits them.
#[derive(Clone, Debug, Eq, PartialEq)]
pub struct IndexLine {
    pub slug: String,
    pub title: String,
    pub claims: usize,
    pub path: String,
}

/// The content of `IndexLine`.
pub struct IndexLineAbs {
    pub slug: Seq<char>,
    pub title: Seq<char>,
    pub claims: usize,
    pub path: Seq<char>,
}

impl Abstract for IndexLine {
    type Abs = IndexLineAbs;

    open spec fn abs(&self) -> IndexLineAbs {
        IndexLineAbs {
            slug: self.slug.abs(),
            title: self.title.abs(),
            claims: self.claims.abs(),
            path: self.path.abs(),
        }
    }

    fn duplicate(&self) -> IndexLine {
        IndexLine {
            slug: self.slug.duplicate(),
            title: self.title.duplicate(),
            claims: self.claims.duplicate(),
            path: self.path.duplicate(),
        }
    }

    fn same(&self, other: &IndexLine) -> bool {
        self.slug.same(&other.slug) && self.title.same(&other.title)
            && self.claims.same(&other.claims) && self.path.same(&other.path)
    }
}

/// Why a text is no index.
#[derive(Clone, Debug, Eq, PartialEq)]
pub enum IndexParseError {
    /// The first two lines are not the required `INDEX_HEADER`.
    MissingHeader,
    /// A body line is not a `- <slug> - <title> (<n> claims) - <path>` bullet.
    MalformedLine { line: usize, text: String },
    /// The bullet's slug is not a valid kebab-case slug.
    InvalidSlug { line: usize, slug: String },
    /// The claim count is not a base-10 number.
    InvalidClaimCount { line: usize, value: String },
    /// The entry path is not `entries/<slug>.md` for the bullet's slug.
    PathMismatch { line: usize, slug: String, path: String },
}

/// The content of `IndexParseError`.
pub enum IndexParseErrorAbs {
    MissingHeader,
    MalformedLine { line: usize, text: Seq<char> },
    InvalidSlug { line: usize, slug: Seq<char> },
    InvalidClaimCount { line: usize, value: Seq<char> },
    PathMismatch { line: usize, slug: Seq<char>, path: Seq<char> },
}

impl Abstract for IndexParseError {
    type Abs = IndexParseErrorAbs;

    open spec fn abs(&self) -> IndexParseErrorAbs {
        match self {
            IndexParseError::MissingHeader => IndexParseErrorAbs::MissingHeader,
            IndexParseError::MalformedLine { line, text } => IndexParseErrorAbs::MalformedLine {
                line: line.abs(),
                text: text.abs(),
            },
            IndexParseError::InvalidSlug { line, slug } => IndexParseErrorAbs::InvalidSlug {
                line: line.abs(),
                slug: slug.abs(),
            },
            IndexParseError::InvalidClaimCount { line, value } => {
                IndexParseErrorAbs::InvalidClaimCount { line: line.abs(), value: value.abs() }
            },
            IndexParseError::PathMismatch { line, slug, path } => IndexParseErrorAbs::PathMismatch {
                line: line.abs(),
                slug: slug.abs(),
                path: path.abs(),
            },
        }
    }

    fn duplicate(&self) -> IndexParseError {
        match self {
            IndexParseError::MissingHeader => IndexParseError::MissingHeader,
            IndexParseError::MalformedLine { line, text } => IndexParseError::MalformedLine {
                line: line.duplicate(),
                text: text.duplicate(),
            },
            IndexParseError::InvalidSlug { line, slug } => IndexParseError::InvalidSlug {
                line: line.duplicate(),
                slug: slug.duplicate(),
            },
            IndexParseError::InvalidClaimCount { line, value } => {
                IndexParseError::InvalidClaimCount {
                    line: line.duplicate(),
                    value: value.duplicate(),
                }
            },
            IndexParseError::PathMismatch { line, slug, path } => IndexParseError::PathMismatch {
                line: line.duplicate(),
                slug: slug.duplicate(),
                path: path.duplicate(),
            },
        }
    }

    fn same(&self, other: &IndexParseError) -> bool {
        match (self, other) {
            (IndexParseError::MissingHeader, IndexParseError::MissingHeader) => true,
            (
                IndexParseError::MalformedLine { line, text },
                IndexParseError::MalformedLine { line: line2, text: text2 },
            ) => {
                line.same(line2) && text.same(text2)
            },
            (
                IndexParseError::InvalidSlug { line, slug },
                IndexParseError::InvalidSlug { line: line2, slug: slug2 },
            ) => {
                line.same(line2) && slug.same(slug2)
            },
            (
                IndexParseError::InvalidClaimCount { line, value },
                IndexParseError::InvalidClaimCount { line: line2, value: value2 },
            ) => {
                line.same(line2) && value.same(value2)
            },
            (
                IndexParseError::PathMismatch { line, slug, path },
                IndexParseError::PathMismatch { line: line2, slug: slug2, path: path2 },
            ) => {
                line.same(line2) && slug.same(slug2) && path.same(path2)
            },
            _ => false,
        }
    }
}

/// The beginning of a sentence about a line.
fn at_line(lead: &str, line: usize, rest: &str) -> (r: String)
    ensures
        r@ == lead@ + decimal(line as nat) + rest@,
{
    lead.to_owned().concat(decimal_text(line).as_str()).concat(rest)
}

impl EntryParseError {
    /// The sentence that tells a reader of this error.
    pub open spec fn message(&self) -> Seq<char> {
        match self {
            EntryParseError::MissingTitle => "entry must start with a '# <title>' line"@,
            EntryParseError::EmptyTitle => "entry title must not be empty"@,
            EntryParseError::DuplicateHeaderLine(line) => "line "@ + decimal(
                *line as nat,
            ) + " is outside the recognized entry layout"@,
            EntryParseError::MissingClaimsSection => "entry is missing the '## Claims' section"@,
            EntryParseError::UnknownField {
                line,
                field,
            } => "line "@ + decimal(*line as nat) + " has unknown entry field "@ + quoted(field@),
            EntryParseError::MissingField {
                field,
            } => "entry is missing required field "@ + quoted(field@),
            EntryParseError::InvalidSlug(slug) => "invalid slug "@ + quoted(slug@),
            EntryParseError::InvalidRun {
                field,
                value,
            } => "invalid run id for field "@ + quoted(field@) + ": "@ + quoted(value@),
            EntryParseError::UnknownStatus {
                line,
                value,
            } => "line "@ + decimal(*line as nat) + " has unknown status "@ + quoted(value@),
            EntryParseError::InvalidMessageSource {
                line,
                value,
            } => {
                "line "@ + decimal(*line as nat) + " has invalid message source "@
                    + quoted(value@)
            },
            EntryParseError::InvalidFileSource {
                line,
                value,
            } => "line "@ + decimal(*line as nat) + " has invalid file source "@ + quoted(value@),
            EntryParseError::InvalidSupersededBy {
                line,
                value,
            } => {
                "line "@ + decimal(*line as nat) + " has invalid superseded-by reference "@
                    + quoted(value@)
            },
            EntryParseError::DuplicateTag { line, tag } => "line "@ + decimal(
                *line as nat,
            ) + " repeats the "@ + quoted(tag@) + " tag"@,
            EntryParseError::MalformedClaimLine { line } => "line "@ + decimal(
                *line as nat,
            ) + " is not a valid claim bullet"@,
            EntryParseError::UnsourcefulClaim { line } => "line "@ + decimal(
                *line as nat,
            ) + " carries neither a src: nor a file: tag"@,
            EntryParseError::UnexpectedLine {
                line,
                text,
            } => "line "@ + decimal(*line as nat) + " is unexpected: "@ + quoted(text@),
        }
    }

    pub fn to_string(&self) -> (r: String)
        ensures
            r@ == self.message(),
    {
        match self {
            EntryParseError::MissingTitle => "entry must start with a '# <title>' line".to_owned(),
            EntryParseError::EmptyTitle => "entry title must not be empty".to_owned(),
            EntryParseError::DuplicateHeaderLine(line) => {
                at_line("line ", *line, " is outside the recognized entry layout")
            },
            EntryParseError::MissingClaimsSection => {
                "entry is missing the '## Claims' section".to_owned()
            },
            EntryParseError::UnknownField { line, field } => {
                at_line("line ", *line, " has unknown entry field ").concat(
                    quoted_text(field.as_str()).as_str(),
                )
            },
            EntryParseError::MissingField { field } => "entry is missing required field ".to_owned().concat(
                quoted_text(field.as_str()).as_str(),
            ),
            EntryParseError::InvalidSlug(slug) => "invalid slug ".to_owned().concat(
                quoted_text(slug.as_str()).as_str(),
            ),
            EntryParseError::InvalidRun { field, value } => "invalid run id for field ".to_owned().concat(
                quoted_text(field.as_str()).as_str(),
            ).concat(": ").concat(quoted_text(value.as_str()).as_str()),
            EntryParseError::UnknownStatus { line, value } => {
                at_line("line ", *line, " has unknown status ").concat(
                    quoted_text(value.as_str()).as_str(),
                )
            },
            EntryParseError::InvalidMessageSource { line, value } => {
                at_line("line ", *line, " has invalid message source ").concat(
                    quoted_text(value.as_str()).as_str(),
                )
            },
            EntryParseError::InvalidFileSource { line, value } => {
                at_line("line ", *line, " has invalid file source ").concat(
                    quoted_text(value.as_str()).as_str(),
                )
            },
            EntryParseError::InvalidSupersededBy { line, value } => {
                at_line("line ", *line, " has invalid superseded-by reference ").concat(
                    quoted_text(value.as_str()).as_str(),
                )
            },
            EntryParseError::DuplicateTag { line, tag } => {
                at_line("line ", *line, " repeats the ").concat(
                    quoted_text(tag).as_str(),
                ).concat(
                    " tag",
                )
            },
            EntryParseError::MalformedClaimLine { line } => {
                at_line("line ", *line, " is not a valid claim bullet")
            },
            EntryParseError::UnsourcefulClaim { line } => {
                at_line("line ", *line, " carries neither a src: nor a file: tag")
            },
            EntryParseError::UnexpectedLine { line, text } => {
                at_line("line ", *line, " is unexpected: ").concat(
                    quoted_text(text.as_str()).as_str(),
                )
            },
        }
    }
}

impl CorpusParseError {
    /// The sentence that tells a reader of this error.
    pub open spec fn message(&self) -> Seq<char> {
        "entry file "@ + self.path@ + " is invalid: "@ + self.source.message()
    }

    pub fn to_string(&self) -> (r: String)
        ensures
            r@ == self.message(),
    {
        "entry file ".to_owned().concat(self.path.as_str()).concat(" is invalid: ").concat(
            self.source.to_string().as_str(),
        )
    }
}

impl IndexParseError {
    /// The sentence that tells a reader of this error.
    pub open spec fn message(&self) -> Seq<char> {
        match self {
            IndexParseError::MissingHeader => "INDEX.md is missing the two-line header"@,
            IndexParseError::MalformedLine {
                line,
                text,
            } => {
                "INDEX.md line "@ + decimal(*line as nat) + " is not a valid entry bullet: "@
                    + quoted(text@)
            },
            IndexParseError::InvalidSlug {
                line,
                slug,
            } => "INDEX.md line "@ + decimal(*line as nat) + " has invalid slug "@ + quoted(slug@),
            IndexParseError::InvalidClaimCount {
                line,
                value,
            } => {
                "INDEX.md line "@ + decimal(*line as nat) + " has invalid claim count "@
                    + quoted(value@)
            },
            IndexParseError::PathMismatch {
                line,
                slug,
                path,
            } => {
                "INDEX.md line "@ + decimal(*line as nat) + " path "@ + quoted(path@)
                    + " does not match slug "@ + quoted(slug@)
            },
        }
    }

    pub fn to_string(&self) -> (r: String)
        ensures
            r@ == self.message(),
    {
        match self {
            IndexParseError::MissingHeader => "INDEX.md is missing the two-line header".to_owned(),
            IndexParseError::MalformedLine { line, text } => {
                at_line("INDEX.md line ", *line, " is not a valid entry bullet: ").concat(
                    quoted_text(text.as_str()).as_str(),
                )
            },
            IndexParseError::InvalidSlug { line, slug } => {
                at_line("INDEX.md line ", *line, " has invalid slug ").concat(
                    quoted_text(slug.as_str()).as_str(),
                )
            },
            IndexParseError::InvalidClaimCount { line, value } => {
                at_line("INDEX.md line ", *line, " has invalid claim count ").concat(
                    quoted_text(value.as_str()).as_str(),
                )
            },
            IndexParseError::PathMismatch { line, slug, path } => {
                at_line("INDEX.md line ", *line, " path ").concat(
                    quoted_text(path.as_str()).as_str(),
                ).concat(
                    " does not match slug ",
                ).concat(
                    quoted_text(slug.as_str()).as_str(),
                )
            },
        }
    }
}

// ---------------------------------------------------------------------------
// Rendering
// ---------------------------------------------------------------------------

/// Texts with a comma and a space between them.
pub open spec fn joined(items: Seq<Seq<char>>) -> Seq<char>
    decreases items.len(),
{
    if items.len() == 0 {
        Seq::empty()
    } else if items.len() == 1 {
        items[0]
    } else {
        joined(items.drop_last()) + ", "@ + items.last()
    }
}

/// A `file:` source as it is written.
pub open spec fn file_text(file: FileSourceAbs) -> Seq<char> {
    match file.digest {
        Some(digest) => file.path + "@"@ + digest,
        None => file.path,
    }
}

/// The `file:` sources as they are written.
pub open spec fn file_texts(files: Seq<FileSourceAbs>) -> Seq<Seq<char>> {
    Seq::new(files.len(), |i: int| file_text(files[i]))
}

/// A tag behind the text of a claim.
pub open spec fn tag_text(key: Seq<char>, value: Seq<char>) -> Seq<char> {
    " ["@ + key + ": "@ + value + "]"@
}

pub open spec fn source_tag(claim: StoredClaimAbs) -> Seq<char> {
    if claim.sources.len() == 0 {
        Seq::empty()
    } else {
        tag_text("src"@, joined(claim.sources))
    }
}

pub open spec fn file_tag(claim: StoredClaimAbs) -> Seq<char> {
    if claim.files.len() == 0 {
        Seq::empty()
    } else {
        tag_text("file"@, joined(file_texts(claim.files)))
    }
}

pub open spec fn status_text(status: ClaimStatus) -> Seq<char> {
    match status {
        ClaimStatus::Active => "active"@,
        ClaimStatus::Stale => "stale"@,
    }
}

pub open spec fn status_tag(claim: StoredClaimAbs) -> Seq<char> {
    match claim.status {
        None => Seq::empty(),
        Some(status) => tag_text("status"@, status_text(status)),
    }
}

pub open spec fn supersession_tag(claim: StoredClaimAbs) -> Seq<char> {
    match claim.superseded_by {
        None => Seq::empty(),
        Some(reference) => tag_text("superseded-by"@, reference),
    }
}

/// A claim as it is written: the text, then the tags in canonical order.
/// Claims without message sources omit the `src` tag; paths without digests
/// stand without `@<digest>`.
pub open spec fn claim_line(claim: StoredClaimAbs) -> Seq<char> {
    "- "@ + claim.text + source_tag(claim) + file_tag(claim) + status_tag(claim)
        + supersession_tag(claim)
}

/// Lines, each with a line feed behind it.
pub open spec fn unlines(lines: Seq<Seq<char>>) -> Seq<char>
    decreases lines.len(),
{
    if lines.len() == 0 {
        Seq::empty()
    } else {
        unlines(lines.drop_last()) + lines.last() + seq!['\n']
    }
}

/// A line that stands whole between line feeds.
pub open spec fn is_line(line: Seq<char>) -> bool {
    !line.contains('\n') && without_return(line) == line
}

/// Terminated lines are read back as they were.
pub proof fn unlines_round_trip(lines: Seq<Seq<char>>)
    requires
        forall|i: int| 0 <= i < lines.len() ==> is_line(#[trigger] lines[i]),
    ensures
        lines_of(unlines(lines)) == lines,
{
    lemma_unlines_pieces(lines);
    let p = pieces(unlines(lines), '\n');
    assert(p.last().len() == 0);
    assert forall|i: int| 0 <= i < lines.len() implies lines_of(unlines(lines))[i] == lines[i] by {
        assert(is_line(lines[i]));
        assert(p[i] == lines[i]);
    }
    assert(lines_of(unlines(lines)) =~= lines);
}

proof fn lemma_unlines_pieces(lines: Seq<Seq<char>>)
    requires
        forall|i: int| 0 <= i < lines.len() ==> !(#[trigger] lines[i]).contains('\n'),
    ensures
        pieces(unlines(lines), '\n') == lines.push(Seq::<char>::empty()),
    decreases lines.len(),
{
    if lines.len() == 0 {
        assert(lines.push(Seq::<char>::empty()) =~= seq![Seq::<char>::empty()]);
    } else {
        let rest = lines.drop_last();
        assert forall|i: int| 0 <= i < rest.len() implies !(#[trigger] rest[i]).contains('\n') by {
            assert(rest[i] == lines[i]);
        }
        lemma_unlines_pieces(rest);
        let last = lines[lines.len() - 1];
        pieces_extended(unlines(rest), last, '\n');
        let s = unlines(rest) + last;
        assert(Seq::<char>::empty() + last =~= last);
        assert(pieces(s, '\n') =~= lines);
        assert(unlines(lines).drop_last() =~= s);
        assert(unlines(lines).last() == '\n');
    }
}

/// The lines of an entry before its claims.
pub open spec fn header_lines(entry: MemoryEntryAbs) -> Seq<Seq<char>> {
    seq![
        "# "@ + entry.title,
        Seq::empty(),
        "- slug: "@ + entry.slug,
        "- created: "@ + identity_text("run_", entry.created),
        "- updated: "@ + identity_text("run_", entry.updated),
    ] + (match entry.artifact {
        Some(artifact) => seq!["- artifact: "@ + artifact],
        None => Seq::empty(),
    }) + seq![Seq::empty(), "## Claims"@]
}

/// The lines of claims.
pub open spec fn claim_lines(claims: Seq<StoredClaimAbs>) -> Seq<Seq<char>> {
    Seq::new(claims.len(), |i: int| claim_line(claims[i]))
}

/// The lines of an entry.
pub open spec fn entry_lines(entry: MemoryEntryAbs) -> Seq<Seq<char>> {
    if entry.claims.len() == 0 {
        header_lines(entry)
    } else {
        header_lines(entry).push(Seq::empty()) + claim_lines(entry.claims)
    }
}

/// The text of an entry.
pub open spec fn entry_text(entry: MemoryEntryAbs) -> Seq<char> {
    unlines(entry_lines(entry))
}

/// Texts with a comma and a space between them.
fn join_texts(items: &Vec<String>) -> (r: String)
    ensures
        r@ == joined(contents(items@)),
{
    let ghost all = contents(items@);
    let mut out: String = String::new();
    let mut i: usize = 0;
    assert(joined(all.take(0)) =~= Seq::<char>::empty());
    while i < items.len()
        invariant
            i <= items@.len(),
            all == contents(items@),
            out@ == joined(all.take(i as int)),
        decreases items@.len() - i,
    {
        assert(all.take(i + 1).drop_last() =~= all.take(i as int));
        assert(all.take(i + 1).last() == items@[i as int]@);
        if i > 0 {
            out.append(", ");
        }
        out.append(items[i].as_str());
        assert(out@ =~= joined(all.take(i + 1)));
        i += 1;
    }
    assert(all.take(i as int) =~= all);
    out
}

fn append_tag(line: &mut String, key: &str, value: &str)
    ensures
        final(line)@ == old(line)@ + tag_text(key@, value@),
{
    line.append(" [");
    line.append(key);
    line.append(": ");
    line.append(value);
    line.append("]");
    assert(line@ =~= old(line)@ + tag_text(key@, value@));
}

fn render_claim_line(claim: &StoredClaim) -> (r: String)
    ensures
        r@ == claim_line(claim.abs()),
{
    let ghost abs = claim.abs();
    let mut line: String = "- ".to_owned();
    line.append(claim.text.as_str());
    if claim.sources.len() > 0 {
        let mut texts: Vec<String> = Vec::new();
        let mut i: usize = 0;
        while i < claim.sources.len()
            invariant
                i <= claim.sources@.len(),
                texts@.len() == i,
                forall|k: int| 0 <= k < i ==> (#[trigger] texts@[k])@ == claim.sources@[k]@,
            decreases claim.sources@.len() - i,
        {
            texts.push(claim.sources[i].to_string());
            i += 1;
        }
        assert(contents(texts@) =~= abs.sources);
        append_tag(&mut line, "src", join_texts(&texts).as_str());
    }
    assert(line@ =~= "- "@ + abs.text + source_tag(abs));
    if claim.files.len() > 0 {
        let mut texts: Vec<String> = Vec::new();
        let mut i: usize = 0;
        while i < claim.files.len()
            invariant
                i <= claim.files@.len(),
                texts@.len() == i,
                forall|k: int|
                    0 <= k < i ==> (#[trigger] texts@[k])@ == file_text(claim.files@[k].abs()),
            decreases claim.files@.len() - i,
        {
            let file: &FileSource = &claim.files[i];
            let text: String = match &file.digest {
                Some(digest) => file.path.clone().concat("@").concat(digest.as_str()),
                None => file.path.clone(),
            };
            assert(text@ == file_text(claim.files@[i as int].abs()));
            texts.push(text);
            i += 1;
        }
        assert(contents(texts@) =~= file_texts(abs.files));
        append_tag(&mut line, "file", join_texts(&texts).as_str());
    }
    assert(line@ =~= "- "@ + abs.text + source_tag(abs) + file_tag(abs));
    if let Some(status) = claim.status {
        let value: &str = match status {
            ClaimStatus::Active => "active",
            ClaimStatus::Stale => "stale",
        };
        append_tag(&mut line, "status", value);
    }
    assert(line@ =~= "- "@ + abs.text + source_tag(abs) + file_tag(abs) + status_tag(abs));
    if let Some(reference) = &claim.superseded_by {
        append_tag(&mut line, "superseded-by", reference.as_str());
    }
    assert(line@ =~= claim_line(abs));
    line
}

/// Appends a line.
fn push_line(out: &mut String, line: &str, Ghost(lines): Ghost<Seq<Seq<char>>>)
    requires
        old(out)@ == unlines(lines),
    ensures
        final(out)@ == unlines(lines.push(line@)),
{
    out.append(line);
    out.push('\n');
    assert(lines.push(line@).drop_last() =~= lines);
    assert(out@ =~= unlines(lines.push(line@)));
}

/// Render an entry in canonical tag order: `src`, `file`, `status`,
/// `superseded-by`.
pub fn render_entry(entry: &MemoryEntry) -> (r: String)
    ensures
        r@ == entry_text(entry.abs()),
{
    let ghost abs = entry.abs();
    let mut out: String = String::new();
    let ghost mut lines: Seq<Seq<char>> = Seq::empty();
    let title: String = "# ".to_owned().concat(entry.title.as_str());
    push_line(&mut out, title.as_str(), Ghost(lines));
    proof {
        lines = lines.push(title@);
    }
    let blank: String = String::new();
    push_line(&mut out, blank.as_str(), Ghost(lines));
    proof {
        lines = lines.push(blank@);
    }
    let slug: String = "- slug: ".to_owned().concat(entry.slug.as_str());
    push_line(&mut out, slug.as_str(), Ghost(lines));
    proof {
        lines = lines.push(slug@);
    }
    let created: String = "- created: ".to_owned().concat(entry.created.to_string().as_str());
    push_line(&mut out, created.as_str(), Ghost(lines));
    proof {
        lines = lines.push(created@);
    }
    let updated: String = "- updated: ".to_owned().concat(entry.updated.to_string().as_str());
    push_line(&mut out, updated.as_str(), Ghost(lines));
    proof {
        lines = lines.push(updated@);
    }
    if let Some(artifact) = &entry.artifact {
        let line: String = "- artifact: ".to_owned().concat(artifact.as_str());
        push_line(&mut out, line.as_str(), Ghost(lines));
        proof {
            lines = lines.push(line@);
        }
    }
    push_line(&mut out, blank.as_str(), Ghost(lines));
    proof {
        lines = lines.push(blank@);
    }
    push_line(&mut out, "## Claims", Ghost(lines));
    proof {
        lines = lines.push("## Claims"@);
        assert(blank@ =~= Seq::<char>::empty());
        assert(lines =~= header_lines(abs));
    }
    if entry.claims.len() == 0 {
        assert(abs.claims.len() == 0);
        return out;
    }
    push_line(&mut out, blank.as_str(), Ghost(lines));
    proof {
        lines = lines.push(blank@);
    }
    let ghost head = lines;
    let mut i: usize = 0;
    assert(claim_lines(abs.claims).take(0) =~= Seq::<Seq<char>>::empty());
    assert(head + claim_lines(abs.claims).take(0) =~= head);
    while i < entry.claims.len()
        invariant
            i <= entry.claims@.len(),
            abs == entry.abs(),
            out@ == unlines(head + claim_lines(abs.claims).take(i as int)),
        decreases entry.claims@.len() - i,
    {
        let line: String = render_claim_line(&entry.claims[i]);
        let ghost before = head + claim_lines(abs.claims).take(i as int);
        push_line(&mut out, line.as_str(), Ghost(before));
        assert(abs.claims[i as int] == entry.claims@[i as int].abs());
        assert(before.push(line@) =~= head + claim_lines(abs.claims).take(i + 1));
        i += 1;
    }
    assert(claim_lines(abs.claims).take(i as int) =~= claim_lines(abs.claims));
    assert(head + claim_lines(abs.claims) =~= entry_lines(abs));
    out
}

// ---------------------------------------------------------------------------
// Parsing
// ---------------------------------------------------------------------------

/// The message IDs of a `src:` tag.
pub open spec fn read_sources(items: Seq<Seq<char>>, line: usize) -> Result<
    Seq<Seq<char>>,
    EntryParseErrorAbs,
>
    decreases items.len(),
{
    if items.len() == 0 {
        Ok(Seq::empty())
    } else {
        match read_sources(items.drop_last(), line) {
            Err(error) => Err(error),
            Ok(sources) => {
                let id = trimmed(items.last());
                if id.len() == 0 {
                    Err(EntryParseErrorAbs::MalformedClaimLine { line })
                } else if identified(id, "msg_") is Err {
                    Err(EntryParseErrorAbs::InvalidMessageSource { line, value: id })
                } else {
                    Ok(sources.push(id))
                }
            },
        }
    }
}

/// A digest prefix: twelve hexadecimal digits.
pub open spec fn is_digest_prefix(digest: Seq<char>) -> bool {
    digest.len() == 12 && all_chars(digest, |c: char| is_hex(c))
}

/// One item of a `file:` tag: a path, with the digest behind the last `@`.
pub open spec fn read_file(item: Seq<char>, line: usize) -> Result<
    FileSourceAbs,
    EntryParseErrorAbs,
> {
    let invalid = Err(EntryParseErrorAbs::InvalidFileSource { line, value: item });
    let file = match rcut(item, "@"@) {
        Some((path, digest)) => FileSourceAbs { path, digest: Some(digest) },
        None => FileSourceAbs { path: item, digest: None },
    };
    if item.len() == 0 {
        Err(EntryParseErrorAbs::MalformedClaimLine { line })
    } else if file.digest matches Some(digest) && !is_digest_prefix(digest) {
        invalid
    } else if file.path.len() == 0 || file.path[0] == '/' || file.path.contains('\0') {
        invalid
    } else {
        Ok(file)
    }
}

/// The files of a `file:` tag.
pub open spec fn read_files(items: Seq<Seq<char>>, line: usize) -> Result<
    Seq<FileSourceAbs>,
    EntryParseErrorAbs,
>
    decreases items.len(),
{
    if items.len() == 0 {
        Ok(Seq::empty())
    } else {
        match read_files(items.drop_last(), line) {
            Err(error) => Err(error),
            Ok(files) => match read_file(trimmed(items.last()), line) {
                Err(error) => Err(error),
                Ok(file) => Ok(files.push(file)),
            },
        }
    }
}

/// The tags of a claim.
pub struct ClaimTags {
    pub sources: Seq<Seq<char>>,
    pub files: Seq<FileSourceAbs>,
    pub status: Option<ClaimStatus>,
    pub superseded_by: Option<Seq<char>>,
}

/// The tags with one more, or why the tag is refused; `None` where the key is
/// not that of a tag.
pub open spec fn with_tag(
    tags: ClaimTags,
    key: Seq<char>,
    value: Seq<char>,
    line: usize,
) -> Option<Result<ClaimTags, EntryParseErrorAbs>> {
    if key == "src"@ {
        Some(
            if tags.sources.len() > 0 {
                Err(EntryParseErrorAbs::DuplicateTag { line, tag: "src"@ })
            } else {
                match read_sources(pieces(value, ','), line) {
                    Err(error) => Err(error),
                    Ok(sources) => Ok(ClaimTags { sources, ..tags }),
                }
            },
        )
    } else if key == "file"@ {
        Some(
            if tags.files.len() > 0 {
                Err(EntryParseErrorAbs::DuplicateTag { line, tag: "file"@ })
            } else {
                match read_files(pieces(value, ','), line) {
                    Err(error) => Err(error),
                    Ok(files) => Ok(ClaimTags { files, ..tags }),
                }
            },
        )
    } else if key == "status"@ {
        Some(
            if tags.status is Some {
                Err(EntryParseErrorAbs::DuplicateTag { line, tag: "status"@ })
            } else if value == "active"@ {
                Ok(ClaimTags { status: Some(ClaimStatus::Active), ..tags })
            } else if value == "stale"@ {
                Ok(ClaimTags { status: Some(ClaimStatus::Stale), ..tags })
            } else {
                Err(EntryParseErrorAbs::UnknownStatus { line, value })
            },
        )
    } else if key == "superseded-by"@ {
        Some(
            if tags.superseded_by is Some {
                Err(EntryParseErrorAbs::DuplicateTag { line, tag: "superseded-by"@ })
            } else if !is_supersession(value) {
                Err(EntryParseErrorAbs::InvalidSupersededBy { line, value })
            } else {
                Ok(ClaimTags { superseded_by: Some(value), ..tags })
            },
        )
    } else {
        None
    }
}

/// The key and the value of the bracket group that begins at `start` and ends
/// the body.
pub open spec fn group_at(body: Seq<char>, start: int) -> Option<(Seq<char>, Seq<char>)> {
    cut(body.subrange(start + 1, body.len() - 1), ": "@)
}

/// The body of a claim without the tags at its end, and the tags. Tags are
/// read right to left; a trailing bracket group that is not a known tag stays
/// in the body. A `]` with no opening `[` is malformed.
pub open spec fn read_tags(body: Seq<char>, tags: ClaimTags, line: usize) -> Result<
    (Seq<char>, ClaimTags),
    EntryParseErrorAbs,
>
    decreases body.len(),
{
    if !ends(body, seq![']']) {
        Ok((body, tags))
    } else {
        match rfind(body, seq!['[']) {
            None => Err(EntryParseErrorAbs::MalformedClaimLine { line }),
            Some(start) => match group_at(body, start) {
                None => Ok((body, tags)),
                Some((key, value)) => match with_tag(tags, key, value, line) {
                    None => Ok((body, tags)),
                    Some(Err(error)) => Err(error),
                    Some(Ok(more)) => {
                        let rest = trimmed_end(body.subrange(0, start));
                        if rest.len() < body.len() {
                            read_tags(rest, more, line)
                        } else {
                            Ok((body, tags))
                        }
                    },
                },
            },
        }
    }
}

pub open spec fn no_tags() -> ClaimTags {
    ClaimTags { sources: Seq::empty(), files: Seq::empty(), status: None, superseded_by: None }
}

/// The claim of a bullet line.
pub open spec fn read_claim(text: Seq<char>, line: usize) -> Result<
    StoredClaimAbs,
    EntryParseErrorAbs,
> {
    match without_prefix(text, "- "@) {
        None => Err(EntryParseErrorAbs::MalformedClaimLine { line }),
        Some(rest) => match read_tags(rest, no_tags(), line) {
            Err(error) => Err(error),
            Ok((body, tags)) => if is_blank(body) {
                Err(EntryParseErrorAbs::MalformedClaimLine { line })
            } else if tags.sources.len() == 0 && tags.files.len() == 0 {
                Err(EntryParseErrorAbs::UnsourcefulClaim { line })
            } else {
                Ok(
                    StoredClaimAbs {
                        text: trimmed(body),
                        sources: tags.sources,
                        files: tags.files,
                        status: tags.status,
                        superseded_by: tags.superseded_by,
                    },
                )
            },
        },
    }
}

/// What has been read of an entry after its title.
pub struct EntryScan {
    pub slug: Option<Seq<char>>,
    pub created: Option<Seq<u8>>,
    pub updated: Option<Seq<u8>>,
    pub artifact: Option<Seq<char>>,
    pub in_claims: bool,
    pub claims: Seq<StoredClaimAbs>,
}

pub open spec fn empty_scan() -> EntryScan {
    EntryScan {
        slug: None,
        created: None,
        updated: None,
        artifact: None,
        in_claims: false,
        claims: Seq::empty(),
    }
}

/// A header field of an entry.
pub open spec fn scan_field(
    scan: EntryScan,
    field: Seq<char>,
    value: Seq<char>,
    line: usize,
) -> Result<EntryScan, EntryParseErrorAbs> {
    let repeated = Err(EntryParseErrorAbs::DuplicateHeaderLine(line));
    if field == "slug"@ {
        if scan.slug is Some {
            repeated
        } else {
            Ok(EntryScan { slug: Some(value), ..scan })
        }
    } else if field == "created"@ {
        if scan.created is Some {
            repeated
        } else {
            match identified(value, "run_") {
                Ok(run) => Ok(EntryScan { created: Some(run), ..scan }),
                Err(_) => Err(EntryParseErrorAbs::InvalidRun { field, value }),
            }
        }
    } else if field == "updated"@ {
        if scan.updated is Some {
            repeated
        } else {
            match identified(value, "run_") {
                Ok(run) => Ok(EntryScan { updated: Some(run), ..scan }),
                Err(_) => Err(EntryParseErrorAbs::InvalidRun { field, value }),
            }
        }
    } else if field == "artifact"@ {
        if scan.artifact is Some {
            repeated
        } else {
            Ok(EntryScan { artifact: Some(value), ..scan })
        }
    } else {
        Err(EntryParseErrorAbs::UnknownField { line, field })
    }
}

/// The field and the value of a header line.
pub open spec fn header_field(text: Seq<char>) -> Option<(Seq<char>, Seq<char>)> {
    match without_prefix(text, "- "@) {
        Some(rest) => cut(rest, ": "@),
        None => None,
    }
}

/// A line of an entry after its title. Empty lines mean nothing.
pub open spec fn scan_line(scan: EntryScan, text: Seq<char>, line: usize) -> Result<
    EntryScan,
    EntryParseErrorAbs,
> {
    if text.len() == 0 {
        Ok(scan)
    } else if scan.in_claims {
        match read_claim(text, line) {
            Err(error) => Err(error),
            Ok(claim) => Ok(EntryScan { claims: scan.claims.push(claim), ..scan }),
        }
    } else if text == "## Claims"@ {
        Ok(EntryScan { in_claims: true, ..scan })
    } else {
        match header_field(text) {
            None => Err(EntryParseErrorAbs::UnexpectedLine { line, text }),
            Some((field, value)) => scan_field(scan, field, value, line),
        }
    }
}

/// The first `n` lines of an entry after its title.
pub open spec fn scan_lines(lines: Seq<Seq<char>>, n: int) -> Result<EntryScan, EntryParseErrorAbs>
    decreases n,
{
    if n <= 1 {
        Ok(empty_scan())
    } else {
        match scan_lines(lines, n - 1) {
            Err(error) => Err(error),
            Ok(scan) => scan_line(scan, lines[n - 1], n as usize),
        }
    }
}

/// The entry that has been read, where nothing is missing.
pub open spec fn completed(title: Seq<char>, scan: EntryScan) -> Result<
    MemoryEntryAbs,
    EntryParseErrorAbs,
> {
    if !scan.in_claims {
        Err(EntryParseErrorAbs::MissingClaimsSection)
    } else if scan.slug is None {
        Err(EntryParseErrorAbs::MissingField { field: "slug"@ })
    } else if !is_slug(scan.slug->Some_0) {
        Err(EntryParseErrorAbs::InvalidSlug(scan.slug->Some_0))
    } else if scan.created is None {
        Err(EntryParseErrorAbs::MissingField { field: "created"@ })
    } else if scan.updated is None {
        Err(EntryParseErrorAbs::MissingField { field: "updated"@ })
    } else {
        Ok(
            MemoryEntryAbs {
                title,
                slug: scan.slug->Some_0,
                created: scan.created->Some_0,
                updated: scan.updated->Some_0,
                artifact: scan.artifact,
                claims: scan.claims,
            },
        )
    }
}

/// The entry that the lines of a text make.
pub open spec fn read_lines(lines: Seq<Seq<char>>) -> Result<MemoryEntryAbs, EntryParseErrorAbs> {
    if lines.len() == 0 {
        Err(EntryParseErrorAbs::MissingTitle)
    } else {
        match without_prefix(lines[0], "# "@) {
            None => Err(EntryParseErrorAbs::MissingTitle),
            Some(title) => if title.len() == 0 {
                Err(EntryParseErrorAbs::EmptyTitle)
            } else {
                match scan_lines(lines, lines.len() as int) {
                    Err(error) => Err(error),
                    Ok(scan) => completed(title, scan),
                }
            },
        }
    }
}

/// The entry that a text holds, or why it holds none.
pub open spec fn read_entry(text: Seq<char>) -> Result<MemoryEntryAbs, EntryParseErrorAbs> {
    read_lines(lines_of(text))
}

/// A failure among the first lines is the failure of all of them.
proof fn lemma_scan_fails(lines: Seq<Seq<char>>, n: int, m: int)
    requires
        0 <= n <= m,
        scan_lines(lines, n) is Err,
    ensures
        scan_lines(lines, m) == scan_lines(lines, n),
    decreases m,
{
    if n < m {
        lemma_scan_fails(lines, n, m - 1);
    }
}

fn parse_source_list(value: &str, line: usize) -> (r: Result<Vec<MessageId>, EntryParseError>)
    ensures
        result_abs(r) == read_sources(pieces(value@, ','), line),
{
    let items: Vec<String> = split(value, ',');
    let ghost all = pieces(value@, ',');
    let mut sources: Vec<MessageId> = Vec::new();
    let mut i: usize = 0;
    assert(all.take(0) =~= Seq::<Seq<char>>::empty());
    assert(contents(sources@) =~= Seq::<Seq<char>>::empty());
    while i < items.len()
        invariant
            i <= items@.len(),
            all == pieces(value@, ','),
            contents(items@) == all,
            read_sources(all.take(i as int), line) == Ok::<Seq<Seq<char>>, EntryParseErrorAbs>(
                contents(sources@),
            ),
        decreases items@.len() - i,
    {
        broadcast use contents_push;

        assert(all.take(i + 1).drop_last() =~= all.take(i as int));
        assert(all.take(i + 1).last() == items@[i as int]@);
        let id: String = trim(items[i].as_str());
        if id.as_str().is_empty() {
            proof {
                lemma_sources_fail(all, i + 1, line);
            }
            return Err(EntryParseError::MalformedClaimLine { line });
        }
        match MessageId::parse(id.as_str()) {
            Ok(source) => {
                sources.push(source);
            },
            Err(_) => {
                proof {
                    lemma_sources_fail(all, i + 1, line);
                }
                return Err(EntryParseError::InvalidMessageSource { line, value: id });
            },
        }
        i += 1;
    }
    assert(all.take(i as int) =~= all);
    Ok(sources)
}

proof fn lemma_sources_fail(items: Seq<Seq<char>>, n: int, line: usize)
    requires
        0 <= n <= items.len(),
        read_sources(items.take(n), line) is Err,
    ensures
        read_sources(items, line) == read_sources(items.take(n), line),
    decreases items.len(),
{
    if n == items.len() {
        assert(items.take(n) =~= items);
    } else {
        assert(items.drop_last().take(n) =~= items.take(n));
        lemma_sources_fail(items.drop_last(), n, line);
    }
}

proof fn lemma_files_fail(items: Seq<Seq<char>>, n: int, line: usize)
    requires
        0 <= n <= items.len(),
        read_files(items.take(n), line) is Err,
    ensures
        read_files(items, line) == read_files(items.take(n), line),
    decreases items.len(),
{
    if n == items.len() {
        assert(items.take(n) =~= items);
    } else {
        assert(items.drop_last().take(n) =~= items.take(n));
        lemma_files_fail(items.drop_last(), n, line);
    }
}

fn is_digest12(digest: &str) -> (b: bool)
    ensures
        b == is_digest_prefix(digest@),
{
    let chars: Vec<char> = chars_of(digest);
    if chars.len() != 12 {
        return false;
    }
    let mut i: usize = 0;
    while i < chars.len()
        invariant
            i <= chars@.len(),
            chars@ == digest@,
            forall|k: int| 0 <= k < i ==> is_hex(#[trigger] chars@[k]),
        decreases chars@.len() - i,
    {
        if !hex_digit(chars[i]) {
            return false;
        }
        i += 1;
    }
    true
}

fn parse_file(item: String, line: usize) -> (r: Result<FileSource, EntryParseError>)
    ensures
        result_abs(r) == read_file(item@, line),
{
    if item.as_str().is_empty() {
        return Err(EntryParseError::MalformedClaimLine { line });
    }
    let (path, digest): (String, Option<String>) = match rsplit_once(item.as_str(), "@") {
        Some((path, digest)) => {
            if !is_digest12(digest.as_str()) {
                return Err(EntryParseError::InvalidFileSource { line, value: item });
            }
            (path, Some(digest))
        },
        None => (item.clone(), None),
    };
    let chars: Vec<char> = chars_of(path.as_str());
    if chars.len() == 0 || chars[0] == '/' || contains_char(path.as_str(), '\0') {
        return Err(EntryParseError::InvalidFileSource { line, value: item });
    }
    Ok(FileSource { path, digest })
}

fn parse_file_list(value: &str, line: usize) -> (r: Result<Vec<FileSource>, EntryParseError>)
    ensures
        result_abs(r) == read_files(pieces(value@, ','), line),
{
    let items: Vec<String> = split(value, ',');
    let ghost all = pieces(value@, ',');
    let mut files: Vec<FileSource> = Vec::new();
    let mut i: usize = 0;
    assert(all.take(0) =~= Seq::<Seq<char>>::empty());
    assert(contents(files@) =~= Seq::<FileSourceAbs>::empty());
    while i < items.len()
        invariant
            i <= items@.len(),
            all == pieces(value@, ','),
            contents(items@) == all,
            read_files(all.take(i as int), line) == Ok::<Seq<FileSourceAbs>, EntryParseErrorAbs>(
                contents(files@),
            ),
        decreases items@.len() - i,
    {
        broadcast use contents_push;

        assert(all.take(i + 1).drop_last() =~= all.take(i as int));
        assert(all.take(i + 1).last() == items@[i as int]@);
        match parse_file(trim(items[i].as_str()), line) {
            Ok(file) => {
                files.push(file);
            },
            Err(error) => {
                proof {
                    lemma_files_fail(all, i + 1, line);
                }
                return Err(error);
            },
        }
        i += 1;
    }
    assert(all.take(i as int) =~= all);
    Ok(files)
}

/// Index of the `[` that opens the bracket group ending at the last `]`.
fn find_opening_bracket(body: &[char]) -> (r: Option<usize>)
    ensures
        match r {
            Some(i) => rfind(body@, seq!['[']) == Some(i as int) && i < body@.len(),
            None => rfind(body@, seq!['[']) is None,
        },
{
    let bracket: Vec<char> = vec!['['];
    assert(bracket@ =~= seq!['[']);
    last_position(body, &bracket)
}

/// Tags that have been read.
struct ReadTags {
    sources: Vec<MessageId>,
    files: Vec<FileSource>,
    status: Option<ClaimStatus>,
    superseded_by: Option<String>,
}

impl ReadTags {
    spec fn abs(&self) -> ClaimTags {
        ClaimTags {
            sources: contents(self.sources@),
            files: contents(self.files@),
            status: self.status,
            superseded_by: self.superseded_by.abs(),
        }
    }
}

/// Reads one tag; gives `None` where the key is not that of a tag.
fn read_tag(tags: ReadTags, key: &str, value: &str, line: usize) -> (r: (
    ReadTags,
    Option<Option<EntryParseError>>,
))
    ensures
        match r.1 {
            None => with_tag(tags.abs(), key@, value@, line) is None && r.0.abs() == tags.abs(),
            Some(Some(error)) => with_tag(tags.abs(), key@, value@, line) == Some(
                Err::<ClaimTags, EntryParseErrorAbs>(error.abs()),
            ),
            Some(None) => with_tag(tags.abs(), key@, value@, line) == Some(
                Ok::<ClaimTags, EntryParseErrorAbs>(r.0.abs()),
            ),
        },
{
    let mut tags: ReadTags = tags;
    let ghost before = tags.abs();
    if same_text(key, "src") {
        if tags.sources.len() > 0 {
            return (tags, Some(Some(EntryParseError::DuplicateTag { line, tag: "src" })));
        }
        match parse_source_list(value, line) {
            Ok(sources) => {
                tags.sources = sources;
            },
            Err(error) => {
                return (tags, Some(Some(error)));
            },
        }
        return (tags, Some(None));
    }
    if same_text(key, "file") {
        if tags.files.len() > 0 {
            return (tags, Some(Some(EntryParseError::DuplicateTag { line, tag: "file" })));
        }
        match parse_file_list(value, line) {
            Ok(files) => {
                tags.files = files;
            },
            Err(error) => {
                return (tags, Some(Some(error)));
            },
        }
        return (tags, Some(None));
    }
    if same_text(key, "status") {
        if tags.status.is_some() {
            return (tags, Some(Some(EntryParseError::DuplicateTag { line, tag: "status" })));
        }
        if same_text(value, "active") {
            tags.status = Some(ClaimStatus::Active);
        } else if same_text(value, "stale") {
            tags.status = Some(ClaimStatus::Stale);
        } else {
            return (
                tags,
                Some(Some(EntryParseError::UnknownStatus { line, value: value.to_owned() })),
            );
        }
        return (tags, Some(None));
    }
    if same_text(key, "superseded-by") {
        if tags.superseded_by.is_some() {
            return (
                tags,
                Some(Some(EntryParseError::DuplicateTag { line, tag: "superseded-by" })),
            );
        }
        if !is_valid_supersession_ref(value) {
            return (
                tags,
                Some(Some(EntryParseError::InvalidSupersededBy { line, value: value.to_owned() })),
            );
        }
        tags.superseded_by = Some(value.to_owned());
        return (tags, Some(None));
    }
    (tags, None)
}

/// Parse one `- <text> [tags]` bullet.
fn parse_claim_line(text: &str, line: usize) -> (r: Result<StoredClaim, EntryParseError>)
    ensures
        result_abs(r) == read_claim(text@, line),
{
    let rest: String = match strip_prefix(text, "- ") {
        Some(rest) => rest,
        None => {
            return Err(EntryParseError::MalformedClaimLine { line });
        },
    };
    let mut body: String = rest;
    let ghost whole = body@;
    let mut tags: ReadTags = ReadTags {
        sources: Vec::new(),
        files: Vec::new(),
        status: None,
        superseded_by: None,
    };
    proof {
        reveal_strlit("]");
        assert("]"@ =~= seq![']']);
        assert(tags.abs().sources =~= Seq::<Seq<char>>::empty());
        assert(tags.abs().files =~= Seq::<FileSourceAbs>::empty());
    }
    loop
        invariant
            "]"@ == seq![']'],
            read_tags(whole, no_tags(), line) == read_tags(body@, tags.abs(), line),
            without_prefix(text@, "- "@) == Some(whole),
        ensures
            read_tags(whole, no_tags(), line) == Ok::<(Seq<char>, ClaimTags), EntryParseErrorAbs>(
                (body@, tags.abs()),
            ),
        decreases body@.len(),
    {
        if !ends_with(body.as_str(), "]") {
            break ;
        }
        let chars: Vec<char> = chars_of(body.as_str());
        let start: usize = match find_opening_bracket(&chars) {
            Some(start) => start,
            None => {
                return Err(EntryParseError::MalformedClaimLine { line });
            },
        };
        proof {
            rfind_from_meaning(body@, seq!['['], body@.len() - 1);
            assert(body@.subrange(start as int, start + 1)[0] == '[');
            assert(body@.subrange(body@.len() - 1, body@.len() as int)[0] == ']');
        }
        let last: usize = chars.len() - 1;
        let content: String = text_of(&chars, start + 1, last);
        let (key, value): (String, String) = match split_once(content.as_str(), ": ") {
            Some(parts) => parts,
            None => {
                break ;
            },
        };
        let (next, outcome): (ReadTags, Option<Option<EntryParseError>>) = read_tag(
            tags,
            key.as_str(),
            value.as_str(),
            line,
        );
        tags = next;
        match outcome {
            None => {
                break ;
            },
            Some(Some(error)) => {
                return Err(error);
            },
            Some(None) => {},
        }
        let head: String = text_of(&chars, 0, start);
        proof {
            trimmed_end_facts(head@);
        }
        body = trim_end(head.as_str());
    }
    proof {
        trimmed_facts(body@);
    }
    let text: String = trim(body.as_str());
    if text.as_str().is_empty() {
        return Err(EntryParseError::MalformedClaimLine { line });
    }
    if tags.sources.len() == 0 && tags.files.len() == 0 {
        return Err(EntryParseError::UnsourcefulClaim { line });
    }
    Ok(
        StoredClaim {
            text,
            sources: tags.sources,
            files: tags.files,
            status: tags.status,
            superseded_by: tags.superseded_by,
        },
    )
}

/// What has been read of an entry.
struct ReadEntry {
    slug: Option<String>,
    created: Option<AgentRunId>,
    updated: Option<AgentRunId>,
    artifact: Option<String>,
    in_claims: bool,
    claims: Vec<StoredClaim>,
}

impl ReadEntry {
    spec fn abs(&self) -> EntryScan {
        EntryScan {
            slug: self.slug.abs(),
            created: self.created.abs(),
            updated: self.updated.abs(),
            artifact: self.artifact.abs(),
            in_claims: self.in_claims,
            claims: contents(self.claims@),
        }
    }

    fn field(&mut self, field: String, value: String, line: usize) -> (r: Result<
        (),
        EntryParseError,
    >)
        ensures
            match r {
                Ok(_) => scan_field(old(self).abs(), field@, value@, line) == Ok::<
                    EntryScan,
                    EntryParseErrorAbs,
                >(final(self).abs()),
                Err(error) => scan_field(old(self).abs(), field@, value@, line) == Err::<
                    EntryScan,
                    EntryParseErrorAbs,
                >(error.abs()),
            },
    {
        if same_text(field.as_str(), "slug") {
            if self.slug.is_some() {
                return Err(EntryParseError::DuplicateHeaderLine(line));
            }
            self.slug = Some(value);
        } else if same_text(field.as_str(), "created") {
            if self.created.is_some() {
                return Err(EntryParseError::DuplicateHeaderLine(line));
            }
            match AgentRunId::parse(value.as_str()) {
                Ok(run) => {
                    self.created = Some(run);
                },
                Err(_) => {
                    return Err(EntryParseError::InvalidRun { field, value });
                },
            }
        } else if same_text(field.as_str(), "updated") {
            if self.updated.is_some() {
                return Err(EntryParseError::DuplicateHeaderLine(line));
            }
            match AgentRunId::parse(value.as_str()) {
                Ok(run) => {
                    self.updated = Some(run);
                },
                Err(_) => {
                    return Err(EntryParseError::InvalidRun { field, value });
                },
            }
        } else if same_text(field.as_str(), "artifact") {
            if self.artifact.is_some() {
                return Err(EntryParseError::DuplicateHeaderLine(line));
            }
            self.artifact = Some(value);
        } else {
            return Err(EntryParseError::UnknownField { line, field });
        }
        Ok(())
    }

    fn line(&mut self, text: &str, line: usize) -> (r: Result<(), EntryParseError>)
        ensures
            match r {
                Ok(_) => scan_line(old(self).abs(), text@, line) == Ok::<
                    EntryScan,
                    EntryParseErrorAbs,
                >(final(self).abs()),
                Err(error) => scan_line(old(self).abs(), text@, line) == Err::<
                    EntryScan,
                    EntryParseErrorAbs,
                >(error.abs()),
            },
    {
        broadcast use contents_push;

        if text.is_empty() {
            return Ok(());
        }
        if self.in_claims {
            match parse_claim_line(text, line) {
                Ok(claim) => {
                    self.claims.push(claim);
                },
                Err(error) => {
                    return Err(error);
                },
            }
            return Ok(());
        }
        if same_text(text, "## Claims") {
            self.in_claims = true;
            return Ok(());
        }
        if let Some(rest) = strip_prefix(text, "- ") {
            if let Some((field, value)) = split_once(rest.as_str(), ": ") {
                return self.field(field, value, line);
            }
        }
        Err(EntryParseError::UnexpectedLine { line, text: text.to_owned() })
    }
}

/// Parse one entry file. Exact wording of claim text and all tags is
/// preserved.
pub fn parse_entry(text: &str) -> (r: Result<MemoryEntry, EntryParseError>)
    ensures
        result_abs(r) == read_entry(text@),
{
    let all: Vec<String> = lines(text);
    let ghost view = lines_of(text@);
    if all.len() == 0 {
        return Err(EntryParseError::MissingTitle);
    }
    assert(view[0] == all@[0]@);
    let title: String = match strip_prefix(all[0].as_str(), "# ") {
        Some(title) => title,
        None => {
            return Err(EntryParseError::MissingTitle);
        },
    };
    if title.as_str().is_empty() {
        return Err(EntryParseError::EmptyTitle);
    }
    let mut read: ReadEntry = ReadEntry {
        slug: None,
        created: None,
        updated: None,
        artifact: None,
        in_claims: false,
        claims: Vec::new(),
    };
    assert(read.abs().claims =~= Seq::<StoredClaimAbs>::empty());
    let mut i: usize = 1;
    while i < all.len()
        invariant
            1 <= i <= all@.len(),
            view == lines_of(text@),
            contents(all@) == view,
            without_prefix(view[0], "# "@) == Some(title@),
            title@.len() > 0,
            scan_lines(view, i as int) == Ok::<EntryScan, EntryParseErrorAbs>(read.abs()),
        decreases all@.len() - i,
    {
        assert(view[i as int] == all@[i as int]@);
        match read.line(all[i].as_str(), i + 1) {
            Ok(_) => {},
            Err(error) => {
                proof {
                    lemma_scan_fails(view, i + 1, view.len() as int);
                }
                return Err(error);
            },
        }
        i += 1;
    }
    if !read.in_claims {
        return Err(EntryParseError::MissingClaimsSection);
    }
    let slug: String = match read.slug {
        Some(slug) => slug,
        None => {
            return Err(EntryParseError::MissingField { field: "slug".to_owned() });
        },
    };
    if !is_valid_slug(slug.as_str()) {
        return Err(EntryParseError::InvalidSlug(slug));
    }
    let created: AgentRunId = match read.created {
        Some(created) => created,
        None => {
            return Err(EntryParseError::MissingField { field: "created".to_owned() });
        },
    };
    let updated: AgentRunId = match read.updated {
        Some(updated) => updated,
        None => {
            return Err(EntryParseError::MissingField { field: "updated".to_owned() });
        },
    };
    Ok(
        MemoryEntry {
            title,
            slug,
            created,
            updated,
            artifact: read.artifact,
            claims: read.claims,
        },
    )
}

} // verus!
