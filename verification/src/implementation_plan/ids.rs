//! The identities, texts and paths that an implementation plan is made of.

use std::str::FromStr;

use vstd::prelude::*;
use vstd::string::*;

use super::{MAX_PATH_BYTES, MAX_TEXT_BYTES};
use crate::correlation_id::{
    fresh_uuid, hyphenated, hyphenated_text, identified, identity_round_trip, identity_text,
    identity_text_is_unique, is_version7, parse_uuid, same_bytes, ParseIdError,
};
use crate::digest::{digest_in, digest_text, parse_digest, render_digest, same_digest};
use crate::hex::{all_lower_hex, hex_of, push_hex};
use crate::text::{
    all_chars, byte_len, bytes_in, chars_of, contains_char, control, digit, is_control, is_digit,
    is_lower, is_lower_hex, lower, pieces, same_text, split,
};
use crate::value::{contents, Abstract};

verus! {

// ---------------------------------------------------------------------------
// Identities
// ---------------------------------------------------------------------------

/// The identity of a plan: a version 7 UUID without a prefix.
#[derive(Debug, Eq, Hash, Ord, PartialEq, PartialOrd)]
pub struct PlanId {
    bytes: [u8; 16],
}

impl PlanId {
    #[verifier::type_invariant]
    spec fn is_identity(self) -> bool {
        is_version7(self.bytes@)
    }

    pub closed spec fn view(&self) -> Seq<u8> {
        self.bytes@
    }

    /// The identity with those bytes of a UUID.
    pub fn new(value: [u8; 16]) -> (r: Result<PlanId, ParseIdError>)
        ensures
            match r {
                Ok(id) => is_version7(value@) && id@ == value@,
                Err(error) => !is_version7(value@) && error
                    == ParseIdError::UnsupportedUuidVersion,
            },
    {
        if value[6] / 16 != 7 {
            return Err(ParseIdError::UnsupportedUuidVersion);
        }
        Ok(PlanId { bytes: value })
    }

    /// A fresh identity.
    pub fn generate() -> (r: PlanId)
        ensures
            is_version7(r@),
    {
        PlanId { bytes: fresh_uuid() }
    }

    pub fn as_bytes(&self) -> (r: &[u8; 16])
        ensures
            r@ == self@,
            is_version7(r@),
    {
        proof {
            use_type_invariant(self);
        }
        &self.bytes
    }

    pub fn from_bytes(bytes: [u8; 16]) -> (r: Result<PlanId, ParseIdError>)
        ensures
            match r {
                Ok(id) => is_version7(bytes@) && id@ == bytes@,
                Err(error) => !is_version7(bytes@) && error
                    == ParseIdError::UnsupportedUuidVersion,
            },
    {
        PlanId::new(bytes)
    }

    /// The identity with that text.
    pub fn parse(value: &str) -> (r: Result<PlanId, ParseIdError>)
        ensures
            match r {
                Ok(id) => identified(value@, "") == Ok::<Seq<u8>, ParseIdError>(id@),
                Err(error) => identified(value@, "") == Err::<Seq<u8>, ParseIdError>(error),
            },
    {
        match parse_uuid(value, "") {
            Ok(bytes) => {
                proof {
                    identity_text_is_unique(value@, "");
                }
                Ok(PlanId { bytes })
            },
            Err(error) => Err(error),
        }
    }

    pub fn to_string(&self) -> (r: String)
        ensures
            r@ == hyphenated(self@),
    {
        hyphenated_text(&self.bytes)
    }
}

/// The text of a plan's identity is read back as that identity.
pub proof fn plan_id_round_trip(bytes: Seq<u8>)
    requires
        bytes.len() == 16,
        is_version7(bytes),
    ensures
        identified(hyphenated(bytes), "") == Ok::<Seq<u8>, ParseIdError>(bytes),
{
    identity_round_trip("", bytes);
    reveal_strlit("");
    assert(identity_text("", bytes) =~= hyphenated(bytes));
}

impl Clone for PlanId {
    fn clone(&self) -> (r: PlanId)
        ensures
            r@ == self@,
    {
        self.duplicate()
    }
}

impl FromStr for PlanId {
    type Err = ParseIdError;

    fn from_str(value: &str) -> Result<PlanId, ParseIdError> {
        PlanId::parse(value)
    }
}

impl Abstract for PlanId {
    type Abs = Seq<u8>;

    open spec fn abs(&self) -> Seq<u8> {
        self@
    }

    fn duplicate(&self) -> PlanId {
        proof {
            use_type_invariant(self);
        }
        PlanId { bytes: self.bytes }
    }

    fn same(&self, other: &PlanId) -> bool {
        same_bytes(&self.bytes, &other.bytes)
    }
}

/// The SHA-256 digest of a plan, or of something that a plan refers to.
#[derive(Clone, Copy, Debug, Eq, Hash, Ord, PartialEq, PartialOrd)]
pub struct PlanDigest {
    bytes: [u8; 32],
}

impl PlanDigest {
    pub closed spec fn view(&self) -> Seq<u8> {
        self.bytes@
    }

    pub fn from_bytes(value: [u8; 32]) -> (r: PlanDigest)
        ensures
            r@ == value@,
    {
        PlanDigest { bytes: value }
    }

    pub fn as_bytes(&self) -> (r: &[u8; 32])
        ensures
            r@ == self@,
    {
        &self.bytes
    }

    /// The digest in hexadecimal digits.
    pub fn hex(&self) -> (r: String)
        ensures
            r@ == hex_of(self@),
    {
        let mut out: String = String::new();
        push_hex(&mut out, &self.bytes);
        assert(Seq::<char>::empty() + hex_of(self@) =~= hex_of(self@));
        out
    }

    /// The digest with that text.
    pub fn parse(value: &str) -> (r: Result<PlanDigest, &'static str>)
        ensures
            match r {
                Ok(digest) => digest_in(value@) == Ok::<Seq<u8>, &'static str>(digest@),
                Err(error) => digest_in(value@) == Err::<Seq<u8>, &'static str>(error),
            },
    {
        match parse_digest(value) {
            Ok(bytes) => Ok(PlanDigest { bytes }),
            Err(error) => Err(error),
        }
    }

    pub fn to_string(&self) -> (r: String)
        ensures
            r@ == digest_text(self@),
    {
        render_digest(&self.bytes)
    }
}

impl FromStr for PlanDigest {
    type Err = &'static str;

    fn from_str(value: &str) -> Result<PlanDigest, &'static str> {
        PlanDigest::parse(value)
    }
}

impl Abstract for PlanDigest {
    type Abs = Seq<u8>;

    open spec fn abs(&self) -> Seq<u8> {
        self@
    }

    fn duplicate(&self) -> PlanDigest {
        *self
    }

    fn same(&self, other: &PlanDigest) -> bool {
        same_digest(&self.bytes, &other.bytes)
    }
}

// ---------------------------------------------------------------------------
// Texts
// ---------------------------------------------------------------------------

/// Text of a plan: not empty, bounded, and without control characters except
/// newline and tab.
pub open spec fn is_plan_text(s: Seq<char>) -> bool {
    0 < s.len() && byte_len(s) <= MAX_TEXT_BYTES && all_chars(
        s,
        |c: char| !is_control(c) || c == '\n' || c == '\t',
    )
}

fn valid_plan_text(value: &str) -> (b: bool)
    ensures
        b == is_plan_text(value@),
{
    if value.is_empty() || bytes_in(value) > MAX_TEXT_BYTES {
        return false;
    }
    let chars: Vec<char> = chars_of(value);
    let mut i: usize = 0;
    while i < chars.len()
        invariant
            i <= chars@.len(),
            chars@ == value@,
            forall|k: int|
                0 <= k < i ==> !is_control(#[trigger] chars@[k]) || chars@[k] == '\n' || chars@[k]
                    == '\t',
        decreases chars@.len() - i,
    {
        if control(chars[i]) && chars[i] != '\n' && chars[i] != '\t' {
            return false;
        }
        i += 1;
    }
    true
}

/// Text of a plan.
#[derive(Debug, Eq, Hash, Ord, PartialEq, PartialOrd)]
pub struct PlanText {
    text: String,
}

impl PlanText {
    #[verifier::type_invariant]
    spec fn is_text(self) -> bool {
        is_plan_text(self.text@)
    }

    pub closed spec fn view(&self) -> Seq<char> {
        self.text@
    }

    pub fn new(value: &str) -> (r: Result<PlanText, &'static str>)
        ensures
            match r {
                Ok(made) => is_plan_text(value@) && made@ == value@,
                Err(error) => !is_plan_text(value@) && error
                    == "text must be non-empty, bounded, and contain no control characters except newline and tab",
            },
    {
        if valid_plan_text(value) {
            Ok(PlanText { text: value.to_owned() })
        } else {
            Err(
                "text must be non-empty, bounded, and contain no control characters except newline and tab",
            )
        }
    }

    pub fn as_str(&self) -> (r: &str)
        ensures
            r@ == self@,
            is_plan_text(r@),
    {
        proof {
            use_type_invariant(self);
        }
        self.text.as_str()
    }

    pub fn to_string(&self) -> (r: String)
        ensures
            r@ == self@,
    {
        self.text.clone()
    }
}

impl Clone for PlanText {
    fn clone(&self) -> (r: PlanText)
        ensures
            r@ == self@,
    {
        self.duplicate()
    }
}

impl Abstract for PlanText {
    type Abs = Seq<char>;

    open spec fn abs(&self) -> Seq<char> {
        self@
    }

    fn duplicate(&self) -> PlanText {
        proof {
            use_type_invariant(self);
        }
        PlanText { text: self.text.clone() }
    }

    fn same(&self, other: &PlanText) -> bool {
        self.text == other.text
    }
}

/// The characters of the ID of a plan item.
pub open spec fn is_item_char(c: char) -> bool {
    is_lower(c) || is_digit(c) || c == '-' || c == '_' || c == '.'
}

/// The ID of a plan item: a bounded lowercase identifier.
pub open spec fn is_item_id(s: Seq<char>) -> bool {
    0 < s.len() <= 128 && is_lower(s[0]) && all_chars(s, |c: char| is_item_char(c))
}

fn valid_item_id(value: &str) -> (b: bool)
    ensures
        b == is_item_id(value@),
{
    let chars: Vec<char> = chars_of(value);
    if chars.len() == 0 || chars.len() > 128 || !lower(chars[0]) {
        return false;
    }
    let mut i: usize = 0;
    while i < chars.len()
        invariant
            i <= chars@.len(),
            chars@ == value@,
            forall|k: int| 0 <= k < i ==> is_item_char(#[trigger] chars@[k]),
        decreases chars@.len() - i,
    {
        let c: char = chars[i];
        if !(lower(c) || digit(c) || c == '-' || c == '_' || c == '.') {
            return false;
        }
        i += 1;
    }
    true
}

/// The ID of a plan item.
#[derive(Debug, Eq, Hash, Ord, PartialEq, PartialOrd)]
pub struct PlanItemId {
    text: String,
}

impl PlanItemId {
    #[verifier::type_invariant]
    spec fn is_id(self) -> bool {
        is_item_id(self.text@)
    }

    pub closed spec fn view(&self) -> Seq<char> {
        self.text@
    }

    pub fn new(value: &str) -> (r: Result<PlanItemId, &'static str>)
        ensures
            match r {
                Ok(made) => is_item_id(value@) && made@ == value@,
                Err(error) => !is_item_id(value@) && error
                    == "ID must be a bounded lowercase identifier",
            },
    {
        if valid_item_id(value) {
            Ok(PlanItemId { text: value.to_owned() })
        } else {
            Err("ID must be a bounded lowercase identifier")
        }
    }

    pub fn as_str(&self) -> (r: &str)
        ensures
            r@ == self@,
            is_item_id(r@),
    {
        proof {
            use_type_invariant(self);
        }
        self.text.as_str()
    }

    pub fn to_string(&self) -> (r: String)
        ensures
            r@ == self@,
    {
        self.text.clone()
    }
}

impl Clone for PlanItemId {
    fn clone(&self) -> (r: PlanItemId)
        ensures
            r@ == self@,
    {
        self.duplicate()
    }
}

impl Abstract for PlanItemId {
    type Abs = Seq<char>;

    open spec fn abs(&self) -> Seq<char> {
        self@
    }

    fn duplicate(&self) -> PlanItemId {
        proof {
            use_type_invariant(self);
        }
        PlanItemId { text: self.text.clone() }
    }

    fn same(&self, other: &PlanItemId) -> bool {
        self.text == other.text
    }
}

pub type EvidenceId = PlanItemId;

pub type DecisionId = PlanItemId;

pub type InvariantId = PlanItemId;

pub type SliceId = PlanItemId;

pub type ReadRequirementId = PlanItemId;

pub type ConditionalReadId = PlanItemId;

pub type StepId = PlanItemId;

pub type CheckId = PlanItemId;

pub type OpenDecisionId = PlanItemId;

// ---------------------------------------------------------------------------
// Paths and commits
// ---------------------------------------------------------------------------

/// Whether a path goes down from the workspace root segment by segment: it
/// does not begin at a root, it has no empty segment, it never goes up, and it
/// does not begin with the current directory.
pub open spec fn descends(s: Seq<char>) -> bool {
    let segments = pieces(s, '/');
    &&& segments[0] != "."@
    &&& forall|i: int|
        0 <= i < segments.len() ==> (#[trigger] segments[i]).len() > 0 && segments[i] != ".."@
}

/// Why a text is not a path within a workspace.
pub open spec fn workspace_path_failure(s: Seq<char>) -> Option<&'static str> {
    if s.len() == 0 || byte_len(s) > MAX_PATH_BYTES || s.contains('\\') {
        Some("workspace path must be non-empty, bounded, and use '/' separators")
    } else if s != "."@ && !descends(s) {
        Some("workspace path must be relative and contain no traversal")
    } else {
        None
    }
}

/// A path within a workspace; `.` is its root.
pub open spec fn is_workspace_path(s: Seq<char>) -> bool {
    workspace_path_failure(s) is None
}

fn path_descends(value: &str) -> (b: bool)
    ensures
        b == descends(value@),
{
    let parts: Vec<String> = split(value, '/');
    let ghost segments = pieces(value@, '/');
    assert(segments[0] == parts@[0]@);
    if same_text(parts[0].as_str(), ".") {
        return false;
    }
    let mut i: usize = 0;
    while i < parts.len()
        invariant
            i <= parts@.len(),
            contents(parts@) == segments,
            segments == pieces(value@, '/'),
            forall|k: int|
                0 <= k < i ==> (#[trigger] segments[k]).len() > 0 && segments[k] != ".."@,
        decreases parts@.len() - i,
    {
        assert(segments[i as int] == parts@[i as int]@);
        if parts[i].as_str().is_empty() || same_text(parts[i].as_str(), "..") {
            return false;
        }
        i += 1;
    }
    true
}

/// Why a text is not a path within a workspace.
fn check_workspace_path(value: &str) -> (r: Option<&'static str>)
    ensures
        r == workspace_path_failure(value@),
{
    if value.is_empty() || bytes_in(value) > MAX_PATH_BYTES || contains_char(value, '\\') {
        return Some("workspace path must be non-empty, bounded, and use '/' separators");
    }
    if !same_text(value, ".") && !path_descends(value) {
        return Some("workspace path must be relative and contain no traversal");
    }
    None
}

/// A path within a workspace; `.` is its root.
#[derive(Debug, Eq, Hash, Ord, PartialEq, PartialOrd)]
pub struct WorkspacePath {
    text: String,
}

impl WorkspacePath {
    #[verifier::type_invariant]
    spec fn is_path(self) -> bool {
        is_workspace_path(self.text@)
    }

    pub closed spec fn view(&self) -> Seq<char> {
        self.text@
    }

    pub fn new(value: &str) -> (r: Result<WorkspacePath, &'static str>)
        ensures
            match r {
                Ok(path) => is_workspace_path(value@) && path@ == value@,
                Err(error) => workspace_path_failure(value@) == Some(error),
            },
    {
        match check_workspace_path(value) {
            Some(error) => Err(error),
            None => Ok(WorkspacePath { text: value.to_owned() }),
        }
    }

    pub fn as_str(&self) -> (r: &str)
        ensures
            r@ == self@,
            is_workspace_path(r@),
    {
        proof {
            use_type_invariant(self);
        }
        self.text.as_str()
    }

    pub fn to_string(&self) -> (r: String)
        ensures
            r@ == self@,
    {
        self.text.clone()
    }
}

impl Clone for WorkspacePath {
    fn clone(&self) -> (r: WorkspacePath)
        ensures
            r@ == self@,
    {
        self.duplicate()
    }
}

impl Abstract for WorkspacePath {
    type Abs = Seq<char>;

    open spec fn abs(&self) -> Seq<char> {
        self@
    }

    fn duplicate(&self) -> WorkspacePath {
        proof {
            use_type_invariant(self);
        }
        WorkspacePath { text: self.text.clone() }
    }

    fn same(&self, other: &WorkspacePath) -> bool {
        self.text == other.text
    }
}

/// The name of a commit: a lowercase SHA-1 or SHA-256.
pub open spec fn is_commit(s: Seq<char>) -> bool {
    (s.len() == 40 || s.len() == 64) && forall|j: int|
        0 <= j < s.len() ==> is_lower_hex(#[trigger] s[j])
}

fn valid_commit(value: &str) -> (b: bool)
    ensures
        b == is_commit(value@),
{
    let chars: Vec<char> = chars_of(value);
    (chars.len() == 40 || chars.len() == 64) && all_lower_hex(&chars, 0)
}

/// The name of a commit.
#[derive(Debug, Eq, Hash, Ord, PartialEq, PartialOrd)]
pub struct GitCommit {
    text: String,
}

impl GitCommit {
    #[verifier::type_invariant]
    spec fn is_name(self) -> bool {
        is_commit(self.text@)
    }

    pub closed spec fn view(&self) -> Seq<char> {
        self.text@
    }

    pub fn new(value: &str) -> (r: Result<GitCommit, &'static str>)
        ensures
            match r {
                Ok(made) => is_commit(value@) && made@ == value@,
                Err(error) => !is_commit(value@) && error
                    == "git commit must be lowercase SHA-1 or SHA-256",
            },
    {
        if valid_commit(value) {
            Ok(GitCommit { text: value.to_owned() })
        } else {
            Err("git commit must be lowercase SHA-1 or SHA-256")
        }
    }

    pub fn as_str(&self) -> (r: &str)
        ensures
            r@ == self@,
            is_commit(r@),
    {
        proof {
            use_type_invariant(self);
        }
        self.text.as_str()
    }

    pub fn to_string(&self) -> (r: String)
        ensures
            r@ == self@,
    {
        self.text.clone()
    }
}

impl Clone for GitCommit {
    fn clone(&self) -> (r: GitCommit)
        ensures
            r@ == self@,
    {
        self.duplicate()
    }
}

impl Abstract for GitCommit {
    type Abs = Seq<char>;

    open spec fn abs(&self) -> Seq<char> {
        self@
    }

    fn duplicate(&self) -> GitCommit {
        proof {
            use_type_invariant(self);
        }
        GitCommit { text: self.text.clone() }
    }

    fn same(&self, other: &GitCommit) -> bool {
        self.text == other.text
    }
}

} // verus!
