//! Agent runs: what they are admitted with, and how far they have come.

use std::str::FromStr;

use vstd::prelude::*;
use vstd::string::*;
use vstd::utf8::*;

use super::event::AgentEventId;
use super::inference::{ModelRuntimeSelection, ModelRuntimeSelectionAbs, ReasoningEffort};
use super::operation::{
    AgentOperationFailureKind, AgentOperationKey, AgentOperationKeyAbs, ToolCall, ToolCallAbs,
};
use crate::content::{content_failure, Content};
use crate::correlation_id::{AgentRunId, ConversationId, MessageId};
use crate::digest::{
    digest_in, digest_text, parse_digest, render_digest, same_digest, sha256, sha256_of,
};
use crate::effect::AuthorityGrantSet;
use crate::ids::{ExtensionId, ToolId};
use crate::json::Json;
use crate::num::NonZeroU32;
use crate::package::{copy_bytes, push_bytes, PackageId, PackageVersion};
use crate::text::{begins, pieces, same_text, split, starts_with};
use crate::tool::ToolDefinition;
use crate::value::{contents, contents_push, Abstract};
use crate::written::Written;

verus! {

/// The largest tool result, in bytes.
pub const MAX_TOOL_RESULT_BYTES: u64 = 65_536;

/// The digest of a package or of one of its files.
#[derive(Clone, Copy, Debug, Eq, Hash, Ord, PartialEq, PartialOrd)]
pub struct PackageDigest {
    bytes: [u8; 32],
}

impl PackageDigest {
    pub closed spec fn view(&self) -> Seq<u8> {
        self.bytes@
    }

    pub fn from_bytes(bytes: [u8; 32]) -> (r: PackageDigest)
        ensures
            r@ == bytes@,
    {
        PackageDigest { bytes }
    }

    pub fn as_bytes(&self) -> (r: &[u8; 32])
        ensures
            r@ == self@,
    {
        &self.bytes
    }

    /// The digest with that text.
    pub fn parse(value: &str) -> (r: Result<PackageDigest, &'static str>)
        ensures
            match r {
                Ok(digest) => digest_in(value@) == Ok::<Seq<u8>, &'static str>(digest@),
                Err(error) => digest_in(value@) == Err::<Seq<u8>, &'static str>(error),
            },
    {
        match parse_digest(value) {
            Ok(bytes) => Ok(PackageDigest { bytes }),
            Err(error) => Err(error),
        }
    }

    pub fn to_string(&self) -> (r: String)
        ensures
            r@ == digest_text(self@),
            self@.len() == 32,
    {
        render_digest(&self.bytes)
    }
}

impl FromStr for PackageDigest {
    type Err = &'static str;

    fn from_str(value: &str) -> Result<PackageDigest, &'static str> {
        PackageDigest::parse(value)
    }
}

impl Abstract for PackageDigest {
    type Abs = Seq<u8>;

    open spec fn abs(&self) -> Seq<u8> {
        self@
    }

    fn duplicate(&self) -> PackageDigest {
        *self
    }

    fn same(&self, other: &PackageDigest) -> bool {
        same_digest(&self.bytes, &other.bytes)
    }
}

/// The digest of an instruction set.
#[derive(Clone, Copy, Debug, Eq, Hash, Ord, PartialEq, PartialOrd)]
pub struct InstructionDigest {
    bytes: [u8; 32],
}

impl InstructionDigest {
    pub closed spec fn view(&self) -> Seq<u8> {
        self.bytes@
    }

    pub fn from_bytes(bytes: [u8; 32]) -> (r: InstructionDigest)
        ensures
            r@ == bytes@,
    {
        InstructionDigest { bytes }
    }

    pub fn as_bytes(&self) -> (r: &[u8; 32])
        ensures
            r@ == self@,
    {
        &self.bytes
    }

    /// The digest with that text.
    pub fn parse(value: &str) -> (r: Result<InstructionDigest, &'static str>)
        ensures
            match r {
                Ok(digest) => digest_in(value@) == Ok::<Seq<u8>, &'static str>(digest@),
                Err(error) => digest_in(value@) == Err::<Seq<u8>, &'static str>(error),
            },
    {
        match parse_digest(value) {
            Ok(bytes) => Ok(InstructionDigest { bytes }),
            Err(error) => Err(error),
        }
    }

    pub fn to_string(&self) -> (r: String)
        ensures
            r@ == digest_text(self@),
            self@.len() == 32,
    {
        render_digest(&self.bytes)
    }
}

impl FromStr for InstructionDigest {
    type Err = &'static str;

    fn from_str(value: &str) -> Result<InstructionDigest, &'static str> {
        InstructionDigest::parse(value)
    }
}

impl Abstract for InstructionDigest {
    type Abs = Seq<u8>;

    open spec fn abs(&self) -> Seq<u8> {
        self@
    }

    fn duplicate(&self) -> InstructionDigest {
        *self
    }

    fn same(&self, other: &InstructionDigest) -> bool {
        same_digest(&self.bytes, &other.bytes)
    }
}

/// The digest of a tool definition.
#[derive(Clone, Copy, Debug, Eq, Hash, Ord, PartialEq, PartialOrd)]
pub struct ToolDefinitionDigest {
    bytes: [u8; 32],
}

impl ToolDefinitionDigest {
    pub closed spec fn view(&self) -> Seq<u8> {
        self.bytes@
    }

    pub fn from_bytes(bytes: [u8; 32]) -> (r: ToolDefinitionDigest)
        ensures
            r@ == bytes@,
    {
        ToolDefinitionDigest { bytes }
    }

    pub fn as_bytes(&self) -> (r: &[u8; 32])
        ensures
            r@ == self@,
    {
        &self.bytes
    }

    /// The digest with that text.
    pub fn parse(value: &str) -> (r: Result<ToolDefinitionDigest, &'static str>)
        ensures
            match r {
                Ok(digest) => digest_in(value@) == Ok::<Seq<u8>, &'static str>(digest@),
                Err(error) => digest_in(value@) == Err::<Seq<u8>, &'static str>(error),
            },
    {
        match parse_digest(value) {
            Ok(bytes) => Ok(ToolDefinitionDigest { bytes }),
            Err(error) => Err(error),
        }
    }

    pub fn to_string(&self) -> (r: String)
        ensures
            r@ == digest_text(self@),
            self@.len() == 32,
    {
        render_digest(&self.bytes)
    }
}

impl FromStr for ToolDefinitionDigest {
    type Err = &'static str;

    fn from_str(value: &str) -> Result<ToolDefinitionDigest, &'static str> {
        ToolDefinitionDigest::parse(value)
    }
}

impl Abstract for ToolDefinitionDigest {
    type Abs = Seq<u8>;

    open spec fn abs(&self) -> Seq<u8> {
        self@
    }

    fn duplicate(&self) -> ToolDefinitionDigest {
        *self
    }

    fn same(&self, other: &ToolDefinitionDigest) -> bool {
        same_digest(&self.bytes, &other.bytes)
    }
}

/// The digest of an extension definition.
#[derive(Clone, Copy, Debug, Eq, Hash, Ord, PartialEq, PartialOrd)]
pub struct ExtensionDefinitionDigest {
    bytes: [u8; 32],
}

impl ExtensionDefinitionDigest {
    pub closed spec fn view(&self) -> Seq<u8> {
        self.bytes@
    }

    pub fn from_bytes(bytes: [u8; 32]) -> (r: ExtensionDefinitionDigest)
        ensures
            r@ == bytes@,
    {
        ExtensionDefinitionDigest { bytes }
    }

    pub fn as_bytes(&self) -> (r: &[u8; 32])
        ensures
            r@ == self@,
    {
        &self.bytes
    }

    /// The digest with that text.
    pub fn parse(value: &str) -> (r: Result<ExtensionDefinitionDigest, &'static str>)
        ensures
            match r {
                Ok(digest) => digest_in(value@) == Ok::<Seq<u8>, &'static str>(digest@),
                Err(error) => digest_in(value@) == Err::<Seq<u8>, &'static str>(error),
            },
    {
        match parse_digest(value) {
            Ok(bytes) => Ok(ExtensionDefinitionDigest { bytes }),
            Err(error) => Err(error),
        }
    }

    pub fn to_string(&self) -> (r: String)
        ensures
            r@ == digest_text(self@),
            self@.len() == 32,
    {
        render_digest(&self.bytes)
    }
}

impl FromStr for ExtensionDefinitionDigest {
    type Err = &'static str;

    fn from_str(value: &str) -> Result<ExtensionDefinitionDigest, &'static str> {
        ExtensionDefinitionDigest::parse(value)
    }
}

impl Abstract for ExtensionDefinitionDigest {
    type Abs = Seq<u8>;

    open spec fn abs(&self) -> Seq<u8> {
        self@
    }

    fn duplicate(&self) -> ExtensionDefinitionDigest {
        *self
    }

    fn same(&self, other: &ExtensionDefinitionDigest) -> bool {
        same_digest(&self.bytes, &other.bytes)
    }
}

/// The digest of a runtime profile.
#[derive(Clone, Copy, Debug, Eq, Hash, Ord, PartialEq, PartialOrd)]
pub struct InferenceRuntimeProfileDigest {
    bytes: [u8; 32],
}

impl InferenceRuntimeProfileDigest {
    pub closed spec fn view(&self) -> Seq<u8> {
        self.bytes@
    }

    pub fn from_bytes(bytes: [u8; 32]) -> (r: InferenceRuntimeProfileDigest)
        ensures
            r@ == bytes@,
    {
        InferenceRuntimeProfileDigest { bytes }
    }

    pub fn as_bytes(&self) -> (r: &[u8; 32])
        ensures
            r@ == self@,
    {
        &self.bytes
    }

    /// The digest with that text.
    pub fn parse(value: &str) -> (r: Result<InferenceRuntimeProfileDigest, &'static str>)
        ensures
            match r {
                Ok(digest) => digest_in(value@) == Ok::<Seq<u8>, &'static str>(digest@),
                Err(error) => digest_in(value@) == Err::<Seq<u8>, &'static str>(error),
            },
    {
        match parse_digest(value) {
            Ok(bytes) => Ok(InferenceRuntimeProfileDigest { bytes }),
            Err(error) => Err(error),
        }
    }

    pub fn to_string(&self) -> (r: String)
        ensures
            r@ == digest_text(self@),
            self@.len() == 32,
    {
        render_digest(&self.bytes)
    }
}

impl FromStr for InferenceRuntimeProfileDigest {
    type Err = &'static str;

    fn from_str(value: &str) -> Result<InferenceRuntimeProfileDigest, &'static str> {
        InferenceRuntimeProfileDigest::parse(value)
    }
}

impl Abstract for InferenceRuntimeProfileDigest {
    type Abs = Seq<u8>;

    open spec fn abs(&self) -> Seq<u8> {
        self@
    }

    fn duplicate(&self) -> InferenceRuntimeProfileDigest {
        *self
    }

    fn same(&self, other: &InferenceRuntimeProfileDigest) -> bool {
        same_digest(&self.bytes, &other.bytes)
    }
}

/// The digest of an engine build.
#[derive(Clone, Copy, Debug, Eq, Hash, Ord, PartialEq, PartialOrd)]
pub struct InferenceEngineBuildDigest {
    bytes: [u8; 32],
}

impl InferenceEngineBuildDigest {
    pub closed spec fn view(&self) -> Seq<u8> {
        self.bytes@
    }

    pub fn from_bytes(bytes: [u8; 32]) -> (r: InferenceEngineBuildDigest)
        ensures
            r@ == bytes@,
    {
        InferenceEngineBuildDigest { bytes }
    }

    pub fn as_bytes(&self) -> (r: &[u8; 32])
        ensures
            r@ == self@,
    {
        &self.bytes
    }

    /// The digest with that text.
    pub fn parse(value: &str) -> (r: Result<InferenceEngineBuildDigest, &'static str>)
        ensures
            match r {
                Ok(digest) => digest_in(value@) == Ok::<Seq<u8>, &'static str>(digest@),
                Err(error) => digest_in(value@) == Err::<Seq<u8>, &'static str>(error),
            },
    {
        match parse_digest(value) {
            Ok(bytes) => Ok(InferenceEngineBuildDigest { bytes }),
            Err(error) => Err(error),
        }
    }

    pub fn to_string(&self) -> (r: String)
        ensures
            r@ == digest_text(self@),
            self@.len() == 32,
    {
        render_digest(&self.bytes)
    }
}

impl FromStr for InferenceEngineBuildDigest {
    type Err = &'static str;

    fn from_str(value: &str) -> Result<InferenceEngineBuildDigest, &'static str> {
        InferenceEngineBuildDigest::parse(value)
    }
}

impl Abstract for InferenceEngineBuildDigest {
    type Abs = Seq<u8>;

    open spec fn abs(&self) -> Seq<u8> {
        self@
    }

    fn duplicate(&self) -> InferenceEngineBuildDigest {
        *self
    }

    fn same(&self, other: &InferenceEngineBuildDigest) -> bool {
        same_digest(&self.bytes, &other.bytes)
    }
}

/// The digest of the physical resources of an inference.
#[derive(Clone, Copy, Debug, Eq, Hash, Ord, PartialEq, PartialOrd)]
pub struct PhysicalResourceDigest {
    bytes: [u8; 32],
}

impl PhysicalResourceDigest {
    pub closed spec fn view(&self) -> Seq<u8> {
        self.bytes@
    }

    pub fn from_bytes(bytes: [u8; 32]) -> (r: PhysicalResourceDigest)
        ensures
            r@ == bytes@,
    {
        PhysicalResourceDigest { bytes }
    }

    pub fn as_bytes(&self) -> (r: &[u8; 32])
        ensures
            r@ == self@,
    {
        &self.bytes
    }

    /// The digest with that text.
    pub fn parse(value: &str) -> (r: Result<PhysicalResourceDigest, &'static str>)
        ensures
            match r {
                Ok(digest) => digest_in(value@) == Ok::<Seq<u8>, &'static str>(digest@),
                Err(error) => digest_in(value@) == Err::<Seq<u8>, &'static str>(error),
            },
    {
        match parse_digest(value) {
            Ok(bytes) => Ok(PhysicalResourceDigest { bytes }),
            Err(error) => Err(error),
        }
    }

    pub fn to_string(&self) -> (r: String)
        ensures
            r@ == digest_text(self@),
            self@.len() == 32,
    {
        render_digest(&self.bytes)
    }
}

impl FromStr for PhysicalResourceDigest {
    type Err = &'static str;

    fn from_str(value: &str) -> Result<PhysicalResourceDigest, &'static str> {
        PhysicalResourceDigest::parse(value)
    }
}

impl Abstract for PhysicalResourceDigest {
    type Abs = Seq<u8>;

    open spec fn abs(&self) -> Seq<u8> {
        self@
    }

    fn duplicate(&self) -> PhysicalResourceDigest {
        *self
    }

    fn same(&self, other: &PhysicalResourceDigest) -> bool {
        same_digest(&self.bytes, &other.bytes)
    }
}

/// An exact agent definition.
#[derive(Clone, Debug, Eq, PartialEq)]
pub struct AgentDefinitionRef {
    pub id: PackageId,
    pub version: PackageVersion,
    pub digest: PackageDigest,
}

/// The content of `AgentDefinitionRef`.
pub struct AgentDefinitionRefAbs {
    pub id: Seq<char>,
    pub version: Seq<char>,
    pub digest: Seq<u8>,
}

impl Abstract for AgentDefinitionRef {
    type Abs = AgentDefinitionRefAbs;

    open spec fn abs(&self) -> AgentDefinitionRefAbs {
        AgentDefinitionRefAbs {
            id: self.id.abs(),
            version: self.version.abs(),
            digest: self.digest.abs(),
        }
    }

    fn duplicate(&self) -> AgentDefinitionRef {
        AgentDefinitionRef {
            id: self.id.duplicate(),
            version: self.version.duplicate(),
            digest: self.digest.duplicate(),
        }
    }

    fn same(&self, other: &AgentDefinitionRef) -> bool {
        self.id.same(&other.id) && self.version.same(&other.version)
            && self.digest.same(&other.digest)
    }
}

/// An exact skill definition.
#[derive(Clone, Debug, Eq, PartialEq)]
pub struct SkillDefinitionRef {
    pub id: PackageId,
    pub version: PackageVersion,
    pub digest: PackageDigest,
}

/// The content of `SkillDefinitionRef`.
pub struct SkillDefinitionRefAbs {
    pub id: Seq<char>,
    pub version: Seq<char>,
    pub digest: Seq<u8>,
}

impl Abstract for SkillDefinitionRef {
    type Abs = SkillDefinitionRefAbs;

    open spec fn abs(&self) -> SkillDefinitionRefAbs {
        SkillDefinitionRefAbs {
            id: self.id.abs(),
            version: self.version.abs(),
            digest: self.digest.abs(),
        }
    }

    fn duplicate(&self) -> SkillDefinitionRef {
        SkillDefinitionRef {
            id: self.id.duplicate(),
            version: self.version.duplicate(),
            digest: self.digest.duplicate(),
        }
    }

    fn same(&self, other: &SkillDefinitionRef) -> bool {
        self.id.same(&other.id) && self.version.same(&other.version)
            && self.digest.same(&other.digest)
    }
}

/// An exact model definition.
#[derive(Clone, Debug, Eq, PartialEq)]
pub struct ModelDefinitionRef {
    pub id: PackageId,
    pub version: PackageVersion,
    pub digest: PackageDigest,
}

/// The content of `ModelDefinitionRef`.
pub struct ModelDefinitionRefAbs {
    pub id: Seq<char>,
    pub version: Seq<char>,
    pub digest: Seq<u8>,
}

impl Abstract for ModelDefinitionRef {
    type Abs = ModelDefinitionRefAbs;

    open spec fn abs(&self) -> ModelDefinitionRefAbs {
        ModelDefinitionRefAbs {
            id: self.id.abs(),
            version: self.version.abs(),
            digest: self.digest.abs(),
        }
    }

    fn duplicate(&self) -> ModelDefinitionRef {
        ModelDefinitionRef {
            id: self.id.duplicate(),
            version: self.version.duplicate(),
            digest: self.digest.duplicate(),
        }
    }

    fn same(&self, other: &ModelDefinitionRef) -> bool {
        self.id.same(&other.id) && self.version.same(&other.version)
            && self.digest.same(&other.digest)
    }
}

/// An exact package.
#[derive(Clone, Debug, Eq, PartialEq)]
pub struct ExactPackageRef {
    pub id: PackageId,
    pub version: PackageVersion,
    pub digest: PackageDigest,
}

/// The content of `ExactPackageRef`.
pub struct ExactPackageRefAbs {
    pub id: Seq<char>,
    pub version: Seq<char>,
    pub digest: Seq<u8>,
}

impl Abstract for ExactPackageRef {
    type Abs = ExactPackageRefAbs;

    open spec fn abs(&self) -> ExactPackageRefAbs {
        ExactPackageRefAbs {
            id: self.id.abs(),
            version: self.version.abs(),
            digest: self.digest.abs(),
        }
    }

    fn duplicate(&self) -> ExactPackageRef {
        ExactPackageRef {
            id: self.id.duplicate(),
            version: self.version.duplicate(),
            digest: self.digest.duplicate(),
        }
    }

    fn same(&self, other: &ExactPackageRef) -> bool {
        self.id.same(&other.id) && self.version.same(&other.version)
            && self.digest.same(&other.digest)
    }
}

/// A model and the reasoning efforts that it offers.
#[derive(Clone, Debug, PartialEq)]
pub struct ModelSelection {
    pub model: ModelDefinitionRef,
    pub runtime: ModelRuntimeSelection,
    pub reasoning_efforts: Vec<ReasoningEffort>,
}

/// The content of `ModelSelection`.
pub struct ModelSelectionAbs {
    pub model: ModelDefinitionRefAbs,
    pub runtime: ModelRuntimeSelectionAbs,
    pub reasoning_efforts: Seq<ReasoningEffort>,
}

impl Abstract for ModelSelection {
    type Abs = ModelSelectionAbs;

    open spec fn abs(&self) -> ModelSelectionAbs {
        ModelSelectionAbs {
            model: self.model.abs(),
            runtime: self.runtime.abs(),
            reasoning_efforts: self.reasoning_efforts.abs(),
        }
    }

    fn duplicate(&self) -> ModelSelection {
        ModelSelection {
            model: self.model.duplicate(),
            runtime: self.runtime.duplicate(),
            reasoning_efforts: self.reasoning_efforts.duplicate(),
        }
    }

    fn same(&self, other: &ModelSelection) -> bool {
        self.model.same(&other.model) && self.runtime.same(&other.runtime)
            && self.reasoning_efforts.same(&other.reasoning_efforts)
    }
}

/// Where an instruction block comes from.
#[derive(Clone, Debug, Eq, PartialEq)]
pub enum InstructionSource {
    Agent,
    Skill(SkillDefinitionRef),
}

/// The content of `InstructionSource`.
pub enum InstructionSourceAbs {
    Agent,
    Skill(SkillDefinitionRefAbs),
}

impl Abstract for InstructionSource {
    type Abs = InstructionSourceAbs;

    open spec fn abs(&self) -> InstructionSourceAbs {
        match self {
            InstructionSource::Agent => InstructionSourceAbs::Agent,
            InstructionSource::Skill(skill) => InstructionSourceAbs::Skill(skill.abs()),
        }
    }

    fn duplicate(&self) -> InstructionSource {
        match self {
            InstructionSource::Agent => InstructionSource::Agent,
            InstructionSource::Skill(skill) => InstructionSource::Skill(skill.duplicate()),
        }
    }

    fn same(&self, other: &InstructionSource) -> bool {
        match (self, other) {
            (InstructionSource::Agent, InstructionSource::Agent) => true,
            (InstructionSource::Skill(left), InstructionSource::Skill(right)) => left.same(right),
            _ => false,
        }
    }
}

/// One block of instructions.
#[derive(Clone, Debug, Eq, PartialEq)]
pub struct InstructionBlock {
    pub source: InstructionSource,
    pub content: Content,
}

/// The content of `InstructionBlock`.
pub struct InstructionBlockAbs {
    pub source: InstructionSourceAbs,
    pub content: Seq<char>,
}

impl Abstract for InstructionBlock {
    type Abs = InstructionBlockAbs;

    open spec fn abs(&self) -> InstructionBlockAbs {
        InstructionBlockAbs { source: self.source.abs(), content: self.content.abs() }
    }

    fn duplicate(&self) -> InstructionBlock {
        InstructionBlock {
            source: self.source.duplicate(),
            content: self.content.duplicate(),
        }
    }

    fn same(&self, other: &InstructionBlock) -> bool {
        self.source.same(&other.source) && self.content.same(&other.content)
    }
}

/// The ordered instructions of a run, with their digest.
#[derive(Clone, Debug, Eq, PartialEq)]
pub struct InstructionSet {
    pub blocks: Vec<InstructionBlock>,
    pub digest: InstructionDigest,
}

/// The largest number of instruction blocks.
pub const MAX_INSTRUCTION_BLOCKS: usize = 256;

/// The largest encoded instruction set, in bytes.
pub const MAX_INSTRUCTION_BYTES: usize = 4_194_304;

/// The JSON text of some blocks.
pub open spec fn instructions_text(blocks: Seq<InstructionBlock>) -> Seq<char> {
    Vec::<InstructionBlock>::written(contents(blocks))
}

/// Why blocks are no instruction set, if they are none.
pub open spec fn instruction_failure(blocks: Seq<InstructionBlock>) -> Option<&'static str> {
    if blocks.len() > MAX_INSTRUCTION_BLOCKS {
        Some("instruction set exceeds 256 blocks")
    } else if exists|i: int|
        0 <= i < blocks.len() && content_failure(#[trigger] blocks[i].content@) is Some {
        Some("instruction block contains invalid Content")
    } else if encode_utf8(instructions_text(blocks)).len() > MAX_INSTRUCTION_BYTES {
        Some("instruction set exceeds 4 MiB")
    } else {
        None
    }
}

/// The digest of ordered blocks.
pub open spec fn instruction_digest(blocks: Seq<InstructionBlock>) -> Seq<u8> {
    sha256(
        encode_utf8("agentlibre.instructions.v1\0"@) + encode_utf8(instructions_text(blocks)),
    )
}

fn check_instructions(blocks: &Vec<InstructionBlock>) -> (r: Result<
    InstructionDigest,
    &'static str,
>)
    ensures
        match r {
            Ok(digest) => instruction_failure(blocks@) is None && digest@ == instruction_digest(
                blocks@,
            ),
            Err(error) => instruction_failure(blocks@) == Some(error),
        },
{
    if blocks.len() > MAX_INSTRUCTION_BLOCKS {
        return Err("instruction set exceeds 256 blocks");
    }
    let mut i: usize = 0;
    while i < blocks.len()
        invariant
            i <= blocks@.len() <= MAX_INSTRUCTION_BLOCKS,
            forall|k: int| 0 <= k < i ==> content_failure(#[trigger] blocks@[k].content@) is None,
        decreases blocks@.len() - i,
    {
        if blocks[i].content.validate().is_err() {
            assert(content_failure(blocks@[i as int].content@) is Some);
            return Err("instruction block contains invalid Content");
        }
        i += 1;
    }
    let text: String = blocks.write();
    let encoded: &[u8] = text.as_str().as_bytes();
    if encoded.len() > MAX_INSTRUCTION_BYTES {
        return Err("instruction set exceeds 4 MiB");
    }
    let mut hashed: Vec<u8> = copy_bytes("agentlibre.instructions.v1\0".as_bytes());
    push_bytes(&mut hashed, encoded);
    Ok(InstructionDigest::from_bytes(sha256_of(&hashed)))
}

/// Why a set is refused: its blocks are too many or too long, or the digest is
/// not theirs.
pub open spec fn instruction_set_failure(set: InstructionSet) -> Option<&'static str> {
    match instruction_failure(set.blocks@) {
        Some(error) => Some(error),
        None => if instruction_digest(set.blocks@) == set.digest@ {
            None
        } else {
            Some("instruction digest does not match ordered blocks")
        },
    }
}

impl InstructionSet {
    /// The set of those blocks, with the digest of their text. It is valid.
    pub fn new(blocks: Vec<InstructionBlock>) -> (r: Result<InstructionSet, &'static str>)
        ensures
            match r {
                Ok(set) => instruction_failure(blocks@) is None && set.blocks == blocks
                    && set.digest@ == instruction_digest(blocks@) && instruction_set_failure(
                    set,
                ) is None,
                Err(error) => instruction_failure(blocks@) == Some(error),
            },
    {
        match check_instructions(&blocks) {
            Ok(digest) => Ok(InstructionSet { blocks, digest }),
            Err(error) => Err(error),
        }
    }

    /// Whether the digest is that of the ordered blocks.
    pub fn validate(&self) -> (r: Result<(), &'static str>)
        ensures
            r == (match instruction_set_failure(*self) {
                Some(error) => Err::<(), &'static str>(error),
                None => Ok(()),
            }),
    {
        match check_instructions(&self.blocks) {
            Ok(digest) => if digest.same(&self.digest) {
                Ok(())
            } else {
                Err("instruction digest does not match ordered blocks")
            },
            Err(error) => Err(error),
        }
    }
}

/// Whether a path leads from the root.
pub open spec fn is_absolute_path(path: Seq<char>) -> bool {
    begins(path, seq!['/'])
}

/// Whether a path leads upwards somewhere.
pub open spec fn leads_up(path: Seq<char>) -> bool {
    exists|k: int| 0 <= k < pieces(path, '/').len() && #[trigger] pieces(path, '/')[k] == ".."@
}

/// The parts of a path, without empty ones and those that name the directory
/// that they are in.
pub open spec fn path_parts(pieces: Seq<Seq<char>>, n: int) -> Seq<Seq<char>>
    decreases n,
{
    if n <= 0 {
        Seq::empty()
    } else if pieces[n - 1].len() == 0 || pieces[n - 1] == "."@ {
        path_parts(pieces, n - 1)
    } else {
        path_parts(pieces, n - 1).push(pieces[n - 1])
    }
}

/// Whether two paths have the same components: they begin alike, at the root,
/// in the current directory or in neither, and have the same parts.
pub open spec fn equal_paths(left: Seq<char>, right: Seq<char>) -> bool {
    let a = pieces(left, '/');
    let b = pieces(right, '/');
    &&& is_absolute_path(left) == is_absolute_path(right)
    &&& (a[0] == "."@) == (b[0] == "."@)
    &&& path_parts(a, a.len() as int) == path_parts(b, b.len() as int)
}

fn parts_of(all: &Vec<String>) -> (r: Vec<String>)
    ensures
        contents(r@) == path_parts(contents(all@), all@.len() as int),
{
    broadcast use contents_push;

    let ghost view = contents(all@);
    let mut out: Vec<String> = Vec::new();
    let mut i: usize = 0;
    assert(contents(out@) =~= Seq::<Seq<char>>::empty());
    while i < all.len()
        invariant
            i <= all@.len(),
            view == contents(all@),
            contents(out@) == path_parts(view, i as int),
        decreases all@.len() - i,
    {
        assert(view[i as int] == all@[i as int]@);
        if !all[i].as_str().is_empty() && !same_text(all[i].as_str(), ".") {
            let part: String = all[i].duplicate();
            out.push(part);
        }
        i += 1;
    }
    out
}

/// Whether two paths have the same components.
pub(crate) fn paths_equal(left: &str, right: &str) -> (b: bool)
    ensures
        b == equal_paths(left@, right@),
{
    let a: Vec<String> = split(left, '/');
    let b: Vec<String> = split(right, '/');
    let ghost va = pieces(left@, '/');
    let ghost vb = pieces(right@, '/');
    assert(va[0] == a@[0]@ && vb[0] == b@[0]@);
    absolute(left) == absolute(right) && same_text(a[0].as_str(), ".") == same_text(
        b[0].as_str(),
        ".",
    ) && parts_of(&a).same(&parts_of(&b))
}

fn absolute(path: &str) -> (b: bool)
    ensures
        b == is_absolute_path(path@),
{
    proof {
        reveal_strlit("/");
        assert("/"@ =~= seq!['/']);
    }
    starts_with(path, "/")
}

/// An absolute path. Paths are equal by their components.
#[derive(Debug)]
pub struct AbsolutePath {
    text: String,
}

impl AbsolutePath {
    #[verifier::type_invariant]
    spec fn is_absolute(self) -> bool {
        is_absolute_path(self.text@)
    }

    pub closed spec fn view(&self) -> Seq<char> {
        self.text@
    }

    pub fn new(value: String) -> (r: Result<AbsolutePath, &'static str>)
        ensures
            match r {
                Ok(path) => is_absolute_path(value@) && path@ == value@,
                Err(error) => !is_absolute_path(value@) && error == "path must be absolute",
            },
    {
        if !absolute(value.as_str()) {
            return Err("path must be absolute");
        }
        Ok(AbsolutePath { text: value })
    }

    pub fn as_path(&self) -> (r: &str)
        ensures
            r@ == self@,
            is_absolute_path(r@),
    {
        proof {
            use_type_invariant(self);
        }
        self.text.as_str()
    }
}

impl PartialEq for AbsolutePath {
    fn eq(&self, other: &AbsolutePath) -> (r: bool) {
        paths_equal(self.text.as_str(), other.text.as_str())
    }
}

impl vstd::std_specs::cmp::PartialEqSpecImpl for AbsolutePath {
    open spec fn obeys_eq_spec() -> bool {
        true
    }

    open spec fn eq_spec(&self, other: &AbsolutePath) -> bool {
        equal_paths(self@, other@)
    }
}

impl Eq for AbsolutePath {

}

impl Clone for AbsolutePath {
    fn clone(&self) -> (r: AbsolutePath)
        ensures
            r@ == self@,
    {
        self.duplicate()
    }
}

impl Abstract for AbsolutePath {
    type Abs = Seq<char>;

    open spec fn abs(&self) -> Seq<char> {
        self@
    }

    fn duplicate(&self) -> AbsolutePath {
        proof {
            use_type_invariant(self);
        }
        AbsolutePath { text: self.text.clone() }
    }

    fn same(&self, other: &AbsolutePath) -> bool {
        self.text == other.text
    }
}

/// A relative path that does not lead upwards. Paths are equal by their
/// components.
#[derive(Debug)]
pub struct RelativePath {
    text: String,
}

impl RelativePath {
    #[verifier::type_invariant]
    spec fn is_contained(self) -> bool {
        !is_absolute_path(self.text@) && !leads_up(self.text@)
    }

    pub closed spec fn view(&self) -> Seq<char> {
        self.text@
    }

    pub fn new(value: String) -> (r: Result<RelativePath, &'static str>)
        ensures
            match r {
                Ok(path) => !is_absolute_path(value@) && !leads_up(value@) && path@ == value@,
                Err(error) => (is_absolute_path(value@) || leads_up(value@)) && error
                    == "path must be contained and relative",
            },
    {
        if absolute(value.as_str()) {
            return Err("path must be contained and relative");
        }
        let parts: Vec<String> = split(value.as_str(), '/');
        let mut i: usize = 0;
        while i < parts.len()
            invariant
                i <= parts@.len(),
                contents(parts@) == pieces(value@, '/'),
                forall|k: int| 0 <= k < i ==> #[trigger] pieces(value@, '/')[k] != ".."@,
            decreases parts@.len() - i,
        {
            assert(pieces(value@, '/')[i as int] == parts@[i as int]@);
            if same_text(parts[i].as_str(), "..") {
                return Err("path must be contained and relative");
            }
            i += 1;
        }
        Ok(RelativePath { text: value })
    }

    pub fn as_path(&self) -> (r: &str)
        ensures
            r@ == self@,
            !is_absolute_path(r@),
            !leads_up(r@),
    {
        proof {
            use_type_invariant(self);
        }
        self.text.as_str()
    }
}

impl PartialEq for RelativePath {
    fn eq(&self, other: &RelativePath) -> (r: bool) {
        paths_equal(self.text.as_str(), other.text.as_str())
    }
}

impl vstd::std_specs::cmp::PartialEqSpecImpl for RelativePath {
    open spec fn obeys_eq_spec() -> bool {
        true
    }

    open spec fn eq_spec(&self, other: &RelativePath) -> bool {
        equal_paths(self@, other@)
    }
}

impl Eq for RelativePath {

}

impl Clone for RelativePath {
    fn clone(&self) -> (r: RelativePath)
        ensures
            r@ == self@,
    {
        self.duplicate()
    }
}

impl Abstract for RelativePath {
    type Abs = Seq<char>;

    open spec fn abs(&self) -> Seq<char> {
        self@
    }

    fn duplicate(&self) -> RelativePath {
        proof {
            use_type_invariant(self);
        }
        RelativePath { text: self.text.clone() }
    }

    fn same(&self, other: &RelativePath) -> bool {
        self.text == other.text
    }
}

/// The directory that a run works in.
#[derive(Clone, Debug, Eq, PartialEq)]
pub struct WorkspaceScope {
    pub root: AbsolutePath,
    pub working_directory: RelativePath,
}

/// The content of `WorkspaceScope`.
pub struct WorkspaceScopeAbs {
    pub root: Seq<char>,
    pub working_directory: Seq<char>,
}

impl Abstract for WorkspaceScope {
    type Abs = WorkspaceScopeAbs;

    open spec fn abs(&self) -> WorkspaceScopeAbs {
        WorkspaceScopeAbs {
            root: self.root.abs(),
            working_directory: self.working_directory.abs(),
        }
    }

    fn duplicate(&self) -> WorkspaceScope {
        WorkspaceScope {
            root: self.root.duplicate(),
            working_directory: self.working_directory.duplicate(),
        }
    }

    fn same(&self, other: &WorkspaceScope) -> bool {
        self.root.same(&other.root) && self.working_directory.same(&other.working_directory)
    }
}

/// An exact extension definition.
#[derive(Clone, Debug, Eq, PartialEq)]
pub struct ExtensionDefinitionRef {
    pub id: ExtensionId,
    pub package: ExactPackageRef,
    pub definition_digest: ExtensionDefinitionDigest,
}

/// A tool that a run may use.
#[derive(Clone, Debug, Eq, PartialEq)]
pub struct AdmittedTool {
    pub definition: ToolDefinition,
    pub extension: ExtensionDefinitionRef,
    pub definition_digest: ToolDefinitionDigest,
}

/// What a run may use.
#[derive(Clone, Copy, Debug, Eq, PartialEq, Structural)]
pub struct AgentRunLimits {
    pub deadline_ms: i64,
    pub model_input_tokens: Option<u64>,
    pub model_output_tokens: u64,
    pub model_calls: u64,
    pub correction_input_tokens: u64,
    pub correction_output_tokens: u64,
    pub correction_calls: u64,
    pub tool_calls: u64,
    pub tool_result_bytes: u64,
}

impl Abstract for AgentRunLimits {
    type Abs = AgentRunLimits;

    open spec fn abs(&self) -> AgentRunLimits {
        *self
    }

    fn duplicate(&self) -> AgentRunLimits {
        *self
    }

    fn same(&self, other: &AgentRunLimits) -> bool {
        *self == *other
    }
}

/// What a run has used.
#[derive(Clone, Copy, Debug, Eq, PartialEq, Structural)]
pub struct AgentRunUsage {
    pub model_input_tokens: u64,
    pub model_output_tokens: u64,
    pub model_calls: u64,
    pub correction_input_tokens: u64,
    pub correction_output_tokens: u64,
    pub correction_calls: u64,
    pub tool_calls: u64,
}

impl Abstract for AgentRunUsage {
    type Abs = AgentRunUsage;

    open spec fn abs(&self) -> AgentRunUsage {
        *self
    }

    fn duplicate(&self) -> AgentRunUsage {
        *self
    }

    fn same(&self, other: &AgentRunUsage) -> bool {
        *self == *other
    }
}

impl Default for AgentRunUsage {
    fn default() -> (r: AgentRunUsage)
        ensures
            r == (AgentRunUsage {
                model_input_tokens: 0,
                model_output_tokens: 0,
                model_calls: 0,
                correction_input_tokens: 0,
                correction_output_tokens: 0,
                correction_calls: 0,
                tool_calls: 0,
            }),
    {
        AgentRunUsage {
            model_input_tokens: 0,
            model_output_tokens: 0,
            model_calls: 0,
            correction_input_tokens: 0,
            correction_output_tokens: 0,
            correction_calls: 0,
            tool_calls: 0,
        }
    }
}

/// The model that corrects invalid output.
#[derive(Clone, Debug, PartialEq)]
pub struct InvalidModelOutputRecoverySelection {
    pub model: ModelSelection,
    pub max_attempts: u32,
}

/// Everything that a run was admitted with.
#[derive(Clone, Debug, PartialEq)]
pub struct AgentRunSnapshot {
    pub agent: AgentDefinitionRef,
    pub model: ModelSelection,
    pub invalid_model_output_recovery: Option<InvalidModelOutputRecoverySelection>,
    pub instructions: InstructionSet,
    pub workspace: WorkspaceScope,
    pub tools: Vec<AdmittedTool>,
    pub authority: AuthorityGrantSet,
    pub limits: AgentRunLimits,
    pub presentation: super::presentation::AgentPresentation,
    /// Runtime-owned structured output contract for specialized operations.
    pub response_format: Option<Json>,
    /// Restrict tool execution to the planner's read-only workspace policy.
    pub planner_read_only: bool,
}

/// What started a run.
#[derive(Clone, Debug, Eq, PartialEq)]
pub enum AgentRunOrigin {
    User { conversation_id: ConversationId, message_id: MessageId },
}

/// The content of `AgentRunOrigin`.
pub enum AgentRunOriginAbs {
    User { conversation_id: Seq<u8>, message_id: Seq<char> },
}

impl Abstract for AgentRunOrigin {
    type Abs = AgentRunOriginAbs;

    open spec fn abs(&self) -> AgentRunOriginAbs {
        match self {
            AgentRunOrigin::User { conversation_id, message_id } => AgentRunOriginAbs::User {
                conversation_id: conversation_id.abs(),
                message_id: message_id.abs(),
            },
        }
    }

    fn duplicate(&self) -> AgentRunOrigin {
        match self {
            AgentRunOrigin::User { conversation_id, message_id } => AgentRunOrigin::User {
                conversation_id: conversation_id.duplicate(),
                message_id: message_id.duplicate(),
            },
        }
    }

    fn same(&self, other: &AgentRunOrigin) -> bool {
        match (self, other) {
            (
                AgentRunOrigin::User { conversation_id, message_id },
                AgentRunOrigin::User { conversation_id: conversation_id2, message_id: message_id2 },
            ) => {
                conversation_id.same(conversation_id2) && message_id.same(message_id2)
            },
        }
    }
}

/// A run that is asked for.
#[derive(Clone, Debug, Eq, PartialEq)]
pub struct AgentRunSpec {
    pub origin: AgentRunOrigin,
    pub input: Content,
    pub reasoning: Option<ReasoningEffort>,
}

/// How far a run has come.
#[derive(Clone, Copy, Debug, Eq, PartialEq, Structural)]
pub enum AgentRunStatus {
    Pending,
    Running,
    Completed,
    Failed,
    Cancelled,
}

impl Abstract for AgentRunStatus {
    type Abs = AgentRunStatus;

    open spec fn abs(&self) -> AgentRunStatus {
        *self
    }

    fn duplicate(&self) -> AgentRunStatus {
        *self
    }

    fn same(&self, other: &AgentRunStatus) -> bool {
        *self == *other
    }
}

impl AgentRunStatus {
    /// Whether the run is over.
    pub open spec fn is_over(self) -> bool {
        self is Completed || self is Failed || self is Cancelled
    }

    pub fn is_terminal(self) -> (b: bool)
        ensures
            b == self.is_over(),
    {
        matches!(self, AgentRunStatus::Completed | AgentRunStatus::Failed | AgentRunStatus::Cancelled)
    }
}

/// Where a run goes on from.
#[derive(Clone, Debug, Eq, PartialEq)]
pub enum AgentCheckpoint {
    Ready { context: Vec<MessageId>, next_operation_ordinal: NonZeroU32 },
    Waiting {
        operation: AgentOperationKey,
        context: Vec<MessageId>,
        next_operation_ordinal: NonZeroU32,
        pending_tool_calls: Vec<ToolCall>,
    },
}

/// The content of `AgentCheckpoint`.
pub enum AgentCheckpointAbs {
    Ready { context: Seq<Seq<char>>, next_operation_ordinal: u32 },
    Waiting {
        operation: AgentOperationKeyAbs,
        context: Seq<Seq<char>>,
        next_operation_ordinal: u32,
        pending_tool_calls: Seq<ToolCallAbs>,
    },
}

impl Abstract for AgentCheckpoint {
    type Abs = AgentCheckpointAbs;

    open spec fn abs(&self) -> AgentCheckpointAbs {
        match self {
            AgentCheckpoint::Ready { context, next_operation_ordinal } => {
                AgentCheckpointAbs::Ready {
                    context: context.abs(),
                    next_operation_ordinal: next_operation_ordinal.abs(),
                }
            },
            AgentCheckpoint::Waiting {
                operation,
                context,
                next_operation_ordinal,
                pending_tool_calls,
            } => {
                AgentCheckpointAbs::Waiting {
                    operation: operation.abs(),
                    context: context.abs(),
                    next_operation_ordinal: next_operation_ordinal.abs(),
                    pending_tool_calls: pending_tool_calls.abs(),
                }
            },
        }
    }

    fn duplicate(&self) -> AgentCheckpoint {
        match self {
            AgentCheckpoint::Ready { context, next_operation_ordinal } => AgentCheckpoint::Ready {
                context: context.duplicate(),
                next_operation_ordinal: next_operation_ordinal.duplicate(),
            },
            AgentCheckpoint::Waiting {
                operation,
                context,
                next_operation_ordinal,
                pending_tool_calls,
            } => {
                AgentCheckpoint::Waiting {
                    operation: operation.duplicate(),
                    context: context.duplicate(),
                    next_operation_ordinal: next_operation_ordinal.duplicate(),
                    pending_tool_calls: pending_tool_calls.duplicate(),
                }
            },
        }
    }

    fn same(&self, other: &AgentCheckpoint) -> bool {
        match (self, other) {
            (
                AgentCheckpoint::Ready { context, next_operation_ordinal },
                AgentCheckpoint::Ready {
                    context: context2,
                    next_operation_ordinal: next_operation_ordinal2,
                },
            ) => {
                context.same(context2) && next_operation_ordinal.same(next_operation_ordinal2)
            },
            (
                AgentCheckpoint::Waiting {
                    operation,
                    context,
                    next_operation_ordinal,
                    pending_tool_calls,
                },
                AgentCheckpoint::Waiting {
                    operation: operation2,
                    context: context2,
                    next_operation_ordinal: next_operation_ordinal2,
                    pending_tool_calls: pending_tool_calls2,
                },
            ) => {
                operation.same(operation2) && context.same(context2)
                    && next_operation_ordinal.same(next_operation_ordinal2)
                    && pending_tool_calls.same(pending_tool_calls2)
            },
            _ => false,
        }
    }
}

/// Why a run failed.
#[derive(Clone, Copy, Debug, Eq, PartialEq, Structural)]
pub enum AgentRunFailureKind {
    Deadline,
    Operation,
    InvalidState,
    LimitsExceeded,
    ToolLoopDetected,
}

impl Abstract for AgentRunFailureKind {
    type Abs = AgentRunFailureKind;

    open spec fn abs(&self) -> AgentRunFailureKind {
        *self
    }

    fn duplicate(&self) -> AgentRunFailureKind {
        *self
    }

    fn same(&self, other: &AgentRunFailureKind) -> bool {
        *self == *other
    }
}

/// A run.
#[derive(Clone, Debug, PartialEq)]
pub struct AgentRun {
    pub id: AgentRunId,
    pub origin: AgentRunOrigin,
    pub snapshot: AgentRunSnapshot,
    pub status: AgentRunStatus,
    pub checkpoint: AgentCheckpoint,
    pub usage: AgentRunUsage,
    pub revision: u64,
}

/// What clients see of a run.
#[derive(Clone, Debug, Eq, PartialEq)]
pub struct AgentRunView {
    pub id: AgentRunId,
    pub origin: AgentRunOrigin,
    pub status: AgentRunStatus,
    pub usage: AgentRunUsage,
    pub current_operation: Option<AgentOperationKey>,
    pub failure: Option<AgentRunFailureView>,
    pub last_event_id: AgentEventId,
}

/// What clients see of a failure.
#[derive(Clone, Debug, Eq, PartialEq)]
pub enum AgentRunFailureView {
    Run { kind: AgentRunFailureKind },
    Operation {
        operation: AgentOperationKey,
        kind: AgentOperationFailureKind,
        tool_id: Option<ToolId>,
    },
}

/// The next ordinal, unless it would not fit.
pub(crate) fn checked_next(value: NonZeroU32) -> (r: Option<NonZeroU32>)
    ensures
        r is Some <==> value@ < u32::MAX,
        r matches Some(n) ==> n@ == value@ + 1,
{
    value.checked_next()
}

} // verus!
