//! Which model runs, and how it is loaded and served.

use vstd::prelude::*;

use super::run::{ModelDefinitionRef, ModelDefinitionRefAbs, PackageDigest};
use crate::value::Abstract;

verus! {

/// A double-precision number, held by its bits. Equality is that of the
/// numbers.
#[derive(Clone, Copy, Debug)]
pub struct Real {
    pub bits: u64,
}

/// Whether the bits stand for no number.
pub open spec fn is_nan(bits: u64) -> bool {
    bits % 0x8000_0000_0000_0000 > 0x7FF0_0000_0000_0000
}

/// Whether two numbers are equal: a zero equals the other zero, and what is no
/// number equals nothing.
pub open spec fn equal_numbers(left: Real, right: Real) -> bool {
    !is_nan(left.bits) && !is_nan(right.bits) && (left.bits == right.bits || (left.bits
        % 0x8000_0000_0000_0000 == 0 && right.bits % 0x8000_0000_0000_0000 == 0))
}

impl Real {
    pub fn equals(&self, other: &Real) -> (b: bool)
        ensures
            b == equal_numbers(*self, *other),
    {
        let a: u64 = self.bits % 0x8000_0000_0000_0000;
        let b: u64 = other.bits % 0x8000_0000_0000_0000;
        a <= 0x7FF0_0000_0000_0000 && b <= 0x7FF0_0000_0000_0000 && (self.bits == other.bits || (a
            == 0 && b == 0))
    }
}

impl PartialEq for Real {
    fn eq(&self, other: &Real) -> (r: bool) {
        self.equals(other)
    }
}

impl vstd::std_specs::cmp::PartialEqSpecImpl for Real {
    open spec fn obeys_eq_spec() -> bool {
        true
    }

    open spec fn eq_spec(&self, other: &Real) -> bool {
        equal_numbers(*self, *other)
    }
}

impl Abstract for Real {
    type Abs = u64;

    open spec fn abs(&self) -> u64 {
        self.bits
    }

    fn duplicate(&self) -> Real {
        *self
    }

    fn same(&self, other: &Real) -> bool {
        self.bits == other.bits
    }
}

/// The kind of a model file.
#[derive(Clone, Copy, Debug, Eq, PartialEq, Structural)]
pub enum ModelArtifactKind {
    Gguf,
    LoraAdapter,
}

impl Abstract for ModelArtifactKind {
    type Abs = ModelArtifactKind;

    open spec fn abs(&self) -> ModelArtifactKind {
        *self
    }

    fn duplicate(&self) -> ModelArtifactKind {
        *self
    }

    fn same(&self, other: &ModelArtifactKind) -> bool {
        *self == *other
    }
}

/// A model file.
#[derive(Clone, Debug, Eq, PartialEq)]
pub struct ModelArtifactRef {
    pub kind: ModelArtifactKind,
    pub url: String,
    pub digest: PackageDigest,
    pub bytes: u64,
}

/// The content of `ModelArtifactRef`.
pub struct ModelArtifactRefAbs {
    pub kind: ModelArtifactKind,
    pub url: Seq<char>,
    pub digest: Seq<u8>,
    pub bytes: u64,
}

impl Abstract for ModelArtifactRef {
    type Abs = ModelArtifactRefAbs;

    open spec fn abs(&self) -> ModelArtifactRefAbs {
        ModelArtifactRefAbs {
            kind: self.kind.abs(),
            url: self.url.abs(),
            digest: self.digest.abs(),
            bytes: self.bytes.abs(),
        }
    }

    fn duplicate(&self) -> ModelArtifactRef {
        ModelArtifactRef {
            kind: self.kind.duplicate(),
            url: self.url.duplicate(),
            digest: self.digest.duplicate(),
            bytes: self.bytes.duplicate(),
        }
    }

    fn same(&self, other: &ModelArtifactRef) -> bool {
        self.kind.same(&other.kind) && self.url.same(&other.url) && self.digest.same(&other.digest)
            && self.bytes.same(&other.bytes)
    }
}

/// How a model is prompted.
#[derive(Clone, Copy, Debug, Eq, PartialEq, Structural)]
pub enum ModelDialect {
    Generic,
    Qwen3,
    Gemma4,
}

impl Abstract for ModelDialect {
    type Abs = ModelDialect;

    open spec fn abs(&self) -> ModelDialect {
        *self
    }

    fn duplicate(&self) -> ModelDialect {
        *self
    }

    fn same(&self, other: &ModelDialect) -> bool {
        *self == *other
    }
}

/// How a model writes tool calls.
#[derive(Clone, Copy, Debug, Eq, PartialEq, Structural)]
pub enum ToolCallFormat {
    StructuredToolCalls,
    HermesJson,
    GemmaAgentCall,
}

impl Abstract for ToolCallFormat {
    type Abs = ToolCallFormat;

    open spec fn abs(&self) -> ToolCallFormat {
        *self
    }

    fn duplicate(&self) -> ToolCallFormat {
        *self
    }

    fn same(&self, other: &ToolCallFormat) -> bool {
        *self == *other
    }
}

/// How a model generates.
#[derive(Clone, Debug, PartialEq)]
pub struct GenerationSettings {
    pub max_output_tokens: u64,
    pub seed: u64,
    pub temperature: Real,
    pub top_k: u32,
    pub top_p: Real,
    pub min_p: Real,
    pub typical_p: Real,
    pub repeat_last_n: u32,
    pub repeat_penalty: Real,
    pub presence_penalty: Real,
    pub frequency_penalty: Real,
    pub stop: Vec<String>,
}

/// The content of `GenerationSettings`.
pub struct GenerationSettingsAbs {
    pub max_output_tokens: u64,
    pub seed: u64,
    pub temperature: u64,
    pub top_k: u32,
    pub top_p: u64,
    pub min_p: u64,
    pub typical_p: u64,
    pub repeat_last_n: u32,
    pub repeat_penalty: u64,
    pub presence_penalty: u64,
    pub frequency_penalty: u64,
    pub stop: Seq<Seq<char>>,
}

impl Abstract for GenerationSettings {
    type Abs = GenerationSettingsAbs;

    open spec fn abs(&self) -> GenerationSettingsAbs {
        GenerationSettingsAbs {
            max_output_tokens: self.max_output_tokens.abs(),
            seed: self.seed.abs(),
            temperature: self.temperature.abs(),
            top_k: self.top_k.abs(),
            top_p: self.top_p.abs(),
            min_p: self.min_p.abs(),
            typical_p: self.typical_p.abs(),
            repeat_last_n: self.repeat_last_n.abs(),
            repeat_penalty: self.repeat_penalty.abs(),
            presence_penalty: self.presence_penalty.abs(),
            frequency_penalty: self.frequency_penalty.abs(),
            stop: self.stop.abs(),
        }
    }

    fn duplicate(&self) -> GenerationSettings {
        GenerationSettings {
            max_output_tokens: self.max_output_tokens.duplicate(),
            seed: self.seed.duplicate(),
            temperature: self.temperature.duplicate(),
            top_k: self.top_k.duplicate(),
            top_p: self.top_p.duplicate(),
            min_p: self.min_p.duplicate(),
            typical_p: self.typical_p.duplicate(),
            repeat_last_n: self.repeat_last_n.duplicate(),
            repeat_penalty: self.repeat_penalty.duplicate(),
            presence_penalty: self.presence_penalty.duplicate(),
            frequency_penalty: self.frequency_penalty.duplicate(),
            stop: self.stop.duplicate(),
        }
    }

    fn same(&self, other: &GenerationSettings) -> bool {
        self.max_output_tokens.same(&other.max_output_tokens) && self.seed.same(&other.seed)
            && self.temperature.same(&other.temperature) && self.top_k.same(&other.top_k)
            && self.top_p.same(&other.top_p) && self.min_p.same(&other.min_p)
            && self.typical_p.same(&other.typical_p)
            && self.repeat_last_n.same(&other.repeat_last_n)
            && self.repeat_penalty.same(&other.repeat_penalty)
            && self.presence_penalty.same(&other.presence_penalty)
            && self.frequency_penalty.same(&other.frequency_penalty) && self.stop.same(&other.stop)
    }
}

/// How much a model reasons.
#[derive(Clone, Copy, Debug, Eq, Hash, PartialEq, Structural)]
pub enum ReasoningEffort {
    Low,
    Medium,
    Xhigh,
}

impl Abstract for ReasoningEffort {
    type Abs = ReasoningEffort;

    open spec fn abs(&self) -> ReasoningEffort {
        *self
    }

    fn duplicate(&self) -> ReasoningEffort {
        *self
    }

    fn same(&self, other: &ReasoningEffort) -> bool {
        *self == *other
    }
}

/// Whether and how a model reasons.
#[derive(Clone, Copy, Debug, Eq, PartialEq, Structural)]
pub enum ReasoningSelection {
    Disabled,
    Enabled { max_tokens: u32, effort: Option<ReasoningEffort>, preserve: bool },
}

impl Abstract for ReasoningSelection {
    type Abs = ReasoningSelection;

    open spec fn abs(&self) -> ReasoningSelection {
        *self
    }

    fn duplicate(&self) -> ReasoningSelection {
        *self
    }

    fn same(&self, other: &ReasoningSelection) -> bool {
        *self == *other
    }
}

/// A device that a model runs on.
#[derive(Clone, Debug, Eq, Hash, Ord, PartialEq, PartialOrd)]
pub enum PhysicalDeviceSelector {
    Pci { address: String },
    Uuid { uuid: String },
}

/// The content of `PhysicalDeviceSelector`.
pub enum PhysicalDeviceSelectorAbs {
    Pci { address: Seq<char> },
    Uuid { uuid: Seq<char> },
}

impl Abstract for PhysicalDeviceSelector {
    type Abs = PhysicalDeviceSelectorAbs;

    open spec fn abs(&self) -> PhysicalDeviceSelectorAbs {
        match self {
            PhysicalDeviceSelector::Pci { address } => PhysicalDeviceSelectorAbs::Pci {
                address: address.abs(),
            },
            PhysicalDeviceSelector::Uuid { uuid } => PhysicalDeviceSelectorAbs::Uuid {
                uuid: uuid.abs(),
            },
        }
    }

    fn duplicate(&self) -> PhysicalDeviceSelector {
        match self {
            PhysicalDeviceSelector::Pci { address } => PhysicalDeviceSelector::Pci {
                address: address.duplicate(),
            },
            PhysicalDeviceSelector::Uuid { uuid } => PhysicalDeviceSelector::Uuid {
                uuid: uuid.duplicate(),
            },
        }
    }

    fn same(&self, other: &PhysicalDeviceSelector) -> bool {
        match (self, other) {
            (
                PhysicalDeviceSelector::Pci { address },
                PhysicalDeviceSelector::Pci { address: address2 },
            ) => address.same(address2),
            (
                PhysicalDeviceSelector::Uuid { uuid },
                PhysicalDeviceSelector::Uuid { uuid: uuid2 },
            ) => uuid.same(uuid2),
            _ => false,
        }
    }
}

/// How a model is split over devices.
#[derive(Clone, Copy, Debug, Eq, PartialEq, Structural)]
pub enum SplitMode {
    Unsplit,
    Layer,
    Row,
}

impl Abstract for SplitMode {
    type Abs = SplitMode;

    open spec fn abs(&self) -> SplitMode {
        *self
    }

    fn duplicate(&self) -> SplitMode {
        *self
    }

    fn same(&self, other: &SplitMode) -> bool {
        *self == *other
    }
}

/// How many layers run on devices.
#[derive(Clone, Copy, Debug, Eq, PartialEq, Structural)]
pub enum GpuLayerSelection {
    All,
    Count(u32),
}

impl Abstract for GpuLayerSelection {
    type Abs = GpuLayerSelection;

    open spec fn abs(&self) -> GpuLayerSelection {
        *self
    }

    fn duplicate(&self) -> GpuLayerSelection {
        *self
    }

    fn same(&self, other: &GpuLayerSelection) -> bool {
        *self == *other
    }
}

/// The number format of a cache.
#[derive(Clone, Copy, Debug, Eq, PartialEq, Structural)]
pub enum KvCacheType {
    F32,
    F16,
    Bf16,
    Q8_0,
    Q5_0,
    Q5_1,
    Q4_0,
    Q4_1,
    Iq4Nl,
}

impl Abstract for KvCacheType {
    type Abs = KvCacheType;

    open spec fn abs(&self) -> KvCacheType {
        *self
    }

    fn duplicate(&self) -> KvCacheType {
        *self
    }

    fn same(&self, other: &KvCacheType) -> bool {
        *self == *other
    }
}

/// Speculative decoding.
#[derive(Clone, Copy, Debug, Eq, PartialEq, Structural)]
pub enum SpeculativeSelection {
    Mtp { max_draft_tokens: u32, kv_cache_type_k: KvCacheType, kv_cache_type_v: KvCacheType },
}

impl Abstract for SpeculativeSelection {
    type Abs = SpeculativeSelection;

    open spec fn abs(&self) -> SpeculativeSelection {
        *self
    }

    fn duplicate(&self) -> SpeculativeSelection {
        *self
    }

    fn same(&self, other: &SpeculativeSelection) -> bool {
        *self == *other
    }
}

/// How a model is loaded.
#[derive(Clone, Debug, PartialEq)]
pub struct ModelLoadSelection {
    pub context_tokens: u32,
    pub batch_size: u32,
    pub ubatch_size: u32,
    pub threads: u32,
    pub threads_batch: u32,
    pub gpu_layers: GpuLayerSelection,
    pub devices: Vec<PhysicalDeviceSelector>,
    pub split_mode: SplitMode,
    pub main_gpu: Option<usize>,
    pub tensor_split: Vec<Real>,
    pub mmap: bool,
    pub mlock: bool,
    pub flash_attention: bool,
    pub kv_cache_type_k: KvCacheType,
    pub kv_cache_type_v: KvCacheType,
    pub engine_build_digest: PackageDigest,
}

/// The content of `ModelLoadSelection`.
pub struct ModelLoadSelectionAbs {
    pub context_tokens: u32,
    pub batch_size: u32,
    pub ubatch_size: u32,
    pub threads: u32,
    pub threads_batch: u32,
    pub gpu_layers: GpuLayerSelection,
    pub devices: Seq<PhysicalDeviceSelectorAbs>,
    pub split_mode: SplitMode,
    pub main_gpu: Option<usize>,
    pub tensor_split: Seq<u64>,
    pub mmap: bool,
    pub mlock: bool,
    pub flash_attention: bool,
    pub kv_cache_type_k: KvCacheType,
    pub kv_cache_type_v: KvCacheType,
    pub engine_build_digest: Seq<u8>,
}

impl Abstract for ModelLoadSelection {
    type Abs = ModelLoadSelectionAbs;

    open spec fn abs(&self) -> ModelLoadSelectionAbs {
        ModelLoadSelectionAbs {
            context_tokens: self.context_tokens.abs(),
            batch_size: self.batch_size.abs(),
            ubatch_size: self.ubatch_size.abs(),
            threads: self.threads.abs(),
            threads_batch: self.threads_batch.abs(),
            gpu_layers: self.gpu_layers.abs(),
            devices: self.devices.abs(),
            split_mode: self.split_mode.abs(),
            main_gpu: self.main_gpu.abs(),
            tensor_split: self.tensor_split.abs(),
            mmap: self.mmap.abs(),
            mlock: self.mlock.abs(),
            flash_attention: self.flash_attention.abs(),
            kv_cache_type_k: self.kv_cache_type_k.abs(),
            kv_cache_type_v: self.kv_cache_type_v.abs(),
            engine_build_digest: self.engine_build_digest.abs(),
        }
    }

    fn duplicate(&self) -> ModelLoadSelection {
        ModelLoadSelection {
            context_tokens: self.context_tokens.duplicate(),
            batch_size: self.batch_size.duplicate(),
            ubatch_size: self.ubatch_size.duplicate(),
            threads: self.threads.duplicate(),
            threads_batch: self.threads_batch.duplicate(),
            gpu_layers: self.gpu_layers.duplicate(),
            devices: self.devices.duplicate(),
            split_mode: self.split_mode.duplicate(),
            main_gpu: self.main_gpu.duplicate(),
            tensor_split: self.tensor_split.duplicate(),
            mmap: self.mmap.duplicate(),
            mlock: self.mlock.duplicate(),
            flash_attention: self.flash_attention.duplicate(),
            kv_cache_type_k: self.kv_cache_type_k.duplicate(),
            kv_cache_type_v: self.kv_cache_type_v.duplicate(),
            engine_build_digest: self.engine_build_digest.duplicate(),
        }
    }

    fn same(&self, other: &ModelLoadSelection) -> bool {
        self.context_tokens.same(&other.context_tokens) && self.batch_size.same(&other.batch_size)
            && self.ubatch_size.same(&other.ubatch_size) && self.threads.same(&other.threads)
            && self.threads_batch.same(&other.threads_batch)
            && self.gpu_layers.same(&other.gpu_layers) && self.devices.same(&other.devices)
            && self.split_mode.same(&other.split_mode) && self.main_gpu.same(&other.main_gpu)
            && self.tensor_split.same(&other.tensor_split) && self.mmap.same(&other.mmap)
            && self.mlock.same(&other.mlock) && self.flash_attention.same(&other.flash_attention)
            && self.kv_cache_type_k.same(&other.kv_cache_type_k)
            && self.kv_cache_type_v.same(&other.kv_cache_type_v)
            && self.engine_build_digest.same(&other.engine_build_digest)
    }
}

/// An adapter on a model.
#[derive(Clone, Debug, PartialEq)]
pub struct ModelAdapterSelection {
    pub model: ModelDefinitionRef,
    pub artifact: ModelArtifactRef,
    pub scale: Real,
}

/// The content of `ModelAdapterSelection`.
pub struct ModelAdapterSelectionAbs {
    pub model: ModelDefinitionRefAbs,
    pub artifact: ModelArtifactRefAbs,
    pub scale: u64,
}

impl Abstract for ModelAdapterSelection {
    type Abs = ModelAdapterSelectionAbs;

    open spec fn abs(&self) -> ModelAdapterSelectionAbs {
        ModelAdapterSelectionAbs {
            model: self.model.abs(),
            artifact: self.artifact.abs(),
            scale: self.scale.abs(),
        }
    }

    fn duplicate(&self) -> ModelAdapterSelection {
        ModelAdapterSelection {
            model: self.model.duplicate(),
            artifact: self.artifact.duplicate(),
            scale: self.scale.duplicate(),
        }
    }

    fn same(&self, other: &ModelAdapterSelection) -> bool {
        self.model.same(&other.model) && self.artifact.same(&other.artifact)
            && self.scale.same(&other.scale)
    }
}

/// How a loaded model is served.
#[derive(Clone, Debug, Eq, PartialEq)]
pub struct ModelServiceSelection {
    pub key: PackageDigest,
    pub slots: u32,
    pub queue_capacity: u32,
    pub continuous_batching: bool,
    pub idle_timeout_ms: u64,
}

/// The content of `ModelServiceSelection`.
pub struct ModelServiceSelectionAbs {
    pub key: Seq<u8>,
    pub slots: u32,
    pub queue_capacity: u32,
    pub continuous_batching: bool,
    pub idle_timeout_ms: u64,
}

impl Abstract for ModelServiceSelection {
    type Abs = ModelServiceSelectionAbs;

    open spec fn abs(&self) -> ModelServiceSelectionAbs {
        ModelServiceSelectionAbs {
            key: self.key.abs(),
            slots: self.slots.abs(),
            queue_capacity: self.queue_capacity.abs(),
            continuous_batching: self.continuous_batching.abs(),
            idle_timeout_ms: self.idle_timeout_ms.abs(),
        }
    }

    fn duplicate(&self) -> ModelServiceSelection {
        ModelServiceSelection {
            key: self.key.duplicate(),
            slots: self.slots.duplicate(),
            queue_capacity: self.queue_capacity.duplicate(),
            continuous_batching: self.continuous_batching.duplicate(),
            idle_timeout_ms: self.idle_timeout_ms.duplicate(),
        }
    }

    fn same(&self, other: &ModelServiceSelection) -> bool {
        self.key.same(&other.key) && self.slots.same(&other.slots)
            && self.queue_capacity.same(&other.queue_capacity)
            && self.continuous_batching.same(&other.continuous_batching)
            && self.idle_timeout_ms.same(&other.idle_timeout_ms)
    }
}

/// A model as it runs.
#[derive(Clone, Debug, PartialEq)]
pub struct ModelRuntimeSelection {
    pub artifact: ModelArtifactRef,
    pub dialect: ModelDialect,
    pub tool_call_format: ToolCallFormat,
    pub generation: GenerationSettings,
    pub reasoning: ReasoningSelection,
    pub load: ModelLoadSelection,
    pub speculative: Option<SpeculativeSelection>,
    pub adapters: Vec<ModelAdapterSelection>,
    pub service: ModelServiceSelection,
}

/// The content of `ModelRuntimeSelection`.
pub struct ModelRuntimeSelectionAbs {
    pub artifact: ModelArtifactRefAbs,
    pub dialect: ModelDialect,
    pub tool_call_format: ToolCallFormat,
    pub generation: GenerationSettingsAbs,
    pub reasoning: ReasoningSelection,
    pub load: ModelLoadSelectionAbs,
    pub speculative: Option<SpeculativeSelection>,
    pub adapters: Seq<ModelAdapterSelectionAbs>,
    pub service: ModelServiceSelectionAbs,
}

impl Abstract for ModelRuntimeSelection {
    type Abs = ModelRuntimeSelectionAbs;

    open spec fn abs(&self) -> ModelRuntimeSelectionAbs {
        ModelRuntimeSelectionAbs {
            artifact: self.artifact.abs(),
            dialect: self.dialect.abs(),
            tool_call_format: self.tool_call_format.abs(),
            generation: self.generation.abs(),
            reasoning: self.reasoning.abs(),
            load: self.load.abs(),
            speculative: self.speculative.abs(),
            adapters: self.adapters.abs(),
            service: self.service.abs(),
        }
    }

    fn duplicate(&self) -> ModelRuntimeSelection {
        ModelRuntimeSelection {
            artifact: self.artifact.duplicate(),
            dialect: self.dialect.duplicate(),
            tool_call_format: self.tool_call_format.duplicate(),
            generation: self.generation.duplicate(),
            reasoning: self.reasoning.duplicate(),
            load: self.load.duplicate(),
            speculative: self.speculative.duplicate(),
            adapters: self.adapters.duplicate(),
            service: self.service.duplicate(),
        }
    }

    fn same(&self, other: &ModelRuntimeSelection) -> bool {
        self.artifact.same(&other.artifact) && self.dialect.same(&other.dialect)
            && self.tool_call_format.same(&other.tool_call_format)
            && self.generation.same(&other.generation) && self.reasoning.same(&other.reasoning)
            && self.load.same(&other.load) && self.speculative.same(&other.speculative)
            && self.adapters.same(&other.adapters) && self.service.same(&other.service)
    }
}

/// Whether two references are to the same bytes, wherever they come from.
pub open spec fn is_same_artifact(left: ModelArtifactRefAbs, right: ModelArtifactRefAbs) -> bool {
    left.kind == right.kind && left.digest == right.digest && left.bytes == right.bytes
}

/// Whether two rows of numbers are equal, number by number.
pub open spec fn equal_rows(left: Seq<Real>, right: Seq<Real>) -> bool {
    left.len() == right.len() && forall|i: int|
        0 <= i < left.len() ==> equal_numbers(#[trigger] left[i], right[i])
}

/// Whether two models are loaded in the same way.
pub open spec fn is_same_load(left: ModelLoadSelection, right: ModelLoadSelection) -> bool {
    &&& equal_rows(left.tensor_split@, right.tensor_split@)
    &&& left.abs() == (ModelLoadSelectionAbs {
        tensor_split: left.abs().tensor_split,
        ..right.abs()
    })
}

/// Whether two adapters are the same file at the same scale.
pub open spec fn is_same_adapter(left: ModelAdapterSelection, right: ModelAdapterSelection) -> bool {
    is_same_artifact(left.artifact.abs(), right.artifact.abs()) && equal_numbers(
        left.scale,
        right.scale,
    )
}

/// Whether two models can be served by one loaded service.
pub open spec fn is_shared_service(
    left: ModelRuntimeSelection,
    right: ModelRuntimeSelection,
) -> bool {
    &&& is_same_artifact(left.artifact.abs(), right.artifact.abs())
    &&& is_same_load(left.load, right.load)
    &&& left.speculative == right.speculative
    &&& left.adapters@.len() == right.adapters@.len()
    &&& forall|i: int|
        0 <= i < left.adapters@.len() ==> is_same_adapter(
            #[trigger] left.adapters@[i],
            right.adapters@[i],
        )
    &&& left.service.key.abs() == right.service.key.abs()
    &&& left.service.slots == right.service.slots
    &&& left.service.queue_capacity == right.service.queue_capacity
    &&& left.service.continuous_batching == right.service.continuous_batching
}

impl ModelRuntimeSelection {
    pub fn shares_service_with(&self, other: &ModelRuntimeSelection) -> (b: bool)
        ensures
            b == is_shared_service(*self, *other),
    {
        if !same_artifact(&self.artifact, &other.artifact) || !same_load(&self.load, &other.load)
            || !self.speculative.same(&other.speculative) || self.adapters.len()
            != other.adapters.len() {
            return false;
        }
        let mut i: usize = 0;
        while i < self.adapters.len()
            invariant
                i <= self.adapters@.len(),
                self.adapters@.len() == other.adapters@.len(),
                forall|k: int|
                    0 <= k < i ==> is_same_adapter(
                        #[trigger] self.adapters@[k],
                        other.adapters@[k],
                    ),
            decreases self.adapters@.len() - i,
        {
            if !same_artifact(&self.adapters[i].artifact, &other.adapters[i].artifact)
                || !self.adapters[i].scale.equals(&other.adapters[i].scale) {
                assert(!is_same_adapter(self.adapters@[i as int], other.adapters@[i as int]));
                return false;
            }
            i += 1;
        }
        self.service.key.same(&other.service.key) && self.service.slots == other.service.slots
            && self.service.queue_capacity == other.service.queue_capacity
            && self.service.continuous_batching == other.service.continuous_batching
    }
}

fn same_artifact(left: &ModelArtifactRef, right: &ModelArtifactRef) -> (b: bool)
    ensures
        b == is_same_artifact(left.abs(), right.abs()),
{
    left.kind == right.kind && left.digest.same(&right.digest) && left.bytes == right.bytes
}

fn same_load(left: &ModelLoadSelection, right: &ModelLoadSelection) -> (b: bool)
    ensures
        b == is_same_load(*left, *right),
{
    if left.tensor_split.len() != right.tensor_split.len() {
        return false;
    }
    let mut i: usize = 0;
    while i < left.tensor_split.len()
        invariant
            i <= left.tensor_split@.len(),
            left.tensor_split@.len() == right.tensor_split@.len(),
            forall|k: int|
                0 <= k < i ==> equal_numbers(
                    #[trigger] left.tensor_split@[k],
                    right.tensor_split@[k],
                ),
        decreases left.tensor_split@.len() - i,
    {
        if !left.tensor_split[i].equals(&right.tensor_split[i]) {
            return false;
        }
        i += 1;
    }
    left.context_tokens == right.context_tokens && left.batch_size == right.batch_size
        && left.ubatch_size == right.ubatch_size && left.threads == right.threads
        && left.threads_batch == right.threads_batch && left.gpu_layers == right.gpu_layers
        && left.devices.same(&right.devices) && left.split_mode == right.split_mode
        && left.main_gpu.same(&right.main_gpu) && left.mmap == right.mmap && left.mlock
        == right.mlock && left.flash_attention == right.flash_attention && left.kv_cache_type_k
        == right.kv_cache_type_k && left.kv_cache_type_v == right.kv_cache_type_v
        && left.engine_build_digest.same(&right.engine_build_digest)
}

} // verus!
