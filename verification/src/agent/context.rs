//! Token budgets of a model context.

use vstd::prelude::*;

use super::compaction::{CompactionFailure, CompactionFailureAbs};
use crate::value::Abstract;

verus! {

/// Counts measured from the serialized request using the active model
/// tokenizer.
#[derive(Clone, Copy, Debug, Eq, PartialEq, Structural)]
pub struct ContextCapacity {
    pub prompt_tokens: u64,
    pub reserved_output_tokens: u64,
    pub context_capacity_tokens: u32,
    pub trigger_threshold_tokens: u64,
}

impl Abstract for ContextCapacity {
    type Abs = ContextCapacity;

    open spec fn abs(&self) -> ContextCapacity {
        *self
    }

    fn duplicate(&self) -> ContextCapacity {
        *self
    }

    fn same(&self, other: &ContextCapacity) -> bool {
        *self == *other
    }
}

/// A context that cannot hold a request.
#[derive(Clone, Debug, Eq, PartialEq)]
pub struct ContextExhaustion {
    pub capacity: ContextCapacity,
    pub compaction: Option<Box<CompactionFailure>>,
}

/// The content of `ContextExhaustion`.
pub struct ContextExhaustionAbs {
    pub capacity: ContextCapacity,
    pub compaction: Option<CompactionFailureAbs>,
}

impl Abstract for ContextExhaustion {
    type Abs = ContextExhaustionAbs;

    open spec fn abs(&self) -> ContextExhaustionAbs {
        ContextExhaustionAbs {
            capacity: self.capacity.abs(),
            compaction: self.compaction.abs(),
        }
    }

    fn duplicate(&self) -> ContextExhaustion {
        ContextExhaustion {
            capacity: self.capacity.duplicate(),
            compaction: self.compaction.duplicate(),
        }
    }

    fn same(&self, other: &ContextExhaustion) -> bool {
        self.capacity.same(&other.capacity) && self.compaction.same(&other.compaction)
    }
}

impl From<ContextCapacity> for ContextExhaustion {
    fn from(capacity: ContextCapacity) -> ContextExhaustion {
        ContextExhaustion { capacity, compaction: None }
    }
}

impl vstd::std_specs::convert::FromSpecImpl<ContextCapacity> for ContextExhaustion {
    open spec fn obeys_from_spec() -> bool {
        true
    }

    open spec fn from_spec(capacity: ContextCapacity) -> ContextExhaustion {
        ContextExhaustion { capacity, compaction: None }
    }
}

/// Seven tenths of a capacity, rounded up.
pub open spec fn trigger_threshold(capacity: u32) -> u64 {
    ((capacity * 7 + 9) / 10) as u64
}

/// The counts of a request against a capacity.
pub open spec fn measured(prompt_tokens: u64, reserved_output_tokens: u64, capacity: u32) -> ContextCapacity {
    ContextCapacity {
        prompt_tokens,
        reserved_output_tokens,
        context_capacity_tokens: capacity,
        trigger_threshold_tokens: trigger_threshold(capacity),
    }
}

impl ContextCapacity {
    /// Whether prompt and reserved output together fit into the capacity.
    pub open spec fn is_fitting(&self) -> bool {
        self.prompt_tokens + self.reserved_output_tokens <= self.context_capacity_tokens
    }

    /// Whether the prompt reaches the threshold or the request does not fit.
    pub open spec fn is_over(&self) -> bool {
        self.prompt_tokens >= self.trigger_threshold_tokens || !self.is_fitting()
    }

    pub fn new(prompt_tokens: u64, reserved_output_tokens: u64, capacity: u32) -> (r: Self)
        ensures
            r == measured(prompt_tokens, reserved_output_tokens, capacity),
    {
        ContextCapacity {
            prompt_tokens,
            reserved_output_tokens,
            context_capacity_tokens: capacity,
            trigger_threshold_tokens: (capacity as u64 * 7 + 9) / 10,
        }
    }

    pub fn fits(&self) -> (r: bool)
        ensures
            r == self.is_fitting(),
    {
        match self.prompt_tokens.checked_add(self.reserved_output_tokens) {
            Some(total) => total <= self.context_capacity_tokens as u64,
            None => false,
        }
    }

    pub fn needs_compaction(&self) -> (r: bool)
        ensures
            r == self.is_over(),
    {
        self.prompt_tokens >= self.trigger_threshold_tokens || !self.fits()
    }
}

/// The token budgets of a compaction.
#[derive(Clone, Copy, Debug, Eq, PartialEq, Structural)]
pub struct CompactionBudgets {
    pub summary_output_tokens: u64,
    pub summary_reasoning_tokens: u64,
    pub rebuilt_input_target: u64,
    pub recent_tail_limit: u64,
}

/// The output budget of a summary: an eighth of the capacity, 16384 tokens at
/// most.
pub open spec fn summary_budget(capacity: u32) -> u64 {
    if capacity / 8 <= 16_384 {
        (capacity / 8) as u64
    } else {
        16_384
    }
}

/// The budgets for a capacity, where the work output fits into it. The rebuilt
/// input may take a tenth of the capacity: a successful compaction must create
/// substantial headroom instead of merely making the next request fit.
pub open spec fn budgets_for(
    capacity: u32,
    work_output_tokens: u64,
    supports_low: bool,
) -> Option<CompactionBudgets> {
    if work_output_tokens > capacity {
        None
    } else {
        Some(
            CompactionBudgets {
                summary_output_tokens: summary_budget(capacity),
                summary_reasoning_tokens: if supports_low {
                    summary_budget(capacity) / 4
                } else {
                    0
                },
                rebuilt_input_target: (capacity / 10) as u64,
                recent_tail_limit: (capacity / 10) as u64,
            },
        )
    }
}

impl CompactionBudgets {
    pub fn new(capacity: u32, work_output_tokens: u64, supports_low: bool) -> (r: Option<Self>)
        ensures
            r == budgets_for(capacity, work_output_tokens, supports_low),
    {
        let tokens: u64 = capacity as u64;
        if work_output_tokens > tokens {
            return None;
        }
        let eighth: u64 = tokens / 8;
        let summary_output_tokens: u64 = if eighth <= 16_384 {
            eighth
        } else {
            16_384
        };
        let rebuilt_input_target: u64 = tokens / 10;
        Some(
            CompactionBudgets {
                summary_output_tokens,
                summary_reasoning_tokens: if supports_low {
                    summary_output_tokens / 4
                } else {
                    0
                },
                rebuilt_input_target,
                recent_tail_limit: rebuilt_input_target,
            },
        )
    }
}

/// Budgets leave headroom: the rebuilt prompt stays under the threshold of a
/// new compaction, and the summary under the capacity.
pub proof fn budgets_leave_headroom(capacity: u32, work_output_tokens: u64, supports_low: bool)
    requires
        capacity > 0,
        work_output_tokens <= capacity,
    ensures
        budgets_for(capacity, work_output_tokens, supports_low) matches Some(budgets) && {
            &&& budgets.rebuilt_input_target < trigger_threshold(capacity)
            &&& budgets.summary_output_tokens <= capacity
            &&& budgets.summary_reasoning_tokens <= budgets.summary_output_tokens
        },
{
}

} // verus!
