//! Definitions of tools.

use vstd::prelude::*;

use crate::agent::operation::DeliveryClass;
use crate::effect::JsonSchema;
use crate::ids::{EffectId, ToolId};
use crate::text::{blank, is_blank, precedes, text_before};
use crate::value::Abstract;

verus! {

/// A tool that a model may call.
#[derive(Clone, Debug, Eq, PartialEq)]
pub struct ToolDefinition {
    pub id: ToolId,
    pub description: String,
    pub input_schema: JsonSchema,
    pub required_effects: Vec<EffectId>,
    pub delivery: DeliveryClass,
}

/// Whether every effect comes before the next one, so that none occurs twice.
pub open spec fn effects_in_order(effects: Seq<EffectId>) -> bool {
    forall|i: int|
        0 <= i < effects.len() - 1 ==> precedes(#[trigger] effects[i]@, effects[i + 1]@)
}

impl ToolDefinition {
    /// Why the definition is not valid, if it is not.
    pub open spec fn failure(&self) -> Option<&'static str> {
        if is_blank(self.description@) {
            Some("Tool description cannot be empty")
        } else if !effects_in_order(self.required_effects@) {
            Some("Tool required Effects must be sorted and duplicate-free")
        } else {
            None
        }
    }

    pub fn validate(&self) -> (r: Result<(), &'static str>)
        ensures
            match r {
                Ok(_) => self.failure() is None,
                Err(error) => self.failure() == Some(error),
            },
    {
        if blank(self.description.as_str()) {
            return Err("Tool description cannot be empty");
        }
        let mut i: usize = 1;
        while i < self.required_effects.len()
            invariant
                1 <= i,
                i <= self.required_effects@.len() || i == 1,
                !is_blank(self.description@),
                forall|k: int|
                    0 <= k < i - 1 ==> precedes(
                        #[trigger] self.required_effects@[k]@,
                        self.required_effects@[k + 1]@,
                    ),
            decreases self.required_effects@.len() - i,
        {
            if !text_before(
                self.required_effects[i - 1].as_str(),
                self.required_effects[i].as_str(),
            ) {
                assert(!precedes(
                    self.required_effects@[i - 1]@,
                    self.required_effects@[i - 1 + 1]@,
                ));
                return Err("Tool required Effects must be sorted and duplicate-free");
            }
            assert(precedes(self.required_effects@[i - 1]@, self.required_effects@[i - 1 + 1]@));
            i += 1;
        }
        Ok(())
    }
}

} // verus!
