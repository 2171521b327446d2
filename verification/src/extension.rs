//! Definitions of extensions: the effects they declare and the tools they own.

use vstd::prelude::*;
use vstd::string::*;

use crate::effect::EffectDefinition;
use crate::ids::ExtensionId;
use crate::order::{are_distinct, ascend, ascending, distinct, is_among, texts_of};
use crate::text::{begins, starts_with};
use crate::tool::ToolDefinition;

verus! {

/// An extension: the effects it declares and the tools it owns.
#[derive(Clone, Debug, Eq, PartialEq)]
pub struct ExtensionDefinition {
    pub id: ExtensionId,
    pub effects: Vec<EffectDefinition>,
    pub tools: Vec<ToolDefinition>,
}

impl ExtensionDefinition {
    /// The IDs of the declared effects.
    pub open spec fn effect_ids(&self) -> Seq<Seq<char>> {
        Seq::new(self.effects@.len(), |i: int| self.effects@[i].id@)
    }

    /// The IDs of the tools.
    pub open spec fn tool_ids(&self) -> Seq<Seq<char>> {
        Seq::new(self.tools@.len(), |i: int| self.tools@[i].id@)
    }

    /// Whether the ID of a tool begins with that of the extension.
    pub open spec fn owns(&self, tool: ToolDefinition) -> bool {
        begins(tool.id@, self.id@ + seq![':'])
    }

    /// Whether every effect that a tool requires is declared.
    pub open spec fn declares_all(&self, tool: ToolDefinition) -> bool {
        forall|k: int|
            0 <= k < tool.required_effects@.len() ==> self.effect_ids().contains(
                #[trigger] tool.required_effects@[k]@,
            )
    }

    /// Why a tool does not belong to the extension.
    pub open spec fn tool_failure(&self, tool: ToolDefinition) -> Option<&'static str> {
        if tool.failure() is Some {
            tool.failure()
        } else if !self.owns(tool) {
            Some("Tool ID is not owned by its Extension")
        } else if !self.declares_all(tool) {
            Some("Tool requires an Effect not declared by its Extension")
        } else {
            None
        }
    }

    /// Why the first of the first `n` tools that fails does not belong.
    pub open spec fn tools_failure(&self, n: int) -> Option<&'static str>
        decreases n,
    {
        if n <= 0 {
            None
        } else {
            match self.tools_failure(n - 1) {
                Some(error) => Some(error),
                None => self.tool_failure(self.tools@[n - 1]),
            }
        }
    }

    /// Why the definition is not valid, if it is not.
    pub open spec fn failure(&self) -> Option<&'static str> {
        if !are_distinct(self.effect_ids()) {
            Some("Extension contains duplicate Effect IDs")
        } else if !ascend(self.effect_ids()) {
            Some("Extension Effects must be sorted")
        } else if !are_distinct(self.tool_ids()) {
            Some("Extension contains duplicate Tool IDs")
        } else if !ascend(self.tool_ids()) {
            Some("Extension Tools must be sorted")
        } else {
            self.tools_failure(self.tools@.len() as int)
        }
    }

    proof fn lemma_tools_fail(&self, n: int, m: int)
        requires
            0 <= n <= m,
            self.tools_failure(n) is Some,
        ensures
            self.tools_failure(m) == self.tools_failure(n),
        decreases m,
    {
        if n < m {
            self.lemma_tools_fail(n, m - 1);
        }
    }

    fn effect_names(&self) -> (r: Vec<&str>)
        ensures
            texts_of(r@) == self.effect_ids(),
    {
        let mut out: Vec<&str> = Vec::new();
        let mut i: usize = 0;
        while i < self.effects.len()
            invariant
                i <= self.effects@.len(),
                out@.len() == i,
                forall|k: int| 0 <= k < i ==> (#[trigger] out@[k])@ == self.effects@[k].id@,
            decreases self.effects@.len() - i,
        {
            out.push(self.effects[i].id.as_str());
            i += 1;
        }
        assert(texts_of(out@) =~= self.effect_ids());
        out
    }

    fn tool_names(&self) -> (r: Vec<&str>)
        ensures
            texts_of(r@) == self.tool_ids(),
    {
        let mut out: Vec<&str> = Vec::new();
        let mut i: usize = 0;
        while i < self.tools.len()
            invariant
                i <= self.tools@.len(),
                out@.len() == i,
                forall|k: int| 0 <= k < i ==> (#[trigger] out@[k])@ == self.tools@[k].id@,
            decreases self.tools@.len() - i,
        {
            out.push(self.tools[i].id.as_str());
            i += 1;
        }
        assert(texts_of(out@) =~= self.tool_ids());
        out
    }

    fn validate_tool(&self, tool: &ToolDefinition, effects: &Vec<&str>) -> (r: Result<
        (),
        &'static str,
    >)
        requires
            texts_of(effects@) == self.effect_ids(),
        ensures
            match r {
                Ok(_) => self.tool_failure(*tool) is None,
                Err(error) => self.tool_failure(*tool) == Some(error),
            },
    {
        match tool.validate() {
            Ok(()) => {},
            Err(error) => {
                return Err(error);
            },
        }
        let prefix: String = self.id.to_string().concat(":");
        proof {
            reveal_strlit(":");
            assert(":"@ =~= seq![':']);
        }
        if !starts_with(tool.id.as_str(), prefix.as_str()) {
            return Err("Tool ID is not owned by its Extension");
        }
        let mut k: usize = 0;
        while k < tool.required_effects.len()
            invariant
                k <= tool.required_effects@.len(),
                tool.failure() is None,
                self.owns(*tool),
                texts_of(effects@) == self.effect_ids(),
                forall|j: int|
                    0 <= j < k ==> self.effect_ids().contains(
                        #[trigger] tool.required_effects@[j]@,
                    ),
            decreases tool.required_effects@.len() - k,
        {
            if !is_among(tool.required_effects[k].as_str(), effects) {
                return Err("Tool requires an Effect not declared by its Extension");
            }
            k += 1;
        }
        Ok(())
    }

    pub fn validate(&self) -> (r: Result<(), &'static str>)
        ensures
            match r {
                Ok(_) => self.failure() is None,
                Err(error) => self.failure() == Some(error),
            },
    {
        let effects: Vec<&str> = self.effect_names();
        if !distinct(&effects) {
            return Err("Extension contains duplicate Effect IDs");
        }
        if !ascending(&effects) {
            return Err("Extension Effects must be sorted");
        }
        let tools: Vec<&str> = self.tool_names();
        if !distinct(&tools) {
            return Err("Extension contains duplicate Tool IDs");
        }
        if !ascending(&tools) {
            return Err("Extension Tools must be sorted");
        }
        let mut i: usize = 0;
        while i < self.tools.len()
            invariant
                i <= self.tools@.len(),
                texts_of(effects@) == self.effect_ids(),
                are_distinct(self.effect_ids()),
                ascend(self.effect_ids()),
                are_distinct(self.tool_ids()),
                ascend(self.tool_ids()),
                self.tools_failure(i as int) is None,
            decreases self.tools@.len() - i,
        {
            match self.validate_tool(&self.tools[i], &effects) {
                Ok(()) => {},
                Err(error) => {
                    proof {
                        self.lemma_tools_fail(i + 1, self.tools@.len() as int);
                    }
                    return Err(error);
                },
            }
            i += 1;
        }
        Ok(())
    }
}

/// In a valid extension every tool is valid, is owned by the extension and
/// requires declared effects alone.
pub proof fn tools_of_a_valid_extension_belong(extension: ExtensionDefinition, i: int)
    requires
        extension.failure() is None,
        0 <= i < extension.tools@.len(),
    ensures
        extension.tools@[i].failure() is None,
        extension.owns(extension.tools@[i]),
        extension.declares_all(extension.tools@[i]),
{
    if extension.tools_failure(i + 1) is Some {
        extension.lemma_tools_fail(i + 1, extension.tools@.len() as int);
    }
}

} // verus!
