//! Effects, the JSON that describes their scope, and grants of authority.

use vstd::prelude::*;
use vstd::string::*;

use crate::ids::EffectId;
use crate::json::{
    compiles_as_schema, conforms, is_json_schema, json_abs, json_abs_cases, json_text, to_value,
    validates, write_json, Json, JsonAbs,
};
use crate::text::{
    byte_len, bytes_in, precedes, precedes_irreflexive, precedes_transitive, text_before,
};
use crate::value::Abstract;

verus! {

/// The largest canonical JSON, in bytes of its compact text.
pub const MAX_CANONICAL_JSON_BYTES: usize = 65_536;

/// The deepest nesting of canonical JSON.
pub const MAX_CANONICAL_JSON_DEPTH: usize = 32;

/// Whether no value lies deeper than `depth` levels below the outermost one.
pub open spec fn nests_within(json: JsonAbs, depth: int) -> bool
    decreases json,
{
    depth >= 0 && match json {
        JsonAbs::Array(items) => forall|i: int|
            0 <= i < items.len() ==> nests_within(#[trigger] items[i], depth - 1),
        JsonAbs::Object(members) => forall|i: int|
            0 <= i < members.len() ==> nests_within((#[trigger] members[i]).1, depth - 1),
        _ => true,
    }
}

/// What lies in a value nests one level less deep.
pub proof fn nested_part(json: JsonAbs, depth: int, i: int)
    requires
        nests_within(json, depth),
    ensures
        json matches JsonAbs::Array(items) ==> 0 <= i < items.len() ==> nests_within(
            items[i],
            depth - 1,
        ),
        json matches JsonAbs::Object(members) ==> 0 <= i < members.len() ==> nests_within(
            members[i].1,
            depth - 1,
        ),
{
}

/// Why a value is no canonical JSON, if it is none.
pub open spec fn canonical_failure(json: JsonAbs) -> Option<&'static str> {
    if !nests_within(json, MAX_CANONICAL_JSON_DEPTH as int) {
        Some("JSON nesting exceeds 32 levels")
    } else if byte_len(json_text(json)) > MAX_CANONICAL_JSON_BYTES {
        Some("JSON exceeds 64 KiB")
    } else {
        None
    }
}

/// A bounded JSON value in canonical form: the members of every object stand
/// in the order of their keys.
#[derive(Debug, Eq, PartialEq)]
pub struct CanonicalJson {
    json: Json,
}

/// The value itself, where it nests no deeper than the bound; `depth` counts
/// the levels above it.
fn canonicalize(value: Json, depth: usize) -> (r: Result<Json, &'static str>)
    requires
        depth <= MAX_CANONICAL_JSON_DEPTH + 1,
    ensures
        match r {
            Ok(json) => json == value && nests_within(
                json_abs(value),
                MAX_CANONICAL_JSON_DEPTH - depth,
            ),
            Err(error) => error == "JSON nesting exceeds 32 levels" && !nests_within(
                json_abs(value),
                MAX_CANONICAL_JSON_DEPTH - depth,
            ),
        },
{
    if within_depth(&value, MAX_CANONICAL_JSON_DEPTH, depth) {
        Ok(value)
    } else {
        Err("JSON nesting exceeds 32 levels")
    }
}

/// Whether no value lies deeper than `limit` levels below the outermost one;
/// `depth` counts the levels above this one.
pub(crate) fn within_depth(value: &Json, limit: usize, depth: usize) -> (b: bool)
    requires
        depth <= limit + 1,
        limit < usize::MAX,
    ensures
        b == nests_within(json_abs(*value), limit - depth),
    decreases value,
{
    broadcast use json_abs_cases;

    if depth > limit {
        return false;
    }
    let ghost left = limit - depth;
    match value {
        Json::Array(items) => {
            let ghost abs = json_abs(*value)->Array_0;
            let mut i: usize = 0;
            while i < items.len()
                invariant
                    i <= items@.len(),
                    depth <= limit < usize::MAX,
                    left == limit - depth,
                    *value == Json::Array(*items),
                    json_abs(*value) == JsonAbs::Array(abs),
                    abs == Seq::new(items@.len(), |i: int| json_abs(items@[i])),
                    forall|k: int| 0 <= k < i ==> nests_within(#[trigger] abs[k], left - 1),
                decreases items@.len() - i,
            {
                assert(decreases_to!(*value => value->Array_0));
                assert(abs[i as int] == json_abs(items@[i as int]));
                if !within_depth(&items[i], limit, depth + 1) {
                    proof {
                        if nests_within(json_abs(*value), left) {
                            nested_part(json_abs(*value), left, i as int);
                        }
                    }
                    return false;
                }
                i += 1;
            }
            true
        },
        Json::Object(map) => {
            let ghost abs = map@;
            let mut i: usize = 0;
            while i < map.len()
                invariant
                    i <= abs.len(),
                    depth <= limit < usize::MAX,
                    left == limit - depth,
                    *value == Json::Object(*map),
                    json_abs(*value) == JsonAbs::Object(abs),
                    abs == map@,
                    forall|k: int| 0 <= k < i ==> nests_within((#[trigger] abs[k]).1, left - 1),
                decreases abs.len() - i,
            {
                assert(decreases_to!(*value => value->Object_0));
                if !within_depth(map.value(i), limit, depth + 1) {
                    proof {
                        if nests_within(json_abs(*value), left) {
                            nested_part(json_abs(*value), left, i as int);
                        }
                    }
                    return false;
                }
                i += 1;
            }
            true
        },
        _ => true,
    }
}

impl CanonicalJson {
    #[verifier::type_invariant]
    spec fn is_canonical(self) -> bool {
        canonical_failure(json_abs(self.json)) is None
    }

    pub closed spec fn view(&self) -> JsonAbs {
        json_abs(self.json)
    }

    pub fn new(value: Json) -> (r: Result<CanonicalJson, &'static str>)
        ensures
            match r {
                Ok(canonical) => canonical_failure(json_abs(value)) is None && canonical@
                    == json_abs(value),
                Err(error) => canonical_failure(json_abs(value)) == Some(error),
            },
    {
        let json: Json = match canonicalize(value, 0) {
            Ok(json) => json,
            Err(error) => {
                return Err(error);
            },
        };
        let text: String = write_json(&to_value(&json));
        if bytes_in(text.as_str()) > MAX_CANONICAL_JSON_BYTES {
            return Err("JSON exceeds 64 KiB");
        }
        Ok(CanonicalJson { json })
    }

    pub fn as_value(&self) -> (r: &Json)
        ensures
            json_abs(*r) == self@,
            canonical_failure(self@) is None,
    {
        proof {
            use_type_invariant(self);
        }
        &self.json
    }

    pub fn into_value(self) -> (r: Json)
        ensures
            json_abs(r) == self@,
    {
        self.json
    }

    /// The compact text of the value.
    pub fn to_text(&self) -> (r: String)
        ensures
            r@ == json_text(self@),
    {
        write_json(&to_value(&self.json))
    }
}

impl Clone for CanonicalJson {
    fn clone(&self) -> (r: CanonicalJson)
        ensures
            r@ == self@,
    {
        self.duplicate()
    }
}

impl Abstract for CanonicalJson {
    type Abs = JsonAbs;

    open spec fn abs(&self) -> JsonAbs {
        self@
    }

    fn duplicate(&self) -> CanonicalJson {
        proof {
            use_type_invariant(self);
        }
        CanonicalJson { json: self.json.duplicate() }
    }

    fn same(&self, other: &CanonicalJson) -> bool {
        self.json.same(&other.json)
    }
}

/// Why a value is no JSON Schema here, if it is none.
pub open spec fn schema_failure(json: JsonAbs) -> Option<&'static str> {
    if !is_json_schema(json) {
        Some("invalid JSON Schema")
    } else {
        canonical_failure(json)
    }
}

/// A JSON Schema in canonical form.
#[derive(Clone, Debug, Eq, PartialEq)]
pub struct JsonSchema {
    schema: CanonicalJson,
}

impl JsonSchema {
    pub closed spec fn view(&self) -> JsonAbs {
        self.schema@
    }

    pub fn new(value: Json) -> (r: Result<JsonSchema, &'static str>)
        ensures
            match r {
                Ok(schema) => schema_failure(json_abs(value)) is None && schema@ == json_abs(value),
                Err(error) => schema_failure(json_abs(value)) == Some(error),
            },
    {
        if !compiles_as_schema(&to_value(&value)) {
            return Err("invalid JSON Schema");
        }
        match CanonicalJson::new(value) {
            Ok(schema) => Ok(JsonSchema { schema }),
            Err(error) => Err(error),
        }
    }

    /// Accepts exactly the values that conform to the schema.
    pub fn validate(&self, value: &CanonicalJson) -> (r: Result<(), &'static str>)
        ensures
            r == if !is_json_schema(self@) {
                Err::<(), &'static str>("invalid JSON Schema")
            } else if !conforms(self@, value@) {
                Err("value does not match JSON Schema")
            } else {
                Ok(())
            },
    {
        let schema: serde_json::Value = to_value(self.schema.as_value());
        if !compiles_as_schema(&schema) {
            return Err("invalid JSON Schema");
        }
        if validates(&schema, &to_value(value.as_value())) {
            Ok(())
        } else {
            Err("value does not match JSON Schema")
        }
    }

    pub fn as_value(&self) -> (r: &Json)
        ensures
            json_abs(*r) == self@,
    {
        self.schema.as_value()
    }
}

impl Abstract for JsonSchema {
    type Abs = JsonAbs;

    open spec fn abs(&self) -> JsonAbs {
        self@
    }

    fn duplicate(&self) -> JsonSchema {
        JsonSchema { schema: self.schema.duplicate() }
    }

    fn same(&self, other: &JsonSchema) -> bool {
        self.schema.same(&other.schema)
    }
}

/// An effect that an extension declares.
#[derive(Clone, Debug, Eq, PartialEq)]
pub struct EffectDefinition {
    pub id: EffectId,
    pub description: String,
    pub scope_schema: JsonSchema,
}

/// Authority over one effect in one scope.
#[derive(Clone, Debug, Eq, PartialEq)]
pub struct AuthorityGrant {
    pub effect: EffectId,
    pub scope: CanonicalJson,
}

/// The grants of a run.
#[derive(Clone, Debug, Eq, PartialEq)]
pub struct AuthorityGrantSet(pub Vec<AuthorityGrant>);

impl Default for AuthorityGrantSet {
    fn default() -> (r: AuthorityGrantSet)
        ensures
            r.0@.len() == 0,
    {
        AuthorityGrantSet(Vec::new())
    }
}

/// The order of grants: by effect, then by the compact text of the scope.
pub open spec fn grant_precedes(left: AuthorityGrant, right: AuthorityGrant) -> bool {
    precedes(left.effect@, right.effect@) || (left.effect@ == right.effect@ && precedes(
        json_text(left.scope@),
        json_text(right.scope@),
    ))
}

impl AuthorityGrantSet {
    /// Whether every grant comes before the next one.
    pub open spec fn is_ordered(&self) -> bool {
        forall|i: int|
            0 <= i < self.0@.len() - 1 ==> grant_precedes(#[trigger] self.0@[i], self.0@[i + 1])
    }

    pub fn validate(&self) -> (r: Result<(), &'static str>)
        ensures
            r == if self.is_ordered() {
                Ok::<(), &'static str>(())
            } else {
                Err("authority grants must be sorted and duplicate-free")
            },
    {
        let mut i: usize = 1;
        while i < self.0.len()
            invariant
                1 <= i,
                i <= self.0@.len() || i == 1,
                forall|k: int|
                    0 <= k < i - 1 ==> grant_precedes(#[trigger] self.0@[k], self.0@[k + 1]),
            decreases self.0@.len() - i,
        {
            let left: &AuthorityGrant = &self.0[i - 1];
            let right: &AuthorityGrant = &self.0[i];
            let before: bool = text_before(left.effect.as_str(), right.effect.as_str()) || (
            left.effect.same(&right.effect) && text_before(
                left.scope.to_text().as_str(),
                right.scope.to_text().as_str(),
            ));
            if !before {
                assert(!grant_precedes(self.0@[i - 1], self.0@[i - 1 + 1]));
                return Err("authority grants must be sorted and duplicate-free");
            }
            assert(grant_precedes(self.0@[i - 1], self.0@[i - 1 + 1]));
            i += 1;
        }
        Ok(())
    }
}

/// In an ordered set every earlier grant comes before every later one, so no
/// grant occurs twice.
pub proof fn ordered_grants_are_distinct(grants: AuthorityGrantSet, i: int, j: int)
    requires
        grants.is_ordered(),
        0 <= i < j < grants.0@.len(),
    ensures
        grant_precedes(grants.0@[i], grants.0@[j]),
        grants.0@[i].effect@ != grants.0@[j].effect@ || grants.0@[i].scope@
            != grants.0@[j].scope@,
    decreases j - i,
{
    let a = grants.0@[i];
    let c = grants.0@[j];
    precedes_irreflexive(a.effect@);
    precedes_irreflexive(c.effect@);
    precedes_irreflexive(json_text(a.scope@));
    assert(grant_precedes(grants.0@[j - 1], grants.0@[j - 1 + 1]));
    if i < j - 1 {
        ordered_grants_are_distinct(grants, i, j - 1);
        let b = grants.0@[j - 1];
        if a.effect@ == b.effect@ && b.effect@ == c.effect@ {
            precedes_transitive(
                json_text(a.scope@),
                json_text(b.scope@),
                json_text(c.scope@),
            );
        } else if a.effect@ != b.effect@ && b.effect@ != c.effect@ {
            precedes_transitive(a.effect@, b.effect@, c.effect@);
        }
    }
}

} // verus!
