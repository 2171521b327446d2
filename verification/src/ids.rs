//! Names of extensions, tools and effects.

use std::str::FromStr;

use vstd::prelude::*;
use vstd::string::*;

use crate::order::Named;
use crate::text::{chars_of, cut, digit, is_digit, is_lower, lower, pieces, split, split_once};
use crate::value::{contents, Abstract};

verus! {

/// What `{:?}` writes of a text: the text in quotes, with escapes.
pub uninterp spec fn quoted(text: Seq<char>) -> Seq<char>;

/// The `Debug` form of a `str`. Of the result is claimed that it is the same
/// for the same text.
#[verifier::external_body]
pub(crate) fn quoted_text(text: &str) -> (r: String)
    ensures
        r@ == quoted(text@),
{
    format!("{text:?}")
}

/// A name that is not one of its kind.
#[derive(Clone, Debug, Eq, PartialEq)]
pub struct IdentifierError {
    kind: &'static str,
    value: String,
}

impl IdentifierError {
    pub closed spec fn kind(&self) -> &'static str {
        self.kind
    }

    pub closed spec fn value(&self) -> Seq<char> {
        self.value@
    }

    /// The sentence that tells a reader of this error.
    pub open spec fn message(&self) -> Seq<char> {
        "invalid "@ + self.kind()@ + " ID: "@ + quoted(self.value())
    }

    pub fn to_string(&self) -> (r: String)
        ensures
            r@ == self.message(),
    {
        "invalid ".to_owned().concat(self.kind).concat(" ID: ").concat(
            quoted_text(self.value.as_str()).as_str(),
        )
    }
}

/// A character that may stand in a name after its first one.
pub open spec fn is_local_char(c: char) -> bool {
    is_lower(c) || is_digit(c) || c == '-' || c == '_'
}

/// A simple name: a lowercase letter, then at most 127 lowercase letters,
/// digits, hyphens and underscores.
pub open spec fn is_local(s: Seq<char>) -> bool {
    &&& 0 < s.len() <= 128
    &&& is_lower(s[0])
    &&& forall|i: int| 0 <= i < s.len() ==> is_local_char(#[trigger] s[i])
}

/// A dotted name: simple names with dots between them, at most 128 characters
/// in all.
pub open spec fn is_dotted(s: Seq<char>) -> bool {
    &&& 0 < s.len() <= 128
    &&& forall|k: int| 0 <= k < pieces(s, '.').len() ==> is_local(#[trigger] pieces(s, '.')[k])
}

/// A qualified name: the dotted name of the owner, a colon, and a dotted name.
pub open spec fn is_qualified(s: Seq<char>) -> bool {
    match cut(s, seq![':']) {
        Some((owner, local)) => is_dotted(owner) && is_dotted(local),
        None => false,
    }
}

pub fn valid_local(value: &str) -> (b: bool)
    ensures
        b == is_local(value@),
{
    let chars: Vec<char> = chars_of(value);
    if chars.len() == 0 || chars.len() > 128 || !lower(chars[0]) {
        return false;
    }
    let mut i: usize = 0;
    while i < chars.len()
        invariant
            i <= chars@.len(),
            chars@ == value@,
            forall|k: int| 0 <= k < i ==> is_local_char(#[trigger] chars@[k]),
        decreases chars@.len() - i,
    {
        let c: char = chars[i];
        if !(lower(c) || digit(c) || c == '-' || c == '_') {
            return false;
        }
        i += 1;
    }
    true
}

pub fn valid_segments(value: &str) -> (b: bool)
    ensures
        b == is_dotted(value@),
{
    let count: usize = chars_of(value).len();
    if count == 0 || count > 128 {
        return false;
    }
    let parts: Vec<String> = split(value, '.');
    let mut i: usize = 0;
    while i < parts.len()
        invariant
            i <= parts@.len(),
            contents(parts@) == pieces(value@, '.'),
            forall|k: int| 0 <= k < i ==> is_local(#[trigger] pieces(value@, '.')[k]),
        decreases parts@.len() - i,
    {
        assert(pieces(value@, '.')[i as int] == parts@[i as int]@);
        if !valid_local(parts[i].as_str()) {
            return false;
        }
        i += 1;
    }
    true
}

fn valid_qualified(value: &str) -> (b: bool)
    ensures
        b == is_qualified(value@),
{
    proof {
        reveal_strlit(":");
        assert(":"@ =~= seq![':']);
    }
    match split_once(value, ":") {
        Some((owner, local)) => valid_segments(owner.as_str()) && valid_segments(local.as_str()),
        None => false,
    }
}

/// The dotted name of an extension.
#[derive(Debug, Eq, Hash, Ord, PartialEq, PartialOrd)]
pub struct ExtensionId {
    text: String,
}

impl ExtensionId {
    #[verifier::type_invariant]
    spec fn is_name(self) -> bool {
        is_dotted(self.text@)
    }

    pub closed spec fn view(&self) -> Seq<char> {
        self.text@
    }

    /// The name with that text.
    pub fn new(value: &str) -> (r: Result<ExtensionId, IdentifierError>)
        ensures
            match r {
                Ok(id) => is_dotted(value@) && id@ == value@,
                Err(error) => !is_dotted(value@) && error.kind() == "Extension" && error.value()
                    == value@,
            },
    {
        if valid_segments(value) {
            Ok(ExtensionId { text: value.to_owned() })
        } else {
            Err(IdentifierError { kind: "Extension", value: value.to_owned() })
        }
    }

    pub fn as_str(&self) -> (r: &str)
        ensures
            r@ == self@,
            is_dotted(r@),
    {
        proof {
            use_type_invariant(self);
        }
        self.text.as_str()
    }

    pub fn to_string(&self) -> (r: String)
        ensures
            r@ == self@,
    {
        self.text.clone()
    }
}

impl Clone for ExtensionId {
    fn clone(&self) -> (r: ExtensionId)
        ensures
            r@ == self@,
    {
        self.duplicate()
    }
}

impl FromStr for ExtensionId {
    type Err = IdentifierError;

    fn from_str(value: &str) -> Result<ExtensionId, IdentifierError> {
        ExtensionId::new(value)
    }
}

impl Abstract for ExtensionId {
    type Abs = Seq<char>;

    open spec fn abs(&self) -> Seq<char> {
        self@
    }

    fn duplicate(&self) -> ExtensionId {
        proof {
            use_type_invariant(self);
        }
        ExtensionId { text: self.text.clone() }
    }

    fn same(&self, other: &ExtensionId) -> bool {
        self.text == other.text
    }
}

/// The qualified name of a tool.
#[derive(Debug, Eq, Hash, Ord, PartialEq, PartialOrd)]
pub struct ToolId {
    text: String,
}

impl ToolId {
    #[verifier::type_invariant]
    spec fn is_name(self) -> bool {
        is_qualified(self.text@)
    }

    pub closed spec fn view(&self) -> Seq<char> {
        self.text@
    }

    /// The name with that text.
    pub fn new(value: &str) -> (r: Result<ToolId, IdentifierError>)
        ensures
            match r {
                Ok(id) => is_qualified(value@) && id@ == value@,
                Err(error) => !is_qualified(value@) && error.kind() == "Tool" && error.value()
                    == value@,
            },
    {
        if valid_qualified(value) {
            Ok(ToolId { text: value.to_owned() })
        } else {
            Err(IdentifierError { kind: "Tool", value: value.to_owned() })
        }
    }

    pub fn as_str(&self) -> (r: &str)
        ensures
            r@ == self@,
            is_qualified(r@),
    {
        proof {
            use_type_invariant(self);
        }
        self.text.as_str()
    }

    pub fn to_string(&self) -> (r: String)
        ensures
            r@ == self@,
    {
        self.text.clone()
    }
}

impl Clone for ToolId {
    fn clone(&self) -> (r: ToolId)
        ensures
            r@ == self@,
    {
        self.duplicate()
    }
}

impl FromStr for ToolId {
    type Err = IdentifierError;

    fn from_str(value: &str) -> Result<ToolId, IdentifierError> {
        ToolId::new(value)
    }
}

impl Abstract for ToolId {
    type Abs = Seq<char>;

    open spec fn abs(&self) -> Seq<char> {
        self@
    }

    fn duplicate(&self) -> ToolId {
        proof {
            use_type_invariant(self);
        }
        ToolId { text: self.text.clone() }
    }

    fn same(&self, other: &ToolId) -> bool {
        self.text == other.text
    }
}

/// The qualified name of an effect.
#[derive(Debug, Eq, Hash, Ord, PartialEq, PartialOrd)]
pub struct EffectId {
    text: String,
}

impl EffectId {
    #[verifier::type_invariant]
    spec fn is_name(self) -> bool {
        is_qualified(self.text@)
    }

    pub closed spec fn view(&self) -> Seq<char> {
        self.text@
    }

    /// The name with that text.
    pub fn new(value: &str) -> (r: Result<EffectId, IdentifierError>)
        ensures
            match r {
                Ok(id) => is_qualified(value@) && id@ == value@,
                Err(error) => !is_qualified(value@) && error.kind() == "Effect" && error.value()
                    == value@,
            },
    {
        if valid_qualified(value) {
            Ok(EffectId { text: value.to_owned() })
        } else {
            Err(IdentifierError { kind: "Effect", value: value.to_owned() })
        }
    }

    pub fn as_str(&self) -> (r: &str)
        ensures
            r@ == self@,
            is_qualified(r@),
    {
        proof {
            use_type_invariant(self);
        }
        self.text.as_str()
    }

    pub fn to_string(&self) -> (r: String)
        ensures
            r@ == self@,
    {
        self.text.clone()
    }
}

impl Clone for EffectId {
    fn clone(&self) -> (r: EffectId)
        ensures
            r@ == self@,
    {
        self.duplicate()
    }
}

impl FromStr for EffectId {
    type Err = IdentifierError;

    fn from_str(value: &str) -> Result<EffectId, IdentifierError> {
        EffectId::new(value)
    }
}

impl Abstract for EffectId {
    type Abs = Seq<char>;

    open spec fn abs(&self) -> Seq<char> {
        self@
    }

    fn duplicate(&self) -> EffectId {
        proof {
            use_type_invariant(self);
        }
        EffectId { text: self.text.clone() }
    }

    fn same(&self, other: &EffectId) -> bool {
        self.text == other.text
    }
}

impl Named for EffectId {
    fn name(&self) -> &str {
        self.text.as_str()
    }
}

} // verus!
