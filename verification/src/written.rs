//! Values as compact JSON text, with the members of an object in the order in
//! which its type declares them.

use vstd::prelude::*;
use vstd::string::*;

use crate::content::Content;
use crate::correlation_id::{identity_text, AgentRunId, MessageId};
use crate::effect::CanonicalJson;
use crate::ids::{EffectId, ToolId};
use crate::json::{json_abs_cases, json_text, to_value, write_json, Json, JsonAbs};
use crate::num::NonZeroU32;
use crate::package::{PackageId, PackageVersion};
use crate::text::{decimal, decimal_of};
use crate::value::{contents, contents_push, Abstract};

verus! {

/// A value that is written as JSON.
pub trait Written: Abstract {
    /// The text of a value with that content.
    spec fn written(content: Self::Abs) -> Seq<char>;

    fn write(&self) -> (r: String)
        ensures
            r@ == Self::written(self.abs()),
    ;
}

// ---------------------------------------------------------------------------
// Layout
// ---------------------------------------------------------------------------

/// Texts with commas between them.
pub open spec fn separated(parts: Seq<Seq<char>>) -> Seq<char>
    decreases parts.len(),
{
    if parts.len() == 0 {
        Seq::empty()
    } else if parts.len() == 1 {
        parts[0]
    } else {
        separated(parts.drop_last()) + ","@ + parts.last()
    }
}

/// An array of written values.
pub open spec fn array_text(items: Seq<Seq<char>>) -> Seq<char> {
    "["@ + separated(items) + "]"@
}

/// A member of an object, whose name needs no escape.
pub open spec fn member_text(name: Seq<char>, value: Seq<char>) -> Seq<char> {
    "\""@ + name + "\":"@ + value
}

/// An object of written members.
pub open spec fn object_text(members: Seq<Seq<char>>) -> Seq<char> {
    "{"@ + separated(members) + "}"@
}

/// A text as a JSON string.
pub open spec fn string_text(text: Seq<char>) -> Seq<char> {
    json_text(JsonAbs::Text(text))
}

/// A name that needs no escape, as a JSON string.
pub open spec fn name_text(name: Seq<char>) -> Seq<char> {
    "\""@ + name + "\""@
}

fn separate(parts: &Vec<String>) -> (r: String)
    ensures
        r@ == separated(contents(parts@)),
{
    let ghost all = contents(parts@);
    let mut out: String = String::new();
    let mut i: usize = 0;
    assert(separated(all.take(0)) =~= Seq::<char>::empty());
    while i < parts.len()
        invariant
            i <= parts@.len(),
            all == contents(parts@),
            out@ == separated(all.take(i as int)),
        decreases parts@.len() - i,
    {
        let ghost next = all.take(i + 1);
        assert(next.drop_last() =~= all.take(i as int));
        assert(next.last() == parts@[i as int]@);
        if i > 0 {
            out.append(",");
        }
        out.append(parts[i].as_str());
        i += 1;
        assert(out@ =~= separated(next));
    }
    assert(all.take(i as int) =~= all);
    out
}

/// A text, written as a JSON string.
pub fn write_string(text: &str) -> (r: String)
    ensures
        r@ == string_text(text@),
{
    broadcast use json_abs_cases;

    let json: Json = Json::Text(text.to_owned());
    write_json(&to_value(&json))
}

/// A name that needs no escape, written as a JSON string.
pub fn write_name(name: &str) -> (r: String)
    ensures
        r@ == name_text(name@),
{
    "\"".to_owned().concat(name).concat("\"")
}

/// The written members of an object.
pub struct Members {
    parts: Vec<String>,
}

impl Members {
    pub closed spec fn view(&self) -> Seq<Seq<char>> {
        contents(self.parts@)
    }

    pub fn new() -> (r: Members)
        ensures
            r@ == Seq::<Seq<char>>::empty(),
    {
        let r: Members = Members { parts: Vec::new() };
        assert(r@ =~= Seq::<Seq<char>>::empty());
        r
    }

    /// Adds a member, whose name needs no escape.
    pub fn with<T: Written>(self, name: &str, value: &T) -> (r: Members)
        ensures
            r@ == self@.push(member_text(name@, T::written(value.abs()))),
    {
        broadcast use contents_push;

        let mut parts: Vec<String> = self.parts;
        let text: String = "\"".to_owned().concat(name).concat("\":").concat(
            value.write().as_str(),
        );
        parts.push(text);
        Members { parts }
    }

    /// The object with these members.
    pub fn finish(&self) -> (r: String)
        ensures
            r@ == object_text(self@),
    {
        "{".to_owned().concat(separate(&self.parts).as_str()).concat("}")
    }
}

// ---------------------------------------------------------------------------
// Plain values
// ---------------------------------------------------------------------------

impl Written for bool {
    open spec fn written(content: bool) -> Seq<char> {
        if content {
            "true"@
        } else {
            "false"@
        }
    }

    fn write(&self) -> String {
        if *self {
            "true".to_owned()
        } else {
            "false".to_owned()
        }
    }
}

impl Written for u64 {
    open spec fn written(content: u64) -> Seq<char> {
        decimal(content as nat)
    }

    fn write(&self) -> String {
        decimal_of(*self)
    }
}

impl Written for u32 {
    open spec fn written(content: u32) -> Seq<char> {
        decimal(content as nat)
    }

    fn write(&self) -> String {
        decimal_of(*self as u64)
    }
}

impl Written for NonZeroU32 {
    open spec fn written(content: u32) -> Seq<char> {
        decimal(content as nat)
    }

    fn write(&self) -> String {
        decimal_of(self.get() as u64)
    }
}

impl Written for String {
    open spec fn written(content: Seq<char>) -> Seq<char> {
        string_text(content)
    }

    fn write(&self) -> String {
        write_string(self.as_str())
    }
}

impl<T: Written> Written for Option<T> {
    open spec fn written(content: Option<T::Abs>) -> Seq<char> {
        match content {
            Some(value) => T::written(value),
            None => "null"@,
        }
    }

    fn write(&self) -> String {
        match self {
            Some(value) => value.write(),
            None => "null".to_owned(),
        }
    }
}

impl<T: Written> Written for Box<T> {
    open spec fn written(content: T::Abs) -> Seq<char> {
        T::written(content)
    }

    fn write(&self) -> String {
        (**self).write()
    }
}

/// The texts of some values.
pub open spec fn each_written<T: Written>(items: Seq<T::Abs>) -> Seq<Seq<char>> {
    Seq::new(items.len(), |i: int| T::written(items[i]))
}

impl<T: Written> Written for Vec<T> {
    open spec fn written(content: Seq<T::Abs>) -> Seq<char> {
        array_text(each_written::<T>(content))
    }

    fn write(&self) -> String {
        broadcast use contents_push;

        let ghost all = self.abs();
        let mut parts: Vec<String> = Vec::new();
        let mut i: usize = 0;
        assert(contents(parts@) =~= each_written::<T>(all).take(0));
        while i < self.len()
            invariant
                i <= self@.len(),
                all == contents(self@),
                all == self.abs(),
                contents(parts@) == each_written::<T>(all).take(i as int),
            decreases self@.len() - i,
        {
            let text: String = self[i].write();
            assert(all[i as int] == self@[i as int].abs());
            parts.push(text);
            assert(each_written::<T>(all).take(i + 1) =~= each_written::<T>(all).take(
                i as int,
            ).push(T::written(all[i as int])));
            i += 1;
        }
        assert(each_written::<T>(all).take(i as int) =~= each_written::<T>(all));
        "[".to_owned().concat(separate(&parts).as_str()).concat("]")
    }
}

// ---------------------------------------------------------------------------
// Identities, JSON and content
// ---------------------------------------------------------------------------

impl Written for MessageId {
    open spec fn written(content: Seq<char>) -> Seq<char> {
        string_text(content)
    }

    fn write(&self) -> String {
        write_string(self.as_str())
    }
}

impl Written for AgentRunId {
    open spec fn written(content: Seq<u8>) -> Seq<char> {
        string_text(identity_text("run_", content))
    }

    fn write(&self) -> String {
        write_string(self.to_string().as_str())
    }
}

impl Written for ToolId {
    open spec fn written(content: Seq<char>) -> Seq<char> {
        string_text(content)
    }

    fn write(&self) -> String {
        write_string(self.as_str())
    }
}

impl Written for EffectId {
    open spec fn written(content: Seq<char>) -> Seq<char> {
        string_text(content)
    }

    fn write(&self) -> String {
        write_string(self.as_str())
    }
}

impl Written for PackageId {
    open spec fn written(content: Seq<char>) -> Seq<char> {
        string_text(content)
    }

    fn write(&self) -> String {
        write_string(self.as_str())
    }
}

impl Written for PackageVersion {
    open spec fn written(content: Seq<char>) -> Seq<char> {
        string_text(content)
    }

    fn write(&self) -> String {
        write_string(self.to_string().as_str())
    }
}

impl Written for CanonicalJson {
    open spec fn written(content: JsonAbs) -> Seq<char> {
        json_text(content)
    }

    fn write(&self) -> String {
        self.to_text()
    }
}

impl Written for Content {
    open spec fn written(content: Seq<char>) -> Seq<char> {
        object_text(seq![member_text("text"@, string_text(content))])
    }

    fn write(&self) -> String {
        let text: String = self.as_text().to_owned();
        Members::new().with("text", &text).finish()
    }
}

} // verus!
