//! JSON values, with the members of an object in key order.

use vstd::prelude::*;
use vstd::string::*;

use crate::text::{
    decimal, precedes, precedes_irreflexive, precedes_total, precedes_transitive, same_text,
    text_before,
};
use crate::value::Abstract;

verus! {

/// A JSON value. Equality is that of the numbers, texts and parts: a zero
/// equals the zero of the other sign.
#[derive(Debug)]
pub enum Json {
    Null,
    Bool(bool),
    Number(JsonNumber),
    Text(String),
    Array(Vec<Json>),
    Object(JsonMap),
}

/// A JSON number, with the text in which it is written.
#[derive(Debug)]
pub struct JsonNumber {
    number: serde_json::Number,
    text: String,
}

/// The members of a JSON object, in the order of their keys.
#[derive(Debug)]
pub struct JsonMap {
    entries: Vec<(String, Json)>,
}

/// The content of a JSON value.
pub enum JsonAbs {
    Null,
    Bool(bool),
    Number(Seq<char>),
    Text(Seq<char>),
    Array(Seq<JsonAbs>),
    Object(Seq<(Seq<char>, JsonAbs)>),
}

/// Whether the members stand in the order of their keys, each key once.
pub open spec fn in_key_order(members: Seq<(Seq<char>, JsonAbs)>) -> bool {
    forall|i: int, j: int|
        0 <= i < j < members.len() ==> precedes(#[trigger] members[i].0, #[trigger] members[j].0)
}

spec fn keys_in_order(entries: Seq<(String, Json)>) -> bool {
    forall|i: int, j: int|
        0 <= i < j < entries.len() ==> precedes(
            #[trigger] entries[i].0@,
            #[trigger] entries[j].0@,
        )
}

/// The content of a value.
pub closed spec fn json_abs(value: Json) -> JsonAbs
    decreases value,
{
    match value {
        Json::Null => JsonAbs::Null,
        Json::Bool(b) => JsonAbs::Bool(b),
        Json::Number(n) => JsonAbs::Number(n.text@),
        Json::Text(s) => JsonAbs::Text(s@),
        Json::Array(items) => JsonAbs::Array(
            Seq::new(
                items@.len(),
                |i: int|
                    if 0 <= i < items@.len() {
                        json_abs(items@[i])
                    } else {
                        JsonAbs::Null
                    },
            ),
        ),
        Json::Object(map) => JsonAbs::Object(
            Seq::new(
                map.entries@.len(),
                |i: int|
                    if 0 <= i < map.entries@.len() {
                        (map.entries@[i].0@, json_abs(map.entries@[i].1))
                    } else {
                        (Seq::empty(), JsonAbs::Null)
                    },
            ),
        ),
    }
}

/// The members of an object, by content.
pub closed spec fn map_abs(map: JsonMap) -> Seq<(Seq<char>, JsonAbs)> {
    Seq::new(
        map.entries@.len(),
        |i: int| (map.entries@[i].0@, json_abs(map.entries@[i].1)),
    )
}

/// What the content of each kind of value is.
pub broadcast proof fn json_abs_cases(value: Json)
    ensures
        #![trigger json_abs(value)]
        match value {
            Json::Null => json_abs(value) == JsonAbs::Null,
            Json::Bool(b) => json_abs(value) == JsonAbs::Bool(b),
            Json::Number(n) => json_abs(value) == JsonAbs::Number(n@),
            Json::Text(s) => json_abs(value) == JsonAbs::Text(s@),
            Json::Array(items) => json_abs(value) == JsonAbs::Array(
                Seq::new(items@.len(), |i: int| json_abs(items@[i])),
            ),
            Json::Object(map) => json_abs(value) == JsonAbs::Object(map_abs(map)),
        },
{
    match value {
        Json::Array(items) => {
            assert(json_abs(value)->Array_0 =~= Seq::new(
                items@.len(),
                |i: int| json_abs(items@[i]),
            ));
        },
        Json::Object(map) => {
            assert(json_abs(value)->Object_0 =~= map_abs(map));
        },
        _ => {},
    }
}

impl JsonNumber {
    #[verifier::type_invariant]
    spec fn is_written(self) -> bool {
        held_number(self.number) == self.text@
    }

    pub closed spec fn view(&self) -> Seq<char> {
        self.text@
    }

    fn holding(number: serde_json::Number) -> (r: JsonNumber)
        ensures
            r@ == held_number(number),
    {
        let text: String = written_number(&number);
        JsonNumber { number, text }
    }

    /// The number that a text stands for.
    pub fn parse(text: &str) -> (r: Option<JsonNumber>)
        ensures
            match r {
                Some(number) => number_text(text@) == Some(number@),
                None => number_text(text@) is None,
            },
    {
        match read_number(text) {
            Some(number) => Some(JsonNumber::holding(number)),
            None => None,
        }
    }

    /// The number of an unsigned integer.
    pub fn unsigned(n: u32) -> (r: JsonNumber)
        ensures
            r@ == integer_text(n as int),
    {
        JsonNumber::holding(number_of(n as i64))
    }

    /// The number of a signed integer.
    pub fn signed(n: i32) -> (r: JsonNumber)
        ensures
            r@ == integer_text(n as int),
    {
        JsonNumber::holding(number_of(n as i64))
    }

    pub fn as_str(&self) -> (r: &str)
        ensures
            r@ == self@,
    {
        self.text.as_str()
    }
}

/// An integer in decimal digits, with a minus sign where it is negative.
pub open spec fn integer_text(n: int) -> Seq<char> {
    if n < 0 {
        "-"@ + decimal((-n) as nat)
    } else {
        decimal(n as nat)
    }
}

/// `serde_json::Number`, a JSON number of the `serde_json` crate.
#[verifier::external_type_specification]
#[verifier::external_body]
pub struct ExJsonNumber(serde_json::Number);

/// The text in which a `serde_json::Number` is written.
pub uninterp spec fn held_number(number: serde_json::Number) -> Seq<char>;

/// The text in which `serde_json` writes the number that it reads from a text.
pub uninterp spec fn number_text(text: Seq<char>) -> Option<Seq<char>>;

/// `serde_json::from_str` into a `serde_json::Number`. Of the result is claimed
/// that whether the text is a number, and how that number is written, depends
/// on the text alone.
#[verifier::external_body]
fn read_number(text: &str) -> (r: Option<serde_json::Number>)
    ensures
        match r {
            Some(number) => number_text(text@) == Some(held_number(number)),
            None => number_text(text@) is None,
        },
{
    serde_json::from_str(text).ok()
}

/// `serde_json::Number::from`, of an integer: the number is written in decimal
/// digits, with a minus sign where it is negative.
#[verifier::external_body]
fn number_of(n: i64) -> (r: serde_json::Number)
    ensures
        held_number(r) == integer_text(n as int),
{
    serde_json::Number::from(n)
}

/// `serde_json::Number` as text, by its `Display`.
#[verifier::external_body]
fn written_number(number: &serde_json::Number) -> (r: String)
    ensures
        r@ == held_number(*number),
{
    number.to_string()
}

/// `serde_json::Number::clone`: the copy is written like the number.
#[verifier::external_body]
fn copy_number(number: &serde_json::Number) -> (r: serde_json::Number)
    ensures
        held_number(r) == held_number(*number),
{
    number.clone()
}

impl Clone for JsonNumber {
    fn clone(&self) -> (r: JsonNumber)
        ensures
            r@ == self@,
    {
        proof {
            use_type_invariant(self);
        }
        JsonNumber { number: copy_number(&self.number), text: self.text.clone() }
    }
}

impl JsonMap {
    #[verifier::type_invariant]
    spec fn is_ordered(self) -> bool {
        keys_in_order(self.entries@)
    }

    pub open spec fn view(&self) -> Seq<(Seq<char>, JsonAbs)> {
        map_abs(*self)
    }

    pub fn new() -> (r: JsonMap)
        ensures
            r@ == Seq::<(Seq<char>, JsonAbs)>::empty(),
            in_key_order(r@),
    {
        let r = JsonMap { entries: Vec::new() };
        assert(r@ =~= Seq::<(Seq<char>, JsonAbs)>::empty());
        r
    }

    pub fn len(&self) -> (r: usize)
        ensures
            r == self@.len(),
            in_key_order(self@),
    {
        proof {
            use_type_invariant(self);
            lemma_order(*self);
        }
        self.entries.len()
    }

    pub fn is_empty(&self) -> (r: bool)
        ensures
            r == (self@.len() == 0),
    {
        self.entries.len() == 0
    }

    /// The key of a member.
    pub fn key(&self, index: usize) -> (r: &String)
        requires
            index < self@.len(),
        ensures
            r@ == self@[index as int].0,
    {
        &self.entries[index].0
    }

    /// The value of a member.
    pub fn value(&self, index: usize) -> (r: &Json)
        requires
            index < self@.len(),
        ensures
            json_abs(*r) == self@[index as int].1,
            decreases_to!(self => r),
    {
        &self.entries[index].1
    }

    /// Where a key stands, or where it belongs.
    fn place(&self, key: &str) -> (r: usize)
        ensures
            r <= self.entries@.len(),
            forall|i: int| 0 <= i < r ==> precedes(#[trigger] self.entries@[i].0@, key@),
            forall|i: int|
                r <= i < self.entries@.len() ==> !precedes(#[trigger] self.entries@[i].0@, key@),
            keys_in_order(self.entries@),
    {
        proof {
            use_type_invariant(self);
        }
        let mut i: usize = 0;
        while i < self.entries.len() && text_before(self.entries[i].0.as_str(), key)
            invariant
                i <= self.entries@.len(),
                forall|k: int| 0 <= k < i ==> precedes(#[trigger] self.entries@[k].0@, key@),
            decreases self.entries@.len() - i,
        {
            i += 1;
        }
        assert forall|k: int| i <= k < self.entries@.len() implies !precedes(
            #[trigger] self.entries@[k].0@,
            key@,
        ) by {
            if precedes(self.entries@[k].0@, key@) && k > i {
                precedes_transitive(self.entries@[i as int].0@, self.entries@[k].0@, key@);
            }
        }
        i
    }

    /// The value under a key.
    pub fn get(&self, key: &str) -> (r: Option<&Json>)
        ensures
            match r {
                Some(value) => self@.contains((key@, json_abs(*value))),
                None => forall|i: int| 0 <= i < self@.len() ==> #[trigger] self@[i].0 != key@,
            },
    {
        let i: usize = self.place(key);
        if i < self.entries.len() && same_text(self.entries[i].0.as_str(), key) {
            assert(self@[i as int] == (key@, json_abs(self.entries@[i as int].1)));
            Some(&self.entries[i].1)
        } else {
            assert forall|k: int| 0 <= k < self@.len() implies #[trigger] self@[k].0 != key@ by {
                assert(self@[k].0 == self.entries@[k].0@);
                if self.entries@[k].0@ == key@ {
                    precedes_irreflexive(key@);
                    assert(k > i);
                    assert(precedes(self.entries@[i as int].0@, key@));
                }
            }
            None
        }
    }

    /// Puts a value under a key, in place of the value that was there.
    pub fn insert(&mut self, key: String, value: Json)
        ensures
            in_key_order(final(self)@),
            final(self)@ == with_member(old(self)@, key@, json_abs(value)),
    {
        let i: usize = self.place(key.as_str());
        let ghost before = self@;
        let ghost entries = self.entries@;
        proof {
            lemma_order(*self);
            lemma_member_place(before, key@, i as int);
        }
        if i < self.entries.len() && same_text(self.entries[i].0.as_str(), key.as_str()) {
            let mut next: Vec<(String, Json)> = Vec::new();
            std::mem::swap(&mut next, &mut self.entries);
            let ghost fresh = (key, value);
            next.set(i, (key, value));
            assert(next@ == entries.update(i as int, fresh));
            assert(keys_in_order(next@)) by {
                assert forall|a: int, b: int| 0 <= a < b < next@.len() implies precedes(
                    #[trigger] next@[a].0@,
                    #[trigger] next@[b].0@,
                ) by {
                    assert(entries[a].0@ == next@[a].0@ && entries[b].0@ == next@[b].0@);
                }
            }
            self.entries = next;
            assert(self@ =~= before.update(i as int, (key@, json_abs(value))));
        } else {
            assert(i < entries.len() ==> precedes(key@, entries[i as int].0@)) by {
                if i < entries.len() {
                    precedes_total(key@, entries[i as int].0@);
                }
            }
            let mut next: Vec<(String, Json)> = Vec::new();
            std::mem::swap(&mut next, &mut self.entries);
            next.insert(i, (key, value));
            assert(keys_in_order(next@)) by {
                assert forall|a: int, b: int| 0 <= a < b < next@.len() implies precedes(
                    #[trigger] next@[a].0@,
                    #[trigger] next@[b].0@,
                ) by {
                    if a < i && b > i {
                        assert(precedes(entries[a].0@, entries[b - 1].0@));
                    } else if a < i && b < i {
                        assert(precedes(entries[a].0@, entries[b].0@));
                    } else if a < i {
                        assert(precedes(entries[a].0@, key@));
                    } else if a == i {
                        assert(precedes(key@, entries[i as int].0@));
                        if b - 1 > i {
                            assert(precedes(entries[i as int].0@, entries[b - 1].0@));
                            precedes_transitive(
                                key@,
                                entries[i as int].0@,
                                entries[b - 1].0@,
                            );
                        }
                    } else {
                        assert(precedes(entries[a - 1].0@, entries[b - 1].0@));
                    }
                }
            }
            self.entries = next;
            assert(self@ =~= before.insert(i as int, (key@, json_abs(value))));
        }
        proof {
            use_type_invariant(&*self);
            lemma_order(*self);
        }
    }
}

proof fn lemma_order(map: JsonMap)
    requires
        keys_in_order(map.entries@),
    ensures
        in_key_order(map@),
{
    assert forall|i: int, j: int| 0 <= i < j < map@.len() implies precedes(
        #[trigger] map@[i].0,
        #[trigger] map@[j].0,
    ) by {
        assert(map.entries@[i].0@ == map@[i].0 && map.entries@[j].0@ == map@[j].0);
    }
}

/// How many members stand before a key.
pub open spec fn members_before(members: Seq<(Seq<char>, JsonAbs)>, key: Seq<char>) -> nat
    decreases members.len(),
{
    if members.len() == 0 {
        0
    } else if precedes(members[0].0, key) {
        1 + members_before(members.drop_first(), key)
    } else {
        0
    }
}

/// The members with one more, or with another value under a key.
pub open spec fn with_member(
    members: Seq<(Seq<char>, JsonAbs)>,
    key: Seq<char>,
    value: JsonAbs,
) -> Seq<(Seq<char>, JsonAbs)> {
    let i = members_before(members, key) as int;
    if i < members.len() && members[i].0 == key {
        members.update(i, (key, value))
    } else {
        members.insert(i, (key, value))
    }
}

proof fn lemma_member_place(members: Seq<(Seq<char>, JsonAbs)>, key: Seq<char>, i: int)
    requires
        0 <= i <= members.len(),
        forall|k: int| 0 <= k < i ==> precedes(#[trigger] members[k].0, key),
        i < members.len() ==> !precedes(members[i].0, key),
    ensures
        members_before(members, key) == i,
    decreases members.len(),
{
    if i > 0 {
        let rest = members.drop_first();
        assert forall|k: int| 0 <= k < i - 1 implies precedes(#[trigger] rest[k].0, key) by {
            assert(rest[k] == members[k + 1]);
        }
        lemma_member_place(rest, key, i - 1);
    }
}

/// The object with these members, a later one in place of an earlier one with
/// the same key.
pub open spec fn object_of(members: Seq<(Seq<char>, JsonAbs)>) -> Seq<(Seq<char>, JsonAbs)>
    decreases members.len(),
{
    if members.len() == 0 {
        Seq::empty()
    } else {
        with_member(object_of(members.drop_last()), members.last().0, members.last().1)
    }
}

/// The content of named values.
pub open spec fn members_abs(members: Seq<(&'static str, Json)>) -> Seq<(Seq<char>, JsonAbs)> {
    Seq::new(members.len(), |i: int| (members[i].0@, json_abs(members[i].1)))
}

/// The object with these members.
pub fn object(members: Vec<(&'static str, Json)>) -> (r: Json)
    ensures
        json_abs(r) == JsonAbs::Object(object_of(members_abs(members@))),
{
    broadcast use json_abs_cases;

    let ghost all = members_abs(members@);
    let mut map: JsonMap = JsonMap::new();
    let mut i: usize = 0;
    assert(all.take(0) =~= Seq::<(Seq<char>, JsonAbs)>::empty());
    while i < members.len()
        invariant
            i <= members@.len(),
            all == members_abs(members@),
            map@ == object_of(all.take(i as int)),
        decreases members@.len() - i,
    {
        assert(all.take(i + 1).drop_last() =~= all.take(i as int));
        assert(all.take(i + 1).last() == all[i as int]);
        map.insert(members[i].0.to_owned(), members[i].1.clone());
        i += 1;
    }
    assert(all.take(i as int) =~= all);
    Json::Object(map)
}

/// Putting a member into an ordered object keeps it ordered.
proof fn lemma_member_keeps_order(
    members: Seq<(Seq<char>, JsonAbs)>,
    key: Seq<char>,
    value: JsonAbs,
)
    requires
        in_key_order(members),
    ensures
        in_key_order(with_member(members, key, value)),
{
    let n = members_before(members, key) as int;
    lemma_members_before(members, key);
    let more = with_member(members, key, value);
    if n < members.len() && members[n].0 == key {
        assert forall|i: int, j: int| 0 <= i < j < more.len() implies precedes(
            #[trigger] more[i].0,
            #[trigger] more[j].0,
        ) by {
            assert(more[i].0 == members[i].0 && more[j].0 == members[j].0);
        }
    } else {
        if n < members.len() {
            precedes_total(key, members[n].0);
        }
        assert forall|i: int, j: int| 0 <= i < j < more.len() implies precedes(
            #[trigger] more[i].0,
            #[trigger] more[j].0,
        ) by {
            if j < n {
                assert(precedes(members[i].0, members[j].0));
            } else if i < n && j == n {
                assert(precedes(members[i].0, key));
            } else if i < n {
                assert(precedes(members[i].0, members[j - 1].0));
            } else if i == n {
                if j - 1 > n {
                    assert(precedes(members[n].0, members[j - 1].0));
                    precedes_transitive(key, members[n].0, members[j - 1].0);
                }
            } else {
                assert(precedes(members[i - 1].0, members[j - 1].0));
            }
        }
    }
}

proof fn lemma_members_before(members: Seq<(Seq<char>, JsonAbs)>, key: Seq<char>)
    ensures
        ({
            let n = members_before(members, key);
            &&& n <= members.len()
            &&& forall|k: int| 0 <= k < n ==> precedes(#[trigger] members[k].0, key)
            &&& n < members.len() ==> !precedes(members[n as int].0, key)
        }),
    decreases members.len(),
{
    if members.len() > 0 && precedes(members[0].0, key) {
        let rest = members.drop_first();
        lemma_members_before(rest, key);
        let n = members_before(members, key);
        assert forall|k: int| 0 <= k < n implies precedes(#[trigger] members[k].0, key) by {
            if k > 0 {
                assert(rest[k - 1] == members[k]);
            }
        }
    }
}

/// The members of an object stand in the order of their keys, in whatever
/// order they were put into it.
pub proof fn objects_are_in_key_order(members: Seq<(Seq<char>, JsonAbs)>)
    ensures
        in_key_order(object_of(members)),
    decreases members.len(),
{
    if members.len() > 0 {
        objects_are_in_key_order(members.drop_last());
        lemma_member_keeps_order(
            object_of(members.drop_last()),
            members.last().0,
            members.last().1,
        );
    }
}

proof fn lemma_with_member(
    members: Seq<(Seq<char>, JsonAbs)>,
    key: Seq<char>,
    value: JsonAbs,
    other: Seq<char>,
    held: JsonAbs,
)
    requires
        in_key_order(members),
    ensures
        with_member(members, key, value).contains((other, held)) <==> if other == key {
            held == value
        } else {
            members.contains((other, held))
        },
        with_member(members, key, value).len() == members.len() + (if exists|i: int|
            0 <= i < members.len() && (#[trigger] members[i]).0 == key {
            0int
        } else {
            1int
        }),
{
    let n = members_before(members, key) as int;
    lemma_members_before(members, key);
    let more = with_member(members, key, value);
    let found = n < members.len() && members[n].0 == key;
    assert(found <==> exists|i: int| 0 <= i < members.len() && (#[trigger] members[i]).0 == key) by {
        if exists|i: int| 0 <= i < members.len() && (#[trigger] members[i]).0 == key {
            let i = choose|i: int| 0 <= i < members.len() && (#[trigger] members[i]).0 == key;
            precedes_irreflexive(key);
            if i < n {
                assert(precedes(members[i].0, key));
            } else if n < i {
                assert(precedes(members[n].0, members[i].0));
            }
        }
    }
    assert(more[n] == (key, value));
    if more.contains((other, held)) {
        let i = choose|i: int| 0 <= i < more.len() && more[i] == (other, held);
        if i != n {
            let j = if found || i < n {
                i
            } else {
                i - 1
            };
            assert(members[j] == (other, held));
            if other == key {
                precedes_irreflexive(key);
                if j < n {
                    assert(precedes(members[j].0, key));
                } else if found {
                    assert(precedes(members[n].0, members[j].0));
                } else {
                    assert(members[j].0 == key);
                }
            }
        }
    }
    if other != key && members.contains((other, held)) {
        let j = choose|j: int| 0 <= j < members.len() && members[j] == (other, held);
        if found || j < n {
            assert(more[j] == members[j]);
        } else {
            assert(more[j + 1] == members[j]);
        }
    }
}

/// An object holds the members that were put into it under keys of their own,
/// each of them, and no others.
pub proof fn objects_hold_their_members(members: Seq<(Seq<char>, JsonAbs)>)
    requires
        forall|i: int, j: int|
            0 <= i < j < members.len() ==> (#[trigger] members[i]).0 != (#[trigger] members[j]).0,
    ensures
        object_of(members).len() == members.len(),
        forall|i: int|
            0 <= i < members.len() ==> object_of(members).contains(#[trigger] members[i]),
        forall|key: Seq<char>, value: JsonAbs| #[trigger]
            object_of(members).contains((key, value)) ==> members.contains((key, value)),
    decreases members.len(),
{
    if members.len() > 0 {
        let rest = members.drop_last();
        let (key, value) = members.last();
        assert forall|i: int, j: int| 0 <= i < j < rest.len() implies (#[trigger] rest[i]).0 != (
        #[trigger] rest[j]).0 by {
            assert(members[i].0 != members[j].0);
        }
        objects_hold_their_members(rest);
        objects_are_in_key_order(rest);
        let less = object_of(rest);
        lemma_with_member(less, key, value, key, value);
        if exists|i: int| 0 <= i < less.len() && (#[trigger] less[i]).0 == key {
            let i = choose|i: int| 0 <= i < less.len() && (#[trigger] less[i]).0 == key;
            assert(less.contains((key, less[i].1)));
            assert(rest.contains((key, less[i].1)));
            let j = choose|j: int| 0 <= j < rest.len() && rest[j] == (key, less[i].1);
            assert(members[j].0 == key);
            assert(members[members.len() - 1].0 == key);
        }
        assert forall|i: int| 0 <= i < members.len() implies object_of(members).contains(
            #[trigger] members[i],
        ) by {
            lemma_with_member(less, key, value, members[i].0, members[i].1);
            if i < rest.len() {
                assert(rest[i] == members[i]);
                assert(less.contains(rest[i]));
                assert(members[i].0 != members[members.len() - 1].0);
            }
        }
        assert forall|other: Seq<char>, held: JsonAbs| #[trigger]
            object_of(members).contains((other, held)) implies members.contains((other, held)) by {
            lemma_with_member(less, key, value, other, held);
            if other == key {
                assert(members[members.len() - 1] == (other, held));
            } else {
                let j = choose|j: int| 0 <= j < rest.len() && rest[j] == (other, held);
                assert(members[j] == (other, held));
            }
        }
    }
}

impl Clone for JsonMap {
    fn clone(&self) -> (r: JsonMap)
        ensures
            r@ == self@,
    {
        duplicate_map(self)
    }
}

fn duplicate_map(map: &JsonMap) -> (r: JsonMap)
    ensures
        r@ == map@,
    decreases map,
{
    proof {
        use_type_invariant(map);
    }
    let mut entries: Vec<(String, Json)> = Vec::new();
    let mut i: usize = 0;
    while i < map.entries.len()
        invariant
            i <= map.entries@.len(),
            entries@.len() == i,
            keys_in_order(map.entries@),
            forall|k: int|
                0 <= k < i ==> (#[trigger] entries@[k]).0@ == map.entries@[k].0@ && json_abs(
                    entries@[k].1,
                ) == json_abs(map.entries@[k].1),
        decreases map.entries@.len() - i,
    {
        entries.push((map.entries[i].0.clone(), duplicate_json(&map.entries[i].1)));
        i += 1;
    }
    let r = JsonMap { entries };
    assert(r@ =~= map@);
    r
}

fn duplicate_json(value: &Json) -> (r: Json)
    ensures
        json_abs(r) == json_abs(*value),
    decreases value,
{
    broadcast use json_abs_cases;

    match value {
        Json::Null => Json::Null,
        Json::Bool(b) => Json::Bool(*b),
        Json::Number(n) => Json::Number(n.clone()),
        Json::Text(s) => Json::Text(s.clone()),
        Json::Array(items) => {
            let mut out: Vec<Json> = Vec::new();
            let mut i: usize = 0;
            while i < items.len()
                invariant
                    i <= items@.len(),
                    out@.len() == i,
                    *value == Json::Array(*items),
                    forall|k: int|
                        0 <= k < i ==> json_abs(#[trigger] out@[k]) == json_abs(items@[k]),
                decreases items@.len() - i,
            {
                assert(decreases_to!(*value => value->Array_0));
                out.push(duplicate_json(&items[i]));
                i += 1;
            }
            assert(Seq::new(out@.len(), |i: int| json_abs(out@[i])) =~= Seq::new(
                items@.len(),
                |i: int| json_abs(items@[i]),
            ));
            Json::Array(out)
        },
        Json::Object(map) => Json::Object(duplicate_map(map)),
    }
}

fn same_map(left: &JsonMap, right: &JsonMap) -> (b: bool)
    ensures
        b == (left@ == right@),
    decreases left,
{
    if left.entries.len() != right.entries.len() {
        assert(left@.len() != right@.len());
        return false;
    }
    let mut i: usize = 0;
    while i < left.entries.len()
        invariant
            i <= left.entries@.len(),
            left.entries@.len() == right.entries@.len(),
            forall|k: int| 0 <= k < i ==> #[trigger] left@[k] == right@[k],
        decreases left.entries@.len() - i,
    {
        let l: &(String, Json) = &left.entries[i];
        let r: &(String, Json) = &right.entries[i];
        if l.0 != r.0 || !same_json(&l.1, &r.1) {
            assert(left@[i as int] != right@[i as int]);
            return false;
        }
        i += 1;
    }
    assert(left@ =~= right@);
    true
}

fn same_json(left: &Json, right: &Json) -> (b: bool)
    ensures
        b == (json_abs(*left) == json_abs(*right)),
    decreases left,
{
    broadcast use json_abs_cases;

    match (left, right) {
        (Json::Null, Json::Null) => true,
        (Json::Bool(a), Json::Bool(b)) => *a == *b,
        (Json::Number(a), Json::Number(b)) => a.text == b.text,
        (Json::Text(a), Json::Text(b)) => *a == *b,
        (Json::Array(a), Json::Array(b)) => {
            let ghost va = Seq::new(a@.len(), |i: int| json_abs(a@[i]));
            let ghost vb = Seq::new(b@.len(), |i: int| json_abs(b@[i]));
            if a.len() != b.len() {
                assert(va.len() != vb.len());
                return false;
            }
            let mut i: usize = 0;
            while i < a.len()
                invariant
                    i <= a@.len(),
                    a@.len() == b@.len(),
                    *left == Json::Array(*a),
                    va == Seq::new(a@.len(), |i: int| json_abs(a@[i])),
                    vb == Seq::new(b@.len(), |i: int| json_abs(b@[i])),
                    json_abs(*left) == JsonAbs::Array(va),
                    json_abs(*right) == JsonAbs::Array(vb),
                    forall|k: int| 0 <= k < i ==> #[trigger] va[k] == vb[k],
                decreases a@.len() - i,
            {
                if !same_json(&a[i], &b[i]) {
                    assert(va[i as int] != vb[i as int]);
                    return false;
                }
                i += 1;
            }
            assert(va =~= vb);
            true
        },
        (Json::Object(a), Json::Object(b)) => same_map(a, b),
        _ => false,
    }
}

impl Clone for Json {
    fn clone(&self) -> (r: Json)
        ensures
            json_abs(r) == json_abs(*self),
    {
        duplicate_json(self)
    }
}

impl Abstract for Json {
    type Abs = JsonAbs;

    open spec fn abs(&self) -> JsonAbs {
        json_abs(*self)
    }

    fn duplicate(&self) -> Json {
        let r: Json = duplicate_json(self);
        assert(r.abs() == json_abs(r));
        r
    }

    fn same(&self, other: &Json) -> bool {
        same_json(self, other)
    }
}

// ---------------------------------------------------------------------------
// Members
// ---------------------------------------------------------------------------

/// The value under a key among the first `n` members.
pub open spec fn value_under(
    members: Seq<(Seq<char>, JsonAbs)>,
    key: Seq<char>,
    n: int,
) -> Option<JsonAbs>
    decreases n,
{
    if n <= 0 {
        None
    } else if members[n - 1].0 == key {
        Some(members[n - 1].1)
    } else {
        value_under(members, key, n - 1)
    }
}

/// The value under a key of an object. What is no object has none.
pub open spec fn child_of(json: JsonAbs, key: Seq<char>) -> Option<JsonAbs> {
    match json {
        JsonAbs::Object(members) => value_under(members, key, members.len() as int),
        _ => None,
    }
}

proof fn lemma_value_under(
    members: Seq<(Seq<char>, JsonAbs)>,
    key: Seq<char>,
    value: Option<JsonAbs>,
    n: int,
)
    requires
        in_key_order(members),
        0 <= n <= members.len(),
        match value {
            Some(value) => exists|i: int| 0 <= i < n && #[trigger] members[i] == (key, value),
            None => forall|i: int| 0 <= i < n ==> #[trigger] members[i].0 != key,
        },
    ensures
        value_under(members, key, n) == value,
    decreases n,
{
    if n > 0 {
        if let Some(found) = value {
            let i = choose|i: int| 0 <= i < n && #[trigger] members[i] == (key, found);
            if i < n - 1 {
                assert(precedes(members[i].0, members[n - 1].0));
                precedes_irreflexive(key);
                lemma_value_under(members, key, value, n - 1);
            }
        } else {
            assert(members[n - 1].0 != key);
            lemma_value_under(members, key, value, n - 1);
        }
    }
}

/// The value under a key of an object.
pub fn find_child<'a>(json: &'a Json, key: &str) -> (r: Option<&'a Json>)
    ensures
        match r {
            Some(value) => child_of(json_abs(*json), key@) == Some(json_abs(*value)),
            None => child_of(json_abs(*json), key@) is None,
        },
{
    broadcast use json_abs_cases;

    match json {
        Json::Object(map) => {
            let ghost members = map@;
            let _ = map.len();
            let found: Option<&Json> = map.get(key);
            proof {
                let n = members.len() as int;
                match found {
                    Some(value) => {
                        let i = choose|i: int|
                            0 <= i < n && members[i] == (key@, json_abs(*value));
                        assert(members[i] == (key@, json_abs(*value)));
                        lemma_value_under(members, key@, Some(json_abs(*value)), n);
                    },
                    None => {
                        lemma_value_under(members, key@, None, n);
                    },
                }
            }
            found
        },
        _ => None,
    }
}

// ---------------------------------------------------------------------------
// Equality
// ---------------------------------------------------------------------------

/// Whether the text is that of a zero that is no integer.
pub open spec fn is_float_zero(number: Seq<char>) -> bool {
    number == "0.0"@ || number == "-0.0"@
}

/// Whether two numbers are equal, by their texts.
pub open spec fn equal_number(left: Seq<char>, right: Seq<char>) -> bool {
    left == right || (is_float_zero(left) && is_float_zero(right))
}

/// Whether two values are equal.
pub open spec fn equal_json(left: JsonAbs, right: JsonAbs) -> bool
    decreases left,
{
    match (left, right) {
        (JsonAbs::Null, JsonAbs::Null) => true,
        (JsonAbs::Bool(a), JsonAbs::Bool(b)) => a == b,
        (JsonAbs::Number(a), JsonAbs::Number(b)) => equal_number(a, b),
        (JsonAbs::Text(a), JsonAbs::Text(b)) => a == b,
        (JsonAbs::Array(a), JsonAbs::Array(b)) => a.len() == b.len() && forall|i: int|
            #![trigger a[i]]
            0 <= i < a.len() ==> equal_json(a[i], b[i]),
        (JsonAbs::Object(a), JsonAbs::Object(b)) => a.len() == b.len() && forall|i: int|
            #![trigger a[i]]
            0 <= i < a.len() ==> a[i].0 == b[i].0 && equal_json(a[i].1, b[i].1),
        _ => false,
    }
}

/// Every value equals itself.
pub proof fn json_equals_itself(json: JsonAbs)
    ensures
        equal_json(json, json),
    decreases json,
{
    match json {
        JsonAbs::Array(items) => {
            assert forall|i: int| #![trigger items[i]] 0 <= i < items.len() implies equal_json(
                items[i],
                items[i],
            ) by {
                json_equals_itself(items[i]);
            }
        },
        JsonAbs::Object(members) => {
            assert forall|i: int|
                #![trigger members[i]]
                0 <= i < members.len() implies equal_json(members[i].1, members[i].1) by {
                json_equals_itself(members[i].1);
            }
        },
        _ => {},
    }
}

fn float_zero(text: &str) -> (b: bool)
    ensures
        b == is_float_zero(text@),
{
    same_text(text, "0.0") || same_text(text, "-0.0")
}

fn numbers_equal(left: &JsonNumber, right: &JsonNumber) -> (b: bool)
    ensures
        b == equal_number(left@, right@),
{
    same_text(left.text.as_str(), right.text.as_str()) || (float_zero(left.text.as_str())
        && float_zero(right.text.as_str()))
}

fn members_equal(left: &JsonMap, right: &JsonMap) -> (b: bool)
    ensures
        b == equal_json(JsonAbs::Object(left@), JsonAbs::Object(right@)),
    decreases left,
{
    let ghost a = left@;
    let ghost c = right@;
    if left.entries.len() != right.entries.len() {
        assert(a.len() != c.len());
        return false;
    }
    let mut i: usize = 0;
    while i < left.entries.len()
        invariant
            i <= left.entries@.len(),
            left.entries@.len() == right.entries@.len(),
            a == left@,
            c == right@,
            forall|k: int|
                #![trigger a[k]]
                0 <= k < i ==> a[k].0 == c[k].0 && equal_json(a[k].1, c[k].1),
        decreases left.entries@.len() - i,
    {
        let l: &(String, Json) = &left.entries[i];
        let r: &(String, Json) = &right.entries[i];
        assert(a[i as int] == (l.0@, json_abs(l.1)));
        assert(c[i as int] == (r.0@, json_abs(r.1)));
        if l.0 != r.0 || !jsons_equal(&l.1, &r.1) {
            return false;
        }
        i += 1;
    }
    true
}

/// Whether two values are equal.
pub fn jsons_equal(left: &Json, right: &Json) -> (b: bool)
    ensures
        b == equal_json(json_abs(*left), json_abs(*right)),
    decreases left,
{
    broadcast use json_abs_cases;

    match (left, right) {
        (Json::Null, Json::Null) => true,
        (Json::Bool(a), Json::Bool(b)) => *a == *b,
        (Json::Number(a), Json::Number(b)) => numbers_equal(a, b),
        (Json::Text(a), Json::Text(b)) => *a == *b,
        (Json::Array(a), Json::Array(b)) => {
            let ghost va = Seq::new(a@.len(), |i: int| json_abs(a@[i]));
            let ghost vb = Seq::new(b@.len(), |i: int| json_abs(b@[i]));
            if a.len() != b.len() {
                assert(va.len() != vb.len());
                return false;
            }
            let mut i: usize = 0;
            while i < a.len()
                invariant
                    i <= a@.len(),
                    a@.len() == b@.len(),
                    *left == Json::Array(*a),
                    va == Seq::new(a@.len(), |i: int| json_abs(a@[i])),
                    vb == Seq::new(b@.len(), |i: int| json_abs(b@[i])),
                    json_abs(*left) == JsonAbs::Array(va),
                    json_abs(*right) == JsonAbs::Array(vb),
                    forall|k: int| #![trigger va[k]] 0 <= k < i ==> equal_json(va[k], vb[k]),
                decreases a@.len() - i,
            {
                assert(va[i as int] == json_abs(a@[i as int]));
                assert(vb[i as int] == json_abs(b@[i as int]));
                if !jsons_equal(&a[i], &b[i]) {
                    return false;
                }
                i += 1;
            }
            true
        },
        (Json::Object(a), Json::Object(b)) => members_equal(a, b),
        _ => false,
    }
}

impl PartialEq for Json {
    fn eq(&self, other: &Json) -> (r: bool) {
        jsons_equal(self, other)
    }
}

impl vstd::std_specs::cmp::PartialEqSpecImpl for Json {
    open spec fn obeys_eq_spec() -> bool {
        true
    }

    open spec fn eq_spec(&self, other: &Json) -> bool {
        equal_json(json_abs(*self), json_abs(*other))
    }
}

impl Eq for Json {

}

impl PartialEq for JsonNumber {
    fn eq(&self, other: &JsonNumber) -> (r: bool) {
        numbers_equal(self, other)
    }
}

impl vstd::std_specs::cmp::PartialEqSpecImpl for JsonNumber {
    open spec fn obeys_eq_spec() -> bool {
        true
    }

    open spec fn eq_spec(&self, other: &JsonNumber) -> bool {
        equal_number(self@, other@)
    }
}

impl Eq for JsonNumber {

}

impl PartialEq for JsonMap {
    fn eq(&self, other: &JsonMap) -> (r: bool) {
        members_equal(self, other)
    }
}

impl vstd::std_specs::cmp::PartialEqSpecImpl for JsonMap {
    open spec fn obeys_eq_spec() -> bool {
        true
    }

    open spec fn eq_spec(&self, other: &JsonMap) -> bool {
        equal_json(JsonAbs::Object(self@), JsonAbs::Object(other@))
    }
}

impl Eq for JsonMap {

}

// ---------------------------------------------------------------------------
// serde_json and jsonschema
// ---------------------------------------------------------------------------

/// `serde_json::Value`, a JSON value of the `serde_json` crate.
#[verifier::external_type_specification]
#[verifier::external_body]
pub struct ExJsonValue(serde_json::Value);

/// What a `serde_json::Value` holds.
pub uninterp spec fn held_json(value: serde_json::Value) -> JsonAbs;

/// The `serde_json::Value` with the same content, variant by variant.
#[verifier::external_body]
pub(crate) fn to_value(json: &Json) -> (r: serde_json::Value)
    ensures
        held_json(r) == json_abs(*json),
{
    match json {
        Json::Null => serde_json::Value::Null,
        Json::Bool(b) => serde_json::Value::Bool(*b),
        Json::Number(n) => serde_json::Value::Number(n.number.clone()),
        Json::Text(s) => serde_json::Value::String(s.clone()),
        Json::Array(items) => serde_json::Value::Array(items.iter().map(to_value).collect()),
        Json::Object(map) => serde_json::Value::Object(
            map.entries.iter().map(|e| (e.0.clone(), to_value(&e.1))).collect(),
        ),
    }
}

/// The value with the same content as a `serde_json::Value`, variant by
/// variant; the members of an object come in the order of their keys.
#[verifier::external_body]
pub(crate) fn from_value(value: &serde_json::Value) -> (r: Json)
    ensures
        json_abs(r) == held_json(*value),
{
    match value {
        serde_json::Value::Null => Json::Null,
        serde_json::Value::Bool(b) => Json::Bool(*b),
        serde_json::Value::Number(n) => Json::Number(
            JsonNumber { number: n.clone(), text: n.to_string() },
        ),
        serde_json::Value::String(s) => Json::Text(s.clone()),
        serde_json::Value::Array(items) => Json::Array(items.iter().map(from_value).collect()),
        serde_json::Value::Object(map) => Json::Object(
            JsonMap { entries: map.iter().map(|e| (e.0.clone(), from_value(e.1))).collect() },
        ),
    }
}

impl Json {
    /// The value that a `serde_json::Value` holds.
    pub fn from_serde(value: &serde_json::Value) -> (r: Json)
        ensures
            json_abs(r) == held_json(*value),
    {
        from_value(value)
    }

    /// The `serde_json::Value` that holds the value.
    pub fn to_serde(&self) -> (r: serde_json::Value)
        ensures
            held_json(r) == json_abs(*self),
    {
        to_value(self)
    }
}

/// What `serde_json` reads from a text.
pub uninterp spec fn json_in(text: Seq<char>) -> Option<JsonAbs>;

/// `serde_json::from_str` into a `serde_json::Value`. Of the result is claimed
/// that it depends on the text alone.
#[verifier::external_body]
pub(crate) fn read_value(text: &str) -> (r: Option<serde_json::Value>)
    ensures
        match r {
            Some(value) => json_in(text@) == Some(held_json(value)),
            None => json_in(text@) is None,
        },
{
    serde_json::from_str(text).ok()
}

/// The compact text in which `serde_json` writes a value.
pub uninterp spec fn json_text(json: JsonAbs) -> Seq<char>;

/// `serde_json::to_string` of a `serde_json::Value`. Of the result is claimed
/// that it is the same for the same content. Writing a value into memory does
/// not fail: every key is a string, and the memory takes every byte.
#[verifier::external_body]
pub(crate) fn write_json(value: &serde_json::Value) -> (r: String)
    ensures
        r@ == json_text(held_json(*value)),
{
    serde_json::to_string(value).expect("a value can be written")
}

/// Whether `jsonschema` takes a value for a JSON Schema.
pub uninterp spec fn is_json_schema(schema: JsonAbs) -> bool;

/// `jsonschema::validator_for`. Of the result is claimed that whether there is
/// a validator depends on the content of the schema alone.
#[verifier::external_body]
pub(crate) fn compiles_as_schema(schema: &serde_json::Value) -> (r: bool)
    ensures
        r == is_json_schema(held_json(*schema)),
{
    jsonschema::validator_for(schema).is_ok()
}

/// Whether a value conforms to a JSON Schema.
pub uninterp spec fn conforms(schema: JsonAbs, value: JsonAbs) -> bool;

/// `jsonschema::Validator::validate`, with the validator of the schema. Of the
/// result is claimed that it depends on the two contents alone.
#[verifier::external_body]
pub(crate) fn validates(schema: &serde_json::Value, value: &serde_json::Value) -> (r: bool)
    requires
        is_json_schema(held_json(*schema)),
    ensures
        r == conforms(held_json(*schema), held_json(*value)),
{
    jsonschema::validator_for(schema).is_ok_and(|validator| validator.validate(value).is_ok())
}

} // verus!
