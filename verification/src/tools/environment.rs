//! Environments of processes: names with values, in the order of the names.

use vstd::prelude::*;
use vstd::string::*;

use crate::text::{
    byte_len, bytes_in, contains_char, decimal, decimal_text, precedes, precedes_total,
    precedes_transitive, same_text, text_before,
};
use crate::value::{contents, Abstract};

verus! {

/// The most overrides of one environment.
pub const MAX_ENVIRONMENT_ENTRIES: usize = 256;

/// The longest name of an override, in bytes.
pub const MAX_ENVIRONMENT_NAME_BYTES: usize = 256;

/// The longest value of an override, in bytes.
pub const MAX_ENVIRONMENT_VALUE_BYTES: usize = 65_536;

/// Names with values.
pub type Entries = Seq<(Seq<char>, Seq<char>)>;

/// Whether the entries stand in the order of their names, each name once.
pub open spec fn in_name_order(entries: Entries) -> bool {
    forall|i: int, j: int|
        0 <= i < j < entries.len() ==> precedes(#[trigger] entries[i].0, #[trigger] entries[j].0)
}

/// How many entries stand before a name.
pub open spec fn entries_before(entries: Entries, name: Seq<char>) -> nat
    decreases entries.len(),
{
    if entries.len() == 0 {
        0
    } else if precedes(entries[0].0, name) {
        1 + entries_before(entries.drop_first(), name)
    } else {
        0
    }
}

/// The entries with one more, or with another value under a name.
pub open spec fn with_entry(entries: Entries, name: Seq<char>, value: Seq<char>) -> Entries {
    let i = entries_before(entries, name) as int;
    if i < entries.len() && entries[i].0 == name {
        entries.update(i, (name, value))
    } else {
        entries.insert(i, (name, value))
    }
}

/// The bytes of the names and the values of the first `n` entries.
pub open spec fn entry_bytes(entries: Entries, n: int) -> int
    decreases n,
{
    if n <= 0 {
        0
    } else {
        entry_bytes(entries, n - 1) + byte_len(entries[n - 1].0) + byte_len(entries[n - 1].1)
    }
}

/// The entries whose name is admitted, of the first `n`.
pub open spec fn admitted(entries: Entries, names: Seq<Seq<char>>, n: int) -> Entries
    decreases n,
{
    if n <= 0 {
        Seq::empty()
    } else if names.contains(entries[n - 1].0) {
        admitted(entries, names, n - 1).push(entries[n - 1])
    } else {
        admitted(entries, names, n - 1)
    }
}

/// Why an override is refused.
pub open spec fn pair_failure(name: Seq<char>, value: Seq<char>) -> Option<&'static str> {
    if name.len() == 0 || name.contains('=') || name.contains('\0') || value.contains('\0') {
        Some("process environment override is invalid")
    } else if byte_len(name) > MAX_ENVIRONMENT_NAME_BYTES || byte_len(value)
        > MAX_ENVIRONMENT_VALUE_BYTES {
        Some("process environment override exceeds its field limit")
    } else {
        None
    }
}

/// Whether an override is valid.
pub fn validate_environment_pair(name: &str, value: &str) -> (r: Result<(), &'static str>)
    ensures
        match r {
            Ok(_) => pair_failure(name@, value@) is None,
            Err(error) => pair_failure(name@, value@) == Some(error),
        },
{
    if name.is_empty() || contains_char(name, '=') || contains_char(name, '\0') || contains_char(
        value,
        '\0',
    ) {
        return Err("process environment override is invalid");
    }
    if bytes_in(name) > MAX_ENVIRONMENT_NAME_BYTES || bytes_in(value)
        > MAX_ENVIRONMENT_VALUE_BYTES {
        return Err("process environment override exceeds its field limit");
    }
    Ok(())
}

/// The entries with the first `n` overrides, or why one of them is refused.
pub open spec fn overridden(entries: Entries, overrides: Entries, n: int) -> Result<
    Entries,
    &'static str,
>
    decreases n,
{
    if n <= 0 {
        Ok(entries)
    } else {
        match overridden(entries, overrides, n - 1) {
            Err(error) => Err(error),
            Ok(before) => match pair_failure(overrides[n - 1].0, overrides[n - 1].1) {
                Some(error) => Err(error),
                None => Ok(with_entry(before, overrides[n - 1].0, overrides[n - 1].1)),
            },
        }
    }
}

/// The environment of a process, or why it cannot have it.
pub open spec fn process_environment(
    base: Entries,
    names: Seq<Seq<char>>,
    overrides: Entries,
    maximum_bytes: usize,
) -> Result<Entries, Seq<char>> {
    if overrides.len() > MAX_ENVIRONMENT_ENTRIES {
        Err("process environment exceeds the 256-entry limit"@)
    } else {
        match overridden(
            admitted(base, names, base.len() as int),
            overrides,
            overrides.len() as int,
        ) {
            Err(error) => Err(error@),
            Ok(entries) => {
                let bytes = entry_bytes(entries, entries.len() as int);
                if bytes > usize::MAX {
                    Err("process environment byte count overflow"@)
                } else if bytes > maximum_bytes {
                    Err(
                        "process environment exceeds the "@ + decimal(maximum_bytes as nat)
                            + "-byte limit"@,
                    )
                } else {
                    Ok(entries)
                }
            },
        }
    }
}

/// An environment: values under names, in the order of the names.
#[derive(Debug, Eq, PartialEq)]
pub struct EnvironmentOverride {
    values: Vec<(String, String)>,
}

spec fn entries_of(values: Seq<(String, String)>) -> Entries {
    Seq::new(values.len(), |i: int| (values[i].0@, values[i].1@))
}

impl EnvironmentOverride {
    #[verifier::type_invariant]
    spec fn is_ordered(self) -> bool {
        in_name_order(entries_of(self.values@))
    }

    pub closed spec fn view(&self) -> Entries {
        entries_of(self.values@)
    }

    pub fn new() -> (r: EnvironmentOverride)
        ensures
            r@ == Entries::empty(),
            in_name_order(r@),
    {
        let values: Vec<(String, String)> = Vec::new();
        assert(entries_of(values@) =~= Entries::empty());
        EnvironmentOverride { values }
    }

    pub fn len(&self) -> (r: usize)
        ensures
            r == self@.len(),
            in_name_order(self@),
    {
        proof {
            use_type_invariant(self);
        }
        self.values.len()
    }

    /// The name of an entry.
    pub fn name(&self, index: usize) -> (r: &str)
        requires
            index < self@.len(),
        ensures
            r@ == self@[index as int].0,
    {
        self.values[index].0.as_str()
    }

    /// The value of an entry.
    pub fn value(&self, index: usize) -> (r: &str)
        requires
            index < self@.len(),
        ensures
            r@ == self@[index as int].1,
    {
        self.values[index].1.as_str()
    }

    /// The value under a name.
    pub fn get(&self, name: &str) -> (r: Option<&str>)
        ensures
            match r {
                Some(value) => self@.contains((name@, value@)),
                None => forall|i: int| 0 <= i < self@.len() ==> (#[trigger] self@[i]).0 != name@,
            },
    {
        let mut i: usize = 0;
        while i < self.values.len()
            invariant
                i <= self.values@.len(),
                forall|k: int| 0 <= k < i ==> (#[trigger] self@[k]).0 != name@,
            decreases self.values@.len() - i,
        {
            assert(self@[i as int] == (self.values@[i as int].0@, self.values@[i as int].1@));
            if same_text(self.values[i].0.as_str(), name) {
                return Some(self.values[i].1.as_str());
            }
            i += 1;
        }
        None
    }

    /// Puts a value under a name.
    pub fn insert(&mut self, name: &str, value: &str)
        ensures
            final(self)@ == with_entry(old(self)@, name@, value@),
            in_name_order(final(self)@),
    {
        proof {
            use_type_invariant(&*self);
        }
        let ghost before = self@;
        let mut i: usize = 0;
        while i < self.values.len() && text_before(self.values[i].0.as_str(), name)
            invariant
                i <= self.values@.len(),
                *self == *old(self),
                before == entries_of(self.values@),
                forall|k: int| 0 <= k < i ==> precedes((#[trigger] before[k]).0, name@),
            decreases self.values@.len() - i,
        {
            assert(before[i as int].0 == self.values@[i as int].0@);
            i += 1;
        }
        proof {
            if i < before.len() {
                assert(before[i as int].0 == self.values@[i as int].0@);
            }
            lemma_place(before, name@, i as int);
            lemma_entry_keeps_order(before, name@, value@);
        }
        let present: bool = i < self.values.len() && same_text(self.values[i].0.as_str(), name);
        let mut next: Vec<(String, String)> = Vec::new();
        std::mem::swap(&mut next, &mut self.values);
        if present {
            next.set(i, (name.to_owned(), value.to_owned()));
            assert(entries_of(next@) =~= before.update(i as int, (name@, value@)));
        } else {
            next.insert(i, (name.to_owned(), value.to_owned()));
            assert(entries_of(next@) =~= before.insert(i as int, (name@, value@)));
        }
        self.values = next;
    }
}

impl Clone for EnvironmentOverride {
    fn clone(&self) -> (r: EnvironmentOverride)
        ensures
            r@ == self@,
    {
        proof {
            use_type_invariant(self);
        }
        let mut values: Vec<(String, String)> = Vec::new();
        let mut i: usize = 0;
        while i < self.values.len()
            invariant
                i <= self.values@.len(),
                values@.len() == i,
                forall|k: int|
                    0 <= k < i ==> (#[trigger] values@[k]).0@ == self.values@[k].0@
                        && values@[k].1@ == self.values@[k].1@,
            decreases self.values@.len() - i,
        {
            values.push((self.values[i].0.clone(), self.values[i].1.clone()));
            i += 1;
        }
        assert(entries_of(values@) =~= entries_of(self.values@));
        EnvironmentOverride { values }
    }
}

proof fn lemma_place(entries: Entries, name: Seq<char>, i: int)
    requires
        in_name_order(entries),
        0 <= i <= entries.len(),
        forall|k: int| 0 <= k < i ==> precedes((#[trigger] entries[k]).0, name),
        i < entries.len() ==> !precedes(entries[i].0, name),
    ensures
        entries_before(entries, name) == i,
    decreases entries.len(),
{
    if i > 0 {
        let rest = entries.drop_first();
        assert forall|k: int| 0 <= k < i - 1 implies precedes((#[trigger] rest[k]).0, name) by {
            assert(rest[k] == entries[k + 1]);
        }
        assert forall|a: int, b: int| 0 <= a < b < rest.len() implies precedes(
            #[trigger] rest[a].0,
            #[trigger] rest[b].0,
        ) by {
            assert(precedes(entries[a + 1].0, entries[b + 1].0));
        }
        lemma_place(rest, name, i - 1);
    }
}

pub(crate) proof fn lemma_entries_before(entries: Entries, name: Seq<char>)
    ensures
        ({
            let n = entries_before(entries, name);
            &&& n <= entries.len()
            &&& forall|k: int| 0 <= k < n ==> precedes((#[trigger] entries[k]).0, name)
            &&& n < entries.len() ==> !precedes(entries[n as int].0, name)
        }),
    decreases entries.len(),
{
    if entries.len() > 0 && precedes(entries[0].0, name) {
        let rest = entries.drop_first();
        lemma_entries_before(rest, name);
        let n = entries_before(entries, name);
        assert forall|k: int| 0 <= k < n implies precedes((#[trigger] entries[k]).0, name) by {
            if k > 0 {
                assert(rest[k - 1] == entries[k]);
            }
        }
    }
}

/// Putting a value under a name keeps the order of the names.
pub(crate) proof fn lemma_entry_keeps_order(entries: Entries, name: Seq<char>, value: Seq<char>)
    requires
        in_name_order(entries),
    ensures
        in_name_order(with_entry(entries, name, value)),
{
    lemma_entries_before(entries, name);
    let n = entries_before(entries, name) as int;
    let more = with_entry(entries, name, value);
    if n < entries.len() && entries[n].0 == name {
        assert forall|i: int, j: int| 0 <= i < j < more.len() implies precedes(
            #[trigger] more[i].0,
            #[trigger] more[j].0,
        ) by {
            assert(more[i].0 == entries[i].0 && more[j].0 == entries[j].0);
        }
    } else {
        if n < entries.len() {
            precedes_total(name, entries[n].0);
        }
        assert forall|i: int, j: int| 0 <= i < j < more.len() implies precedes(
            #[trigger] more[i].0,
            #[trigger] more[j].0,
        ) by {
            if j < n {
                assert(precedes(entries[i].0, entries[j].0));
            } else if i < n && j == n {
                assert(precedes(entries[i].0, name));
            } else if i < n {
                assert(precedes(entries[i].0, entries[j - 1].0));
            } else if i == n {
                if j - 1 > n {
                    assert(precedes(entries[n].0, entries[j - 1].0));
                    precedes_transitive(name, entries[n].0, entries[j - 1].0);
                }
            } else {
                assert(precedes(entries[i - 1].0, entries[j - 1].0));
            }
        }
    }
}

fn is_name(names: &Vec<String>, name: &str) -> (b: bool)
    ensures
        b == contents(names@).contains(name@),
{
    let ghost all = contents(names@);
    let mut i: usize = 0;
    while i < names.len()
        invariant
            i <= names@.len(),
            all == contents(names@),
            forall|k: int| 0 <= k < i ==> #[trigger] all[k] != name@,
        decreases names@.len() - i,
    {
        assert(all[i as int] == names@[i as int]@);
        if same_text(names[i].as_str(), name) {
            assert(all[i as int] == name@);
            return true;
        }
        i += 1;
    }
    false
}

pub(crate) proof fn lemma_admitted_order(entries: Entries, names: Seq<Seq<char>>, n: int)
    requires
        in_name_order(entries),
        0 <= n <= entries.len(),
    ensures
        in_name_order(admitted(entries, names, n)),
        n < entries.len() ==> forall|i: int|
            0 <= i < admitted(entries, names, n).len() ==> precedes(
                (#[trigger] admitted(entries, names, n)[i]).0,
                entries[n].0,
            ),
    decreases n,
{
    if n > 0 {
        lemma_admitted_order(entries, names, n - 1);
        let before = admitted(entries, names, n - 1);
        let now = admitted(entries, names, n);
        assert forall|i: int, j: int| 0 <= i < j < now.len() implies precedes(
            #[trigger] now[i].0,
            #[trigger] now[j].0,
        ) by {
            if j < before.len() {
                assert(precedes(before[i].0, before[j].0));
            }
        }
        if n < entries.len() {
            assert(precedes(entries[n - 1].0, entries[n].0));
            assert forall|i: int| 0 <= i < now.len() implies precedes(
                (#[trigger] now[i]).0,
                entries[n].0,
            ) by {
                if i < before.len() {
                    precedes_transitive(before[i].0, entries[n - 1].0, entries[n].0);
                }
            }
        }
    }
}

/// The base environment without the names that a shell did not admit when its
/// context was made.
pub fn frozen_base_environment(names: &Vec<String>, base: &EnvironmentOverride) -> (r:
    EnvironmentOverride)
    ensures
        r@ == admitted(base@, contents(names@), base@.len() as int),
{
    let size: usize = base.len();
    let ghost wanted = contents(names@);
    let mut values: Vec<(String, String)> = Vec::new();
    let mut i: usize = 0;
    assert(entries_of(values@) =~= Entries::empty());
    while i < size
        invariant
            i <= size,
            size == base@.len(),
            wanted == contents(names@),
            in_name_order(base@),
            entries_of(values@) == admitted(base@, wanted, i as int),
        decreases size - i,
    {
        if is_name(names, base.name(i)) {
            let ghost before = entries_of(values@);
            values.push((base.name(i).to_owned(), base.value(i).to_owned()));
            assert(entries_of(values@) =~= before.push(base@[i as int]));
        }
        i += 1;
    }
    proof {
        lemma_admitted_order(base@, wanted, size as int);
    }
    EnvironmentOverride { values }
}

proof fn lemma_overriding_fails(entries: Entries, overrides: Entries, n: int, m: int)
    requires
        0 <= n <= m,
        overridden(entries, overrides, n) is Err,
    ensures
        overridden(entries, overrides, m) == overridden(entries, overrides, n),
    decreases m,
{
    if n < m {
        lemma_overriding_fails(entries, overrides, n, m - 1);
    }
}

/// The bytes of an environment, where they can be counted.
fn count_bytes(environment: &EnvironmentOverride) -> (r: Option<usize>)
    ensures
        match r {
            Some(bytes) => entry_bytes(environment@, environment@.len() as int) == bytes,
            None => entry_bytes(environment@, environment@.len() as int) > usize::MAX,
        },
{
    let size: usize = environment.len();
    let mut total: usize = 0;
    let mut i: usize = 0;
    while i < size
        invariant
            i <= size,
            size == environment@.len(),
            total == entry_bytes(environment@, i as int),
        decreases size - i,
    {
        proof {
            lemma_bytes_grow(environment@, i + 1, size as int);
        }
        total = match total.checked_add(bytes_in(environment.name(i))) {
            Some(sum) => match sum.checked_add(bytes_in(environment.value(i))) {
                Some(sum) => sum,
                None => {
                    return None;
                },
            },
            None => {
                return None;
            },
        };
        i += 1;
    }
    Some(total)
}

proof fn lemma_bytes_grow(entries: Entries, n: int, m: int)
    requires
        n <= m,
    ensures
        entry_bytes(entries, n) <= entry_bytes(entries, m),
    decreases m - n,
{
    if n < m {
        lemma_bytes_grow(entries, n, m - 1);
    }
}

/// The environment of a process: what its shell admits of the base, with the
/// overrides.
pub fn environment(
    names: &Vec<String>,
    base: &EnvironmentOverride,
    overrides: &EnvironmentOverride,
    maximum_bytes: usize,
) -> (r: Result<EnvironmentOverride, String>)
    ensures
        match r {
            Ok(made) => process_environment(
                base@,
                contents(names@),
                overrides@,
                maximum_bytes,
            ) == Ok::<Entries, Seq<char>>(made@),
            Err(error) => process_environment(
                base@,
                contents(names@),
                overrides@,
                maximum_bytes,
            ) == Err::<Entries, Seq<char>>(error@),
        },
{
    let mut values: EnvironmentOverride = frozen_base_environment(names, base);
    let ghost start = values@;
    let size: usize = overrides.len();
    if size > MAX_ENVIRONMENT_ENTRIES {
        return Err("process environment exceeds the 256-entry limit".to_owned());
    }
    let mut i: usize = 0;
    while i < size
        invariant
            i <= size <= MAX_ENVIRONMENT_ENTRIES,
            size == overrides@.len(),
            start == admitted(base@, contents(names@), base@.len() as int),
            overridden(start, overrides@, i as int) == Ok::<Entries, &'static str>(values@),
        decreases size - i,
    {
        match validate_environment_pair(overrides.name(i), overrides.value(i)) {
            Ok(()) => {},
            Err(error) => {
                proof {
                    lemma_overriding_fails(start, overrides@, i + 1, size as int);
                }
                return Err(error.to_owned());
            },
        }
        values.insert(overrides.name(i), overrides.value(i));
        i += 1;
    }
    let bytes: usize = match count_bytes(&values) {
        Some(bytes) => bytes,
        None => {
            return Err("process environment byte count overflow".to_owned());
        },
    };
    if bytes > maximum_bytes {
        return Err(
            "process environment exceeds the ".to_owned().concat(
                decimal_text(maximum_bytes).as_str(),
            ).concat("-byte limit"),
        );
    }
    Ok(values)
}

/// Nothing of the base environment reaches a process that its shell did not
/// admit.
pub proof fn only_admitted_names_are_inherited(entries: Entries, names: Seq<Seq<char>>, n: int)
    requires
        0 <= n <= entries.len(),
    ensures
        forall|i: int|
            0 <= i < admitted(entries, names, n).len() ==> names.contains(
                (#[trigger] admitted(entries, names, n)[i]).0,
            ) && entries.contains(admitted(entries, names, n)[i]),
    decreases n,
{
    if n > 0 {
        only_admitted_names_are_inherited(entries, names, n - 1);
        assert(entries.contains(entries[n - 1]));
        let before = admitted(entries, names, n - 1);
        let now = admitted(entries, names, n);
        assert forall|i: int| 0 <= i < now.len() implies names.contains((#[trigger] now[i]).0)
            && entries.contains(now[i]) by {
            if i < before.len() {
                assert(now[i] == before[i]);
            }
        }
    }
}

} // verus!
