//! Text as a sequence of characters: the operations that parsing, rendering
//! and validation are stated over, each with its executable counterpart.

use vstd::prelude::*;
use vstd::string::*;
use vstd::utf8::*;

use crate::value::{contents, Abstract};

verus! {

/// `String::push` appends one character.
pub assume_specification[ std::string::String::push ](text: &mut std::string::String, c: char)
    ensures
        final(text)@ == old(text)@.push(c),
;

// ---------------------------------------------------------------------------
// Characters
// ---------------------------------------------------------------------------

/// The characters with the Unicode `White_Space` property.
pub open spec fn is_whitespace(c: char) -> bool {
    ||| 0x9 <= c as u32 <= 0xD
    ||| c as u32 == 0x20
    ||| c as u32 == 0x85
    ||| c as u32 == 0xA0
    ||| c as u32 == 0x1680
    ||| 0x2000 <= c as u32 <= 0x200A
    ||| c as u32 == 0x2028
    ||| c as u32 == 0x2029
    ||| c as u32 == 0x202F
    ||| c as u32 == 0x205F
    ||| c as u32 == 0x3000
}

/// The characters of the Unicode category `Cc`.
pub open spec fn is_control(c: char) -> bool {
    ||| c as u32 <= 0x1F
    ||| 0x7F <= c as u32 <= 0x9F
}

pub open spec fn is_lower(c: char) -> bool {
    'a' <= c <= 'z'
}

pub open spec fn is_digit(c: char) -> bool {
    '0' <= c <= '9'
}

/// A lowercase hexadecimal digit.
pub open spec fn is_lower_hex(c: char) -> bool {
    is_digit(c) || 'a' <= c <= 'f'
}

/// A hexadecimal digit in either case.
pub open spec fn is_hex(c: char) -> bool {
    is_lower_hex(c) || 'A' <= c <= 'F'
}

pub fn whitespace(c: char) -> (r: bool)
    ensures
        r == is_whitespace(c),
{
    let u: u32 = c as u32;
    (0x9 <= u && u <= 0xD) || u == 0x20 || u == 0x85 || u == 0xA0 || u == 0x1680 || (0x2000 <= u
        && u <= 0x200A) || u == 0x2028 || u == 0x2029 || u == 0x202F || u == 0x205F || u == 0x3000
}

pub fn control(c: char) -> (r: bool)
    ensures
        r == is_control(c),
{
    let u: u32 = c as u32;
    u <= 0x1F || (0x7F <= u && u <= 0x9F)
}

pub fn lower(c: char) -> (r: bool)
    ensures
        r == is_lower(c),
{
    'a' <= c && c <= 'z'
}

pub fn digit(c: char) -> (r: bool)
    ensures
        r == is_digit(c),
{
    '0' <= c && c <= '9'
}

pub fn lower_hex(c: char) -> (r: bool)
    ensures
        r == is_lower_hex(c),
{
    digit(c) || ('a' <= c && c <= 'f')
}

pub fn hex_digit(c: char) -> (r: bool)
    ensures
        r == is_hex(c),
{
    lower_hex(c) || ('A' <= c && c <= 'F')
}

// ---------------------------------------------------------------------------
// Characters of a text and back
// ---------------------------------------------------------------------------

/// The characters of a text.
pub fn chars_of(text: &str) -> (r: Vec<char>)
    ensures
        r@ == text@,
{
    let mut out: Vec<char> = Vec::new();
    for c in it: text.chars()
        invariant
            it.seq() == text@,
            out@ == text@.take(it.index() as int),
    {
        out.push(c);
    }
    assert(out@ =~= text@);
    out
}

/// The text made of the characters from `from` up to `to`.
pub fn text_of(chars: &[char], from: usize, to: usize) -> (r: String)
    requires
        from <= to <= chars@.len(),
    ensures
        r@ == chars@.subrange(from as int, to as int),
{
    let mut out: String = String::new();
    let mut i: usize = from;
    while i < to
        invariant
            from <= i <= to <= chars@.len(),
            out@ == chars@.subrange(from as int, i as int),
        decreases to - i,
    {
        out.push(chars[i]);
        i += 1;
        assert(out@ =~= chars@.subrange(from as int, i as int));
    }
    out
}

/// `std::str::from_utf8`: the text that the bytes are the UTF-8 form of, where
/// they are valid UTF-8.
#[verifier::external_body]
pub(crate) fn read_utf8(bytes: &[u8]) -> (r: Option<String>)
    ensures
        r is Some <==> valid_utf8(bytes@),
        r matches Some(text) ==> text@ == decode_utf8(bytes@),
{
    match std::str::from_utf8(bytes) {
        Ok(text) => Some(text.to_owned()),
        Err(_) => None,
    }
}

/// The number of bytes of the UTF-8 form of a text.
pub open spec fn byte_len(s: Seq<char>) -> nat {
    encode_utf8(s).len()
}

/// A character takes four bytes at most.
pub proof fn byte_len_bound(s: Seq<char>)
    ensures
        byte_len(s) <= 4 * s.len(),
    decreases s.len(),
{
    if s.len() > 0 {
        byte_len_bound(s.drop_first());
    }
}

/// The byte length of a text.
pub fn bytes_in(text: &str) -> (r: usize)
    ensures
        r == byte_len(text@),
{
    text.as_bytes().len()
}

/// Whether two texts are equal.
pub fn same_text(left: &str, right: &str) -> (b: bool)
    ensures
        b == (left@ == right@),
{
    let a: String = left.to_owned();
    let b: String = right.to_owned();
    a == b
}

// ---------------------------------------------------------------------------
// Prefixes, suffixes, membership
// ---------------------------------------------------------------------------

/// Whether `s` begins with `prefix`.
pub open spec fn begins(s: Seq<char>, prefix: Seq<char>) -> bool {
    prefix.len() <= s.len() && s.subrange(0, prefix.len() as int) == prefix
}

/// Whether `s` ends with `suffix`.
pub open spec fn ends(s: Seq<char>, suffix: Seq<char>) -> bool {
    suffix.len() <= s.len() && s.subrange(s.len() - suffix.len(), s.len() as int) == suffix
}

/// `s` without its first `n` characters.
pub open spec fn after(s: Seq<char>, n: int) -> Seq<char> {
    s.subrange(n, s.len() as int)
}

/// `s` without the prefix, where it has it.
pub open spec fn without_prefix(s: Seq<char>, prefix: Seq<char>) -> Option<Seq<char>> {
    if begins(s, prefix) {
        Some(after(s, prefix.len() as int))
    } else {
        None
    }
}

/// `s` without the suffix, where it has it.
pub open spec fn without_suffix(s: Seq<char>, suffix: Seq<char>) -> Option<Seq<char>> {
    if ends(s, suffix) {
        Some(s.subrange(0, s.len() - suffix.len()))
    } else {
        None
    }
}

/// Whether every character satisfies the condition.
pub open spec fn all_chars(s: Seq<char>, f: spec_fn(char) -> bool) -> bool {
    forall|i: int| 0 <= i < s.len() ==> f(#[trigger] s[i])
}

/// Whether the pattern stands in `chars` at position `at`.
pub open spec fn occurs_at(s: Seq<char>, pattern: Seq<char>, at: int) -> bool {
    0 <= at && at + pattern.len() <= s.len() && s.subrange(at, at + pattern.len()) == pattern
}

/// Whether the pattern stands in `chars` at position `at`.
pub fn stands_at(chars: &[char], pattern: &[char], at: usize) -> (b: bool)
    ensures
        b == occurs_at(chars@, pattern@, at as int),
{
    if at > chars.len() || pattern.len() > chars.len() - at {
        return false;
    }
    let mut i: usize = 0;
    while i < pattern.len()
        invariant
            i <= pattern@.len(),
            at + pattern@.len() <= chars@.len() <= usize::MAX,
            forall|k: int| 0 <= k < i ==> chars@[at + k] == #[trigger] pattern@[k],
        decreases pattern@.len() - i,
    {
        if chars[at + i] != pattern[i] {
            assert(chars@.subrange(at as int, at + pattern@.len())[i as int] != pattern@[i as int]);
            return false;
        }
        i += 1;
    }
    assert(chars@.subrange(at as int, at + pattern@.len()) =~= pattern@);
    true
}

pub fn starts_with(text: &str, prefix: &str) -> (b: bool)
    ensures
        b == begins(text@, prefix@),
{
    let chars: Vec<char> = chars_of(text);
    let pattern: Vec<char> = chars_of(prefix);
    stands_at(&chars, &pattern, 0)
}

pub fn ends_with(text: &str, suffix: &str) -> (b: bool)
    ensures
        b == ends(text@, suffix@),
{
    let chars: Vec<char> = chars_of(text);
    let pattern: Vec<char> = chars_of(suffix);
    if pattern.len() > chars.len() {
        return false;
    }
    stands_at(&chars, &pattern, chars.len() - pattern.len())
}

pub fn strip_prefix(text: &str, prefix: &str) -> (r: Option<String>)
    ensures
        r.abs() == without_prefix(text@, prefix@),
{
    let chars: Vec<char> = chars_of(text);
    let pattern: Vec<char> = chars_of(prefix);
    if stands_at(&chars, &pattern, 0) {
        Some(text_of(&chars, pattern.len(), chars.len()))
    } else {
        None
    }
}

pub fn strip_suffix(text: &str, suffix: &str) -> (r: Option<String>)
    ensures
        r.abs() == without_suffix(text@, suffix@),
{
    let chars: Vec<char> = chars_of(text);
    let pattern: Vec<char> = chars_of(suffix);
    if pattern.len() > chars.len() {
        return None;
    }
    if stands_at(&chars, &pattern, chars.len() - pattern.len()) {
        Some(text_of(&chars, 0, chars.len() - pattern.len()))
    } else {
        None
    }
}

pub fn contains_char(text: &str, wanted: char) -> (b: bool)
    ensures
        b == text@.contains(wanted),
{
    let chars: Vec<char> = chars_of(text);
    let mut i: usize = 0;
    while i < chars.len()
        invariant
            i <= chars@.len(),
            chars@ == text@,
            forall|k: int| 0 <= k < i ==> chars@[k] != wanted,
        decreases chars@.len() - i,
    {
        if chars[i] == wanted {
            assert(text@[i as int] == wanted);
            return true;
        }
        i += 1;
    }
    false
}

// ---------------------------------------------------------------------------
// Searching
// ---------------------------------------------------------------------------

/// The first position from `from` on at which the pattern stands.
pub open spec fn find_from(s: Seq<char>, pattern: Seq<char>, from: int) -> Option<int>
    decreases s.len() + 1 - from,
{
    if from + pattern.len() > s.len() {
        None
    } else if occurs_at(s, pattern, from) {
        Some(from)
    } else {
        find_from(s, pattern, from + 1)
    }
}

/// The first position at which the pattern stands.
pub open spec fn find(s: Seq<char>, pattern: Seq<char>) -> Option<int> {
    find_from(s, pattern, 0)
}

/// The last position, `from` at most, at which the pattern stands.
pub open spec fn rfind_from(s: Seq<char>, pattern: Seq<char>, from: int) -> Option<int>
    decreases from + 1,
{
    if from < 0 {
        None
    } else if occurs_at(s, pattern, from) {
        Some(from)
    } else {
        rfind_from(s, pattern, from - 1)
    }
}

/// The last position at which the pattern stands.
pub open spec fn rfind(s: Seq<char>, pattern: Seq<char>) -> Option<int> {
    rfind_from(s, pattern, s.len() - pattern.len())
}

/// What stands before and after the first occurrence of the separator.
pub open spec fn cut(s: Seq<char>, separator: Seq<char>) -> Option<(Seq<char>, Seq<char>)> {
    match find(s, separator) {
        Some(i) => Some((s.subrange(0, i), after(s, i + separator.len()))),
        None => None,
    }
}

/// What stands before and after the last occurrence of the separator.
pub open spec fn rcut(s: Seq<char>, separator: Seq<char>) -> Option<(Seq<char>, Seq<char>)> {
    match rfind(s, separator) {
        Some(i) => Some((s.subrange(0, i), after(s, i + separator.len()))),
        None => None,
    }
}

/// The position found is an occurrence, and no earlier one exists.
pub proof fn find_from_meaning(s: Seq<char>, pattern: Seq<char>, from: int)
    requires
        0 <= from,
    ensures
        match find_from(s, pattern, from) {
            Some(i) => from <= i && occurs_at(s, pattern, i) && forall|k: int|
                from <= k < i ==> !#[trigger] occurs_at(s, pattern, k),
            None => forall|k: int| from <= k ==> !#[trigger] occurs_at(s, pattern, k),
        },
    decreases s.len() + 1 - from,
{
    if from + pattern.len() > s.len() {
    } else if occurs_at(s, pattern, from) {
    } else {
        find_from_meaning(s, pattern, from + 1);
    }
}

/// An occurrence without an earlier one is the one that is found.
pub proof fn find_is(s: Seq<char>, pattern: Seq<char>, at: int)
    requires
        occurs_at(s, pattern, at),
        forall|k: int| 0 <= k < at ==> !#[trigger] occurs_at(s, pattern, k),
    ensures
        find(s, pattern) == Some(at),
{
    find_from_meaning(s, pattern, 0);
}

/// The position found is an occurrence, and no later one up to `from` exists.
pub proof fn rfind_from_meaning(s: Seq<char>, pattern: Seq<char>, from: int)
    ensures
        match rfind_from(s, pattern, from) {
            Some(i) => i <= from && occurs_at(s, pattern, i) && forall|k: int|
                i < k <= from ==> !#[trigger] occurs_at(s, pattern, k),
            None => forall|k: int| k <= from ==> !#[trigger] occurs_at(s, pattern, k),
        },
    decreases from + 1,
{
    if from < 0 {
    } else if occurs_at(s, pattern, from) {
    } else {
        rfind_from_meaning(s, pattern, from - 1);
    }
}

/// An occurrence without a later one is the one that is found from the end.
pub proof fn rfind_is(s: Seq<char>, pattern: Seq<char>, at: int)
    requires
        occurs_at(s, pattern, at),
        forall|k: int| at < k ==> !#[trigger] occurs_at(s, pattern, k),
    ensures
        rfind(s, pattern) == Some(at),
{
    rfind_from_meaning(s, pattern, s.len() - pattern.len());
}

/// A text is cut where the separator first stands.
pub proof fn cut_is(a: Seq<char>, separator: Seq<char>, b: Seq<char>)
    requires
        separator.len() > 0,
        !a.contains(separator[0]),
    ensures
        cut(a + separator + b, separator) == Some((a, b)),
{
    let s = a + separator + b;
    let n = a.len() as int;
    assert(s.subrange(n, n + separator.len()) =~= separator);
    assert forall|k: int| 0 <= k < n implies !#[trigger] occurs_at(s, separator, k) by {
        if occurs_at(s, separator, k) {
            assert(s.subrange(k, k + separator.len())[0] == s[k]);
            assert(s[k] == a[k]);
        }
    }
    find_is(s, separator, n);
    assert(s.subrange(0, n) =~= a);
    assert(after(s, n + separator.len()) =~= b);
}

/// A text is cut from the end where the separator last stands.
pub proof fn rcut_is(a: Seq<char>, separator: Seq<char>, b: Seq<char>)
    requires
        separator.len() > 0,
        forall|k: int| 0 < k ==> !#[trigger] occurs_at(separator + b, separator, k),
    ensures
        rcut(a + separator + b, separator) == Some((a, b)),
        rfind(a + separator + b, separator) == Some(a.len() as int),
{
    let s = a + separator + b;
    let n = a.len() as int;
    assert(s.subrange(n, n + separator.len()) =~= separator);
    assert forall|k: int| n < k implies !#[trigger] occurs_at(s, separator, k) by {
        if occurs_at(s, separator, k) {
            assert((separator + b).subrange(k - n, k - n + separator.len()) =~= s.subrange(
                k,
                k + separator.len(),
            ));
            assert(occurs_at(separator + b, separator, k - n));
        }
    }
    rfind_is(s, separator, n);
    assert(s.subrange(0, n) =~= a);
    assert(after(s, n + separator.len()) =~= b);
}

/// A separator of one character that does not stand behind its last
/// occurrence.
pub proof fn rcut_at_char(a: Seq<char>, separator: char, b: Seq<char>)
    requires
        !b.contains(separator),
    ensures
        rcut(a + seq![separator] + b, seq![separator]) == Some((a, b)),
        rfind(a + seq![separator] + b, seq![separator]) == Some(a.len() as int),
{
    let t = seq![separator] + b;
    assert forall|k: int| 0 < k implies !#[trigger] occurs_at(t, seq![separator], k) by {
        if occurs_at(t, seq![separator], k) {
            assert(t.subrange(k, k + 1)[0] == t[k]);
            assert(t[k] == b[k - 1]);
        }
    }
    rcut_is(a, seq![separator], b);
}

/// Where the first occurrence of the pattern is.
pub fn position(chars: &[char], pattern: &[char]) -> (r: Option<usize>)
    ensures
        match r {
            Some(i) => find(chars@, pattern@) == Some(i as int),
            None => find(chars@, pattern@) is None,
        },
        r matches Some(i) ==> i + pattern@.len() <= chars@.len(),
{
    if pattern.len() > chars.len() {
        return None;
    }
    let last: usize = chars.len() - pattern.len();
    let mut i: usize = 0;
    while i <= last
        invariant
            i <= last + 1,
            last == chars@.len() - pattern@.len(),
            find(chars@, pattern@) == find_from(chars@, pattern@, i as int),
        decreases last + 1 - i,
    {
        if stands_at(chars, pattern, i) {
            return Some(i);
        }
        if i == last {
            assert(find_from(chars@, pattern@, i + 1) is None);
            return None;
        }
        i += 1;
    }
    None
}

/// Where the last occurrence of the pattern is.
pub fn last_position(chars: &[char], pattern: &[char]) -> (r: Option<usize>)
    ensures
        match r {
            Some(i) => rfind(chars@, pattern@) == Some(i as int),
            None => rfind(chars@, pattern@) is None,
        },
        r matches Some(i) ==> i + pattern@.len() <= chars@.len(),
{
    if pattern.len() > chars.len() {
        return None;
    }
    let mut i: usize = chars.len() - pattern.len();
    loop
        invariant
            i <= chars@.len() - pattern@.len(),
            rfind(chars@, pattern@) == rfind_from(chars@, pattern@, i as int),
        decreases i,
    {
        if stands_at(chars, pattern, i) {
            return Some(i);
        }
        if i == 0 {
            assert(rfind_from(chars@, pattern@, -1) is None);
            return None;
        }
        i -= 1;
    }
}

/// The texts before and after the first occurrence of the separator.
pub fn split_once(text: &str, separator: &str) -> (r: Option<(String, String)>)
    ensures
        match r {
            Some((left, right)) => cut(text@, separator@) == Some((left@, right@)),
            None => cut(text@, separator@) is None,
        },
{
    let chars: Vec<char> = chars_of(text);
    let pattern: Vec<char> = chars_of(separator);
    let end: usize = chars.len();
    match position(&chars, &pattern) {
        Some(i) => Some((text_of(&chars, 0, i), text_of(&chars, i + pattern.len(), end))),
        None => None,
    }
}

/// The texts before and after the last occurrence of the separator.
pub fn rsplit_once(text: &str, separator: &str) -> (r: Option<(String, String)>)
    ensures
        match r {
            Some((left, right)) => rcut(text@, separator@) == Some((left@, right@)),
            None => rcut(text@, separator@) is None,
        },
{
    let chars: Vec<char> = chars_of(text);
    let pattern: Vec<char> = chars_of(separator);
    let end: usize = chars.len();
    match last_position(&chars, &pattern) {
        Some(i) => Some((text_of(&chars, 0, i), text_of(&chars, i + pattern.len(), end))),
        None => None,
    }
}

// ---------------------------------------------------------------------------
// Trimming
// ---------------------------------------------------------------------------

/// `s` without the white space at its start.
pub open spec fn trimmed_start(s: Seq<char>) -> Seq<char>
    decreases s.len(),
{
    if s.len() > 0 && is_whitespace(s[0]) {
        trimmed_start(s.drop_first())
    } else {
        s
    }
}

/// `s` without the white space at its end.
pub open spec fn trimmed_end(s: Seq<char>) -> Seq<char>
    decreases s.len(),
{
    if s.len() > 0 && is_whitespace(s.last()) {
        trimmed_end(s.drop_last())
    } else {
        s
    }
}

/// `s` without the white space at both ends.
pub open spec fn trimmed(s: Seq<char>) -> Seq<char> {
    trimmed_start(trimmed_end(s))
}

/// Whether nothing but white space stands in `s`.
pub open spec fn is_blank(s: Seq<char>) -> bool {
    forall|i: int| 0 <= i < s.len() ==> is_whitespace(#[trigger] s[i])
}

/// How much white space stands at the start.
pub fn leading_space(chars: &[char], to: usize) -> (r: usize)
    requires
        to <= chars@.len(),
    ensures
        r <= to,
        trimmed_start(chars@.subrange(0, to as int)) == chars@.subrange(r as int, to as int),
{
    let mut i: usize = 0;
    while i < to && whitespace(chars[i])
        invariant
            i <= to <= chars@.len(),
            trimmed_start(chars@.subrange(0, to as int)) == trimmed_start(
                chars@.subrange(i as int, to as int),
            ),
        decreases to - i,
    {
        assert(chars@.subrange(i as int, to as int).drop_first() =~= chars@.subrange(
            i + 1,
            to as int,
        ));
        i += 1;
    }
    i
}

/// Where the white space at the end begins.
pub fn trailing_start(chars: &[char], to: usize) -> (r: usize)
    requires
        to <= chars@.len(),
    ensures
        r <= to,
        trimmed_end(chars@.subrange(0, to as int)) == chars@.subrange(0, r as int),
{
    let mut i: usize = to;
    while i > 0 && whitespace(chars[i - 1])
        invariant
            i <= to <= chars@.len(),
            trimmed_end(chars@.subrange(0, to as int)) == trimmed_end(
                chars@.subrange(0, i as int),
            ),
        decreases i,
    {
        assert(chars@.subrange(0, i as int).drop_last() =~= chars@.subrange(0, i - 1));
        i -= 1;
    }
    i
}

pub fn trim(text: &str) -> (r: String)
    ensures
        r@ == trimmed(text@),
{
    let chars: Vec<char> = chars_of(text);
    assert(chars@.subrange(0, chars@.len() as int) =~= text@);
    let to: usize = trailing_start(&chars, chars.len());
    let from: usize = leading_space(&chars, to);
    text_of(&chars, from, to)
}

pub fn trim_start(text: &str) -> (r: String)
    ensures
        r@ == trimmed_start(text@),
{
    let chars: Vec<char> = chars_of(text);
    assert(chars@.subrange(0, chars@.len() as int) =~= text@);
    let from: usize = leading_space(&chars, chars.len());
    text_of(&chars, from, chars.len())
}

pub fn trim_end(text: &str) -> (r: String)
    ensures
        r@ == trimmed_end(text@),
{
    let chars: Vec<char> = chars_of(text);
    assert(chars@.subrange(0, chars@.len() as int) =~= text@);
    let to: usize = trailing_start(&chars, chars.len());
    text_of(&chars, 0, to)
}

/// Whether nothing but white space stands in the text.
pub fn blank(text: &str) -> (b: bool)
    ensures
        b == is_blank(text@),
{
    let chars: Vec<char> = chars_of(text);
    let mut i: usize = 0;
    while i < chars.len()
        invariant
            i <= chars@.len(),
            chars@ == text@,
            forall|k: int| 0 <= k < i ==> is_whitespace(#[trigger] chars@[k]),
        decreases chars@.len() - i,
    {
        if !whitespace(chars[i]) {
            return false;
        }
        i += 1;
    }
    true
}

/// What trimming leaves at the end is empty or ends in a visible character.
pub proof fn trimmed_end_facts(s: Seq<char>)
    ensures
        trimmed_end(s).len() <= s.len(),
        trimmed_end(s) == s.subrange(0, trimmed_end(s).len() as int),
        trimmed_end(s).len() > 0 ==> !is_whitespace(trimmed_end(s).last()),
        trimmed_end(s).len() == 0 <==> is_blank(s),
        trimmed_end(trimmed_end(s)) == trimmed_end(s),
    decreases s.len(),
{
    if s.len() > 0 && is_whitespace(s.last()) {
        trimmed_end_facts(s.drop_last());
        let t = trimmed_end(s);
        assert(s.drop_last().subrange(0, t.len() as int) =~= s.subrange(0, t.len() as int));
        if is_blank(s.drop_last()) {
            assert forall|i: int| 0 <= i < s.len() implies is_whitespace(#[trigger] s[i]) by {
                if i < s.len() - 1 {
                    assert(s.drop_last()[i] == s[i]);
                }
            }
        } else {
            let i = choose|i: int| 0 <= i < s.drop_last().len() && !is_whitespace(
                #[trigger] s.drop_last()[i],
            );
            assert(s[i] == s.drop_last()[i]);
        }
    } else {
        assert(s.subrange(0, s.len() as int) =~= s);
        if s.len() > 0 {
            assert(!is_whitespace(s[s.len() - 1]));
        }
    }
}

/// What trimming leaves at the start is empty or begins with a visible
/// character.
pub proof fn trimmed_start_facts(s: Seq<char>)
    ensures
        trimmed_start(s).len() <= s.len(),
        trimmed_start(s) == after(s, s.len() - trimmed_start(s).len()),
        trimmed_start(s).len() > 0 ==> !is_whitespace(trimmed_start(s)[0]),
        trimmed_start(s).len() == 0 <==> is_blank(s),
        trimmed_start(trimmed_start(s)) == trimmed_start(s),
    decreases s.len(),
{
    if s.len() > 0 && is_whitespace(s[0]) {
        let d = s.drop_first();
        trimmed_start_facts(d);
        let t = trimmed_start(s);
        assert(after(d, d.len() - t.len()) =~= after(s, s.len() - t.len()));
        if is_blank(d) {
            assert forall|i: int| 0 <= i < s.len() implies is_whitespace(#[trigger] s[i]) by {
                if i > 0 {
                    assert(d[i - 1] == s[i]);
                }
            }
        } else {
            let i = choose|i: int| 0 <= i < d.len() && !is_whitespace(#[trigger] d[i]);
            assert(s[i + 1] == d[i]);
        }
    } else {
        assert(after(s, 0) =~= s);
        if s.len() > 0 {
            assert(!is_whitespace(s[0]));
        }
    }
}

/// A trimmed text has no white space at its ends, and trimming it again
/// changes nothing.
pub proof fn trimmed_facts(s: Seq<char>)
    ensures
        trimmed(s).len() <= s.len(),
        trimmed(s).len() > 0 ==> !is_whitespace(trimmed(s)[0]) && !is_whitespace(
            trimmed(s).last(),
        ),
        trimmed(s).len() == 0 <==> is_blank(s),
        trimmed(trimmed(s)) == trimmed(s),
{
    let e = trimmed_end(s);
    trimmed_end_facts(s);
    trimmed_start_facts(e);
    let t = trimmed(s);
    if t.len() > 0 {
        assert(t.last() == e.last());
        assert(trimmed_end(t) == t);
    } else {
        assert(is_blank(e));
        if e.len() > 0 {
            assert(is_whitespace(e[e.len() - 1]));
        }
    }
    if is_blank(s) {
        assert(e.len() == 0);
    }
}

// ---------------------------------------------------------------------------
// Splitting at a character
// ---------------------------------------------------------------------------

/// The pieces of `s` between the separators: one more than there are
/// separators.
pub open spec fn pieces(s: Seq<char>, separator: char) -> Seq<Seq<char>>
    decreases s.len(),
{
    if s.len() == 0 {
        seq![Seq::<char>::empty()]
    } else {
        let p = pieces(s.drop_last(), separator);
        if s.last() == separator {
            p.push(Seq::<char>::empty())
        } else {
            p.drop_last().push(p.last().push(s.last()))
        }
    }
}

/// There is at least one piece.
pub proof fn pieces_nonempty(s: Seq<char>, separator: char)
    ensures
        pieces(s, separator).len() > 0,
    decreases s.len(),
{
    if s.len() > 0 {
        pieces_nonempty(s.drop_last(), separator);
    }
}

/// Characters other than the separator lengthen the last piece.
pub proof fn pieces_extended(s: Seq<char>, more: Seq<char>, separator: char)
    requires
        !more.contains(separator),
    ensures
        pieces(s + more, separator) == pieces(s, separator).drop_last().push(
            pieces(s, separator).last() + more,
        ),
    decreases more.len(),
{
    pieces_nonempty(s, separator);
    let p = pieces(s, separator);
    if more.len() == 0 {
        assert(s + more =~= s);
        assert(p.last() + more =~= p.last());
        assert(p.drop_last().push(p.last()) =~= p);
    } else {
        let less = more.drop_last();
        assert forall|i: int| 0 <= i < less.len() implies less[i] != separator by {
            assert(more.contains(more[i]));
        }
        assert(more.contains(more.last()));
        pieces_extended(s, less, separator);
        assert((s + more).drop_last() =~= s + less);
        let q = pieces(s + less, separator);
        assert(q.drop_last() =~= p.drop_last());
        assert((p.last() + less).push(more.last()) =~= p.last() + more);
    }
}

/// The pieces of a text.
pub fn split(text: &str, separator: char) -> (r: Vec<String>)
    ensures
        r.abs() == pieces(text@, separator),
        r@.len() > 0,
{
    let chars: Vec<char> = chars_of(text);
    let mut out: Vec<String> = Vec::new();
    let mut start: usize = 0;
    let mut i: usize = 0;
    proof {
        assert(chars@.subrange(0, 0) =~= Seq::<char>::empty());
        assert(contents(out@).push(chars@.subrange(0, 0)) =~= pieces(
            chars@.subrange(0, 0),
            separator,
        ));
    }
    while i < chars.len()
        invariant
            start <= i <= chars@.len(),
            chars@ == text@,
            contents(out@).push(chars@.subrange(start as int, i as int)) == pieces(
                chars@.subrange(0, i as int),
                separator,
            ),
        decreases chars@.len() - i,
    {
        let ghost before = contents(out@);
        let ghost p = pieces(chars@.subrange(0, i as int), separator);
        assert(chars@.subrange(0, i + 1).drop_last() =~= chars@.subrange(0, i as int));
        assert(p.drop_last() =~= before);
        if chars[i] == separator {
            out.push(text_of(&chars, start, i));
            start = i + 1;
            assert(contents(out@) =~= p);
            assert(chars@.subrange(start as int, i + 1) =~= Seq::<char>::empty());
        } else {
            assert(chars@.subrange(start as int, i + 1) =~= chars@.subrange(
                start as int,
                i as int,
            ).push(chars@[i as int]));
        }
        i += 1;
    }
    assert(chars@.subrange(0, i as int) =~= text@);
    let ghost before = contents(out@);
    out.push(text_of(&chars, start, chars.len()));
    assert(contents(out@) =~= before.push(chars@.subrange(start as int, i as int)));
    out
}

// ---------------------------------------------------------------------------
// Lines
// ---------------------------------------------------------------------------

/// A terminated line without the carriage return before its line feed.
pub open spec fn without_return(line: Seq<char>) -> Seq<char> {
    if line.len() > 0 && line.last() == '\r' {
        line.drop_last()
    } else {
        line
    }
}

/// The lines of a text. A line ends at a line feed, or at a carriage return
/// and a line feed; after a final line ending there is no further line.
pub open spec fn lines_of(s: Seq<char>) -> Seq<Seq<char>> {
    let p = pieces(s, '\n');
    let n = if p.last().len() == 0 {
        (p.len() - 1) as nat
    } else {
        p.len()
    };
    Seq::new(
        n,
        |i: int|
            if i < p.len() - 1 {
                without_return(p[i])
            } else {
                p[i]
            },
    )
}

/// The lines of a text.
pub fn lines(text: &str) -> (r: Vec<String>)
    ensures
        r.abs() == lines_of(text@),
{
    let parts: Vec<String> = split(text, '\n');
    let ghost p = pieces(text@, '\n');
    let count: usize = if parts[parts.len() - 1].as_str().is_empty() {
        parts.len() - 1
    } else {
        parts.len()
    };
    assert(p.last() == parts@[parts@.len() - 1]@);
    let mut out: Vec<String> = Vec::new();
    let mut i: usize = 0;
    while i < count
        invariant
            i <= count <= parts@.len(),
            parts.abs() == p,
            p == pieces(text@, '\n'),
            count == lines_of(text@).len(),
            contents(out@) == lines_of(text@).take(i as int),
        decreases count - i,
    {
        let piece: &String = &parts[i];
        assert(piece@ == p[i as int]);
        let chars: Vec<char> = chars_of(piece.as_str());
        let ghost before = contents(out@);
        if i < parts.len() - 1 && chars.len() > 0 && chars[chars.len() - 1] == '\r' {
            out.push(text_of(&chars, 0, chars.len() - 1));
            assert(chars@.subrange(0, chars@.len() - 1) =~= piece@.drop_last());
        } else {
            out.push(text_of(&chars, 0, chars.len()));
            assert(chars@.subrange(0, chars@.len() as int) =~= piece@);
        }
        assert(contents(out@) =~= before.push(lines_of(text@)[i as int]));
        assert(lines_of(text@).take(i + 1) =~= lines_of(text@).take(i as int).push(
            lines_of(text@)[i as int],
        ));
        i += 1;
    }
    assert(lines_of(text@).take(count as int) =~= lines_of(text@));
    out
}

// ---------------------------------------------------------------------------
// Order
// ---------------------------------------------------------------------------

/// The order of texts: by the first character in which they differ, a proper
/// prefix first. It is the order of their UTF-8 bytes.
pub open spec fn precedes(a: Seq<char>, b: Seq<char>) -> bool
    decreases a.len(),
{
    if b.len() == 0 {
        false
    } else if a.len() == 0 {
        true
    } else if a[0] != b[0] {
        a[0] < b[0]
    } else {
        precedes(a.drop_first(), b.drop_first())
    }
}

/// Whether the one text comes before the other.
pub fn text_before(left: &str, right: &str) -> (r: bool)
    ensures
        r == precedes(left@, right@),
{
    let a: Vec<char> = chars_of(left);
    let b: Vec<char> = chars_of(right);
    let mut i: usize = 0;
    assert(after(a@, 0) =~= left@);
    assert(after(b@, 0) =~= right@);
    while i < a.len() && i < b.len()
        invariant
            i <= a@.len(),
            i <= b@.len(),
            precedes(left@, right@) == precedes(after(a@, i as int), after(b@, i as int)),
        decreases a@.len() - i,
    {
        if a[i] != b[i] {
            return a[i] < b[i];
        }
        assert(after(a@, i as int).drop_first() =~= after(a@, i + 1));
        assert(after(b@, i as int).drop_first() =~= after(b@, i + 1));
        i += 1;
    }
    i < b.len()
}

/// The order is irreflexive.
pub proof fn precedes_irreflexive(a: Seq<char>)
    ensures
        !precedes(a, a),
    decreases a.len(),
{
    if a.len() > 0 {
        precedes_irreflexive(a.drop_first());
    }
}

/// The order is transitive.
pub proof fn precedes_transitive(a: Seq<char>, b: Seq<char>, c: Seq<char>)
    requires
        precedes(a, b),
        precedes(b, c),
    ensures
        precedes(a, c),
    decreases a.len(),
{
    if a.len() > 0 && a[0] == b[0] && b[0] == c[0] {
        precedes_transitive(a.drop_first(), b.drop_first(), c.drop_first());
    }
}

/// Of two different texts one comes first.
pub proof fn precedes_total(a: Seq<char>, b: Seq<char>)
    ensures
        a == b || precedes(a, b) || precedes(b, a),
        !(precedes(a, b) && precedes(b, a)),
    decreases a.len(),
{
    if a.len() > 0 && b.len() > 0 && a[0] == b[0] {
        precedes_total(a.drop_first(), b.drop_first());
        if a.drop_first() == b.drop_first() {
            assert(a =~= seq![a[0]] + a.drop_first());
            assert(b =~= seq![b[0]] + b.drop_first());
        }
    } else if a.len() == 0 && b.len() == 0 {
        assert(a =~= b);
    }
}

// ---------------------------------------------------------------------------
// Decimal numbers
// ---------------------------------------------------------------------------

/// The character of one decimal digit.
pub open spec fn digit_char(d: int) -> char {
    (48 + d) as char
}

/// A number in decimal digits, without leading zeros.
pub open spec fn decimal(n: nat) -> Seq<char>
    decreases n,
{
    if n < 10 {
        seq![digit_char(n as int)]
    } else {
        decimal(n / 10).push(digit_char((n % 10) as int))
    }
}

/// The number that a row of decimal digits stands for.
pub open spec fn decimal_value(s: Seq<char>) -> nat
    decreases s.len(),
{
    if s.len() == 0 {
        0
    } else {
        decimal_value(s.drop_last()) * 10 + (s.last() as u32 - 48) as nat
    }
}

/// A number written in decimal.
pub fn decimal_of(n: u64) -> (r: String)
    ensures
        r@ == decimal(n as nat),
    decreases n,
{
    let last: u8 = 48u8 + ((n % 10) as u8);
    let c: char = last as char;
    assert(c == digit_char((n % 10) as int));
    if n < 10 {
        let mut out: String = String::new();
        out.push(c);
        assert(out@ =~= decimal(n as nat));
        out
    } else {
        let mut out: String = decimal_of(n / 10);
        out.push(c);
        out
    }
}

/// A number of things in decimal digits.
pub fn decimal_text(n: usize) -> (r: String)
    ensures
        r@ == decimal(n as nat),
{
    decimal_of(n as u64)
}

/// The digits after an optional plus sign.
pub open spec fn unsigned_digits(s: Seq<char>) -> Seq<char> {
    if s.len() > 0 && s[0] == '+' {
        s.drop_first()
    } else {
        s
    }
}

/// Whether a text is a decimal number: digits, after an optional plus sign.
pub open spec fn is_number(s: Seq<char>) -> bool {
    unsigned_digits(s).len() > 0 && all_chars(unsigned_digits(s), |c: char| is_digit(c))
}

/// The number that a text stands for, where it is one and fits.
pub open spec fn number_in(s: Seq<char>) -> Option<usize> {
    if is_number(s) && decimal_value(unsigned_digits(s)) <= usize::MAX {
        Some(decimal_value(unsigned_digits(s)) as usize)
    } else {
        None
    }
}

/// More digits never make a number smaller.
pub proof fn decimal_value_grows(s: Seq<char>, n: int)
    requires
        0 <= n <= s.len(),
        all_chars(s, |c: char| is_digit(c)),
    ensures
        decimal_value(s.take(n)) <= decimal_value(s),
    decreases s.len(),
{
    if n == s.len() {
        assert(s.take(n) =~= s);
    } else {
        assert(s.drop_last().take(n) =~= s.take(n));
        assert forall|i: int| 0 <= i < s.drop_last().len() implies is_digit(
            #[trigger] s.drop_last()[i],
        ) by {
            assert(s.drop_last()[i] == s[i]);
        }
        decimal_value_grows(s.drop_last(), n);
    }
}

/// The number that a text stands for, where it is one and fits.
pub fn parse_number(text: &str) -> (r: Option<usize>)
    ensures
        r == number_in(text@),
{
    let chars: Vec<char> = chars_of(text);
    let from: usize = if chars.len() > 0 && chars[0] == '+' {
        1
    } else {
        0
    };
    let ghost d = unsigned_digits(text@);
    assert(d =~= after(text@, from as int));
    if from == chars.len() {
        return None;
    }
    let mut i: usize = from;
    while i < chars.len()
        invariant
            from <= i <= chars@.len(),
            chars@ == text@,
            d == after(text@, from as int),
            d == unsigned_digits(text@),
            forall|k: int| 0 <= k < i - from ==> is_digit(#[trigger] d[k]),
        decreases chars@.len() - i,
    {
        assert(d[i - from] == chars@[i as int]);
        if !digit(chars[i]) {
            return None;
        }
        i += 1;
    }
    let mut value: usize = 0;
    i = from;
    assert(d.take(0) =~= Seq::<char>::empty());
    while i < chars.len()
        invariant
            from <= i <= chars@.len(),
            chars@ == text@,
            d == after(text@, from as int),
            d == unsigned_digits(text@),
            d.len() > 0,
            all_chars(d, |c: char| is_digit(c)),
            value == decimal_value(d.take(i - from)),
        decreases chars@.len() - i,
    {
        assert(d[i - from] == chars@[i as int]);
        assert(d.take(i + 1 - from).drop_last() =~= d.take(i - from));
        assert(d.take(i + 1 - from).last() == chars@[i as int]);
        proof {
            decimal_value_grows(d, i + 1 - from);
        }
        let unit: usize = (chars[i] as u32 - 48) as usize;
        match value.checked_mul(10) {
            Some(tens) => match tens.checked_add(unit) {
                Some(next) => {
                    value = next;
                },
                None => {
                    return None;
                },
            },
            None => {
                return None;
            },
        }
        i += 1;
    }
    assert(d.take(d.len() as int) =~= d);
    Some(value)
}

/// The decimal form of a number is read back as that number.
pub proof fn decimal_round_trip(n: nat)
    ensures
        decimal(n).len() > 0,
        decimal_value(decimal(n)) == n,
        all_chars(decimal(n), |c: char| is_digit(c)),
    decreases n,
{
    if n < 10 {
        let s = decimal(n);
        assert(s.drop_last() =~= Seq::<char>::empty());
        assert(decimal_value(s.drop_last()) == 0);
    } else {
        decimal_round_trip(n / 10);
        let s = decimal(n);
        assert(s.drop_last() =~= decimal(n / 10));
        assert forall|i: int| 0 <= i < s.len() implies is_digit(#[trigger] s[i]) by {
            if i < s.len() - 1 {
                assert(s[i] == decimal(n / 10)[i]);
            }
        }
    }
}

// ---------------------------------------------------------------------------
// ASCII case
// ---------------------------------------------------------------------------

/// A capital ASCII letter as a small one; any other character as it is.
pub open spec fn lowered_char(c: char) -> char {
    if 'A' <= c <= 'Z' {
        (c as u32 + 32) as char
    } else {
        c
    }
}

/// A text with its ASCII letters in lowercase.
pub open spec fn lowered(s: Seq<char>) -> Seq<char> {
    Seq::new(s.len(), |i: int| lowered_char(s[i]))
}

/// A text with its ASCII letters in lowercase.
pub fn ascii_lowered(text: &str) -> (r: String)
    ensures
        r@ == lowered(text@),
{
    let chars: Vec<char> = chars_of(text);
    let mut out: String = String::new();
    let mut i: usize = 0;
    while i < chars.len()
        invariant
            i <= chars@.len(),
            chars@ == text@,
            out@ == lowered(text@).take(i as int),
        decreases chars@.len() - i,
    {
        let c: char = chars[i];
        if 'A' <= c && c <= 'Z' {
            out.push((c as u8 + 32) as char);
        } else {
            out.push(c);
        }
        i += 1;
        assert(out@ =~= lowered(text@).take(i as int));
    }
    assert(out@ =~= lowered(text@));
    out
}

} // verus!
